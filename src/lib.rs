//! Conversion of Docusaurus-flavoured markdown into Quarto-flavoured markdown.
//!
//! The conversion works line by line: a frontmatter block between `---`
//! delimiters has its `sidebar_position` field renamed to `order`, and
//! admonition markers (`:::note Title` ... `:::`) become Quarto callouts.

pub mod admonition;
pub mod content;
pub mod frontmatter;
pub mod text;

pub use admonition::{callout_type, convert_admonitions};
pub use content::convert_content;
pub use frontmatter::convert_frontmatter;

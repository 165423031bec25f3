use vstd::prelude::*;

use crate::text::{find_char, has_prefix, index_of, starts_with_text, trim_text, trimmed};

verus! {

/// The field name that is renamed to `order`.
pub open spec fn position_key() -> Seq<char> {
    "sidebar_position"@
}

/// The text after the first colon of `line`; empty where `line` has no
/// colon.
pub open spec fn field_value_of(line: Seq<char>) -> Seq<char> {
    let k = index_of(line, ':');
    if k < line.len() {
        line.subrange(k + 1 as int, line.len() as int)
    } else {
        seq![]
    }
}

/// One frontmatter line after conversion, with its line feed.
pub open spec fn frontmatter_line(line: Seq<char>) -> Seq<char> {
    if has_prefix(trimmed(line), position_key()) {
        "order: "@ + trimmed(field_value_of(line)) + "\n"@
    } else {
        line + "\n"@
    }
}

/// The converted lines of a frontmatter block, in order.
pub open spec fn frontmatter_text(lines: Seq<Seq<char>>) -> Seq<char>
    decreases lines.len(),
{
    if lines.len() == 0 {
        seq![]
    } else {
        frontmatter_text(lines.drop_last()) + frontmatter_line(lines.last())
    }
}

/// The characters of each line.
pub open spec fn line_views(lines: Seq<&str>) -> Seq<Seq<char>> {
    lines.map_values(|l: &str| l@)
}

/// The text after the first colon of `line`.
fn field_value<'a>(line: &'a str) -> (r: &'a str)
    ensures
        r@ == field_value_of(line@),
{
    let n = line.unicode_len();
    let k = find_char(line, ':');
    if k < n {
        line.substring_char(k + 1, n)
    } else {
        proof {
            reveal_strlit("");
        }
        ""
    }
}

/// Converts one frontmatter line and appends it, with a line feed, to `out`.
fn push_frontmatter_line(out: &mut String, line: &str)
    ensures
        final(out)@ == old(out)@ + frontmatter_line(line@),
{
    if starts_with_text(trim_text(line), "sidebar_position") {
        let value = trim_text(field_value(line));
        out.append("order: ");
        out.append(value);
        out.append("\n");
    } else {
        out.append(line);
        out.append("\n");
    }
}

/// Converts the lines of a frontmatter block (without its `---` delimiters).
///
/// A line whose trimmed text begins with `sidebar_position` becomes
/// `order: <value>`, where the value is the trimmed text after the first
/// colon; every other line is kept as it is. Each output line ends with a
/// line feed.
pub fn convert_frontmatter(lines: &[&str]) -> (r: String)
    ensures
        r@ == frontmatter_text(line_views(lines@)),
{
    let mut result = String::new();
    let mut i: usize = 0;
    while i < lines.len()
        invariant
            i <= lines@.len(),
            result@ == frontmatter_text(line_views(lines@).take(i as int)),
        decreases lines@.len() - i,
    {
        push_frontmatter_line(&mut result, lines[i]);
        proof {
            let v = line_views(lines@);
            assert(v.take(i + 1).drop_last() =~= v.take(i as int));
        }
        i = i + 1;
    }
    assert(line_views(lines@).take(lines@.len() as int) =~= line_views(lines@));
    result
}

} // verus!

use vstd::prelude::*;

use crate::text::{has_prefix, lead_len, same_text, starts_with_text, trim_text, trimmed};

verus! {

/// Whether a non-ASCII character is a Unicode word character (`Alphabetic`,
/// `Join_Control`, `Decimal_Number`, `Mark` or `Connector_Punctuation`).
pub uninterp spec fn unicode_word(c: char) -> bool;

/// The ASCII word characters: letters, digits and the underscore.
pub open spec fn is_ascii_word(c: char) -> bool {
    ||| 'a' <= c <= 'z'
    ||| 'A' <= c <= 'Z'
    ||| '0' <= c <= '9'
    ||| c == '_'
}

/// The word characters of a pattern's `\w` class.
pub open spec fn is_word(c: char) -> bool {
    if (c as u32) < 128 {
        is_ascii_word(c)
    } else {
        unicode_word(c)
    }
}

pub open spec fn word() -> spec_fn(char) -> bool {
    |c: char| is_word(c)
}

/// What `str::to_lowercase` makes of a text.
pub uninterp spec fn lower_of(s: Seq<char>) -> Seq<char>;

/// Length of the word that follows the `:::` at the start of `line`; zero
/// where there is no such word, so that the line opens no admonition.
pub open spec fn marker_word_len(line: Seq<char>) -> nat {
    if has_prefix(line, ":::"@) {
        lead_len(line.subrange(3, line.len() as int), word())
    } else {
        0
    }
}

/// The callout type for an admonition type token, given the token in lower
/// case: `info` becomes `note`, `danger` becomes `important`, the other known
/// types keep their name, and an unknown token is kept as written.
pub open spec fn callout_type_of(token: Seq<char>, lowered: Seq<char>) -> Seq<char> {
    if lowered == "note"@ {
        "note"@
    } else if lowered == "tip"@ {
        "tip"@
    } else if lowered == "info"@ {
        "note"@
    } else if lowered == "caution"@ {
        "caution"@
    } else if lowered == "warning"@ {
        "warning"@
    } else if lowered == "danger"@ {
        "important"@
    } else {
        token
    }
}

/// The opening of a callout: `:::: {<kind>}` without a title, or
/// `:::: {.callout-<kind>}` and a `## <title>` line with one.
pub open spec fn callout_opening(kind: Seq<char>, title: Seq<char>) -> Seq<char> {
    if title.len() == 0 {
        ":::: {"@ + kind + "}"@
    } else {
        ":::: {.callout-"@ + kind + "}\n## "@ + title
    }
}

/// One line after admonition conversion.
pub open spec fn admonition_text(line: Seq<char>) -> Seq<char> {
    let w = marker_word_len(line) as int;
    if w > 0 {
        let token = line.subrange(3, 3 + w);
        let title = trimmed(line.subrange(3 + w, line.len() as int));
        callout_opening(callout_type_of(token, lower_of(token)), title)
    } else if line == ":::"@ {
        "::::"@
    } else {
        line
    }
}

/// Relies on `regex_syntax::is_word_character` (with its default Unicode
/// tables, where it does not panic): it answers `true` for an ASCII
/// character exactly on `[_0-9a-zA-Z]`, and otherwise by the Unicode
/// word-character table.
#[verifier::external_body]
fn is_word_char(c: char) -> (r: bool)
    ensures
        (c as u32) < 128 ==> r == is_ascii_word(c),
        (c as u32) >= 128 ==> r == unicode_word(c),
{
    regex_syntax::is_word_character(c)
}

/// Relies on `str::to_lowercase`: its result depends on the text alone.
#[verifier::external_body]
fn lowercase(s: &str) -> (r: String)
    ensures
        r@ == lower_of(s@),
{
    s.to_lowercase()
}

/// Length of the word after a leading `:::` of `line` (zero where there is
/// none).
fn marker_word(line: &str) -> (r: usize)
    ensures
        r == marker_word_len(line@),
        r > 0 ==> 3 + r <= line@.len(),
{
    if !starts_with_text(line, ":::") {
        return 0;
    }
    proof {
        reveal_strlit(":::");
    }
    let n = line.unicode_len();
    let mut j: usize = 3;
    while j < n && is_word_char(line.get_char(j))
        invariant
            n == line@.len(),
            3 <= j <= n,
            forall|k: int| 3 <= k < j ==> is_word(#[trigger] line@[k]),
        decreases n - j,
    {
        j = j + 1;
    }
    proof {
        let rest = line@.subrange(3, n as int);
        assert forall|k: int| 0 <= k < j - 3 implies (word())(#[trigger] rest[k]) by {
            assert(rest[k] == line@[k + 3]);
        }
        if j < n {
            assert(rest[j - 3] == line@[j as int]);
        }
        crate::text::lemma_lead_len(rest, word(), j - 3);
    }
    j - 3
}

/// The callout type for the admonition type `token`, where `lowered` is
/// `token` in lower case (see `callout_type_of`).
pub fn callout_type(token: &str, lowered: &str) -> (r: String)
    ensures
        r@ == callout_type_of(token@, lowered@),
{
    if same_text(lowered, "note") {
        String::from_str("note")
    } else if same_text(lowered, "tip") {
        String::from_str("tip")
    } else if same_text(lowered, "info") {
        String::from_str("note")
    } else if same_text(lowered, "caution") {
        String::from_str("caution")
    } else if same_text(lowered, "warning") {
        String::from_str("warning")
    } else if same_text(lowered, "danger") {
        String::from_str("important")
    } else {
        String::from_str(token)
    }
}

/// Converts one line from Docusaurus admonition syntax to a Quarto callout.
///
/// A line that starts with `:::` and a word opens a callout whose type comes
/// from the word (see `callout_type_of`) and whose title is the trimmed rest
/// of the line; a line that is exactly `:::` becomes `::::`; any other line
/// is returned unchanged.
pub fn convert_admonitions(line: &str) -> (r: String)
    ensures
        r@ == admonition_text(line@),
{
    let n = line.unicode_len();
    let w = marker_word(line);
    if w > 0 {
        let token = line.substring_char(3, 3 + w);
        let lowered = lowercase(token);
        let kind = callout_type(token, lowered.as_str());
        let title = trim_text(line.substring_char(3 + w, n));
        let mut out = if title.unicode_len() == 0 {
            String::from_str(":::: {")
        } else {
            String::from_str(":::: {.callout-")
        };
        out.append(kind.as_str());
        if title.unicode_len() == 0 {
            out.append("}");
        } else {
            out.append("}\n## ");
            out.append(title);
        }
        out
    } else if same_text(line, ":::") {
        String::from_str("::::")
    } else {
        String::from_str(line)
    }
}

/// Admonition conversion settles after one pass: converting a line that has
/// already been converted leaves it as it is, since a converted marker starts
/// with four colons and no word follows its first three.
pub proof fn lemma_admonition_settles(line: Seq<char>)
    ensures
        admonition_text(admonition_text(line)) == admonition_text(line),
{
    reveal_strlit(":::");
    reveal_strlit("::::");
    reveal_strlit(":::: {");
    reveal_strlit(":::: {.callout-");
    let out = admonition_text(line);
    if marker_word_len(line) > 0 || line == ":::"@ {
        assert(out.len() >= 4 && out[3] == ':' && out.subrange(0, 3) =~= ":::"@) by {
            let w = marker_word_len(line) as int;
            if w > 0 {
                let token = line.subrange(3, 3 + w);
                let title = trimmed(line.subrange(3 + w, line.len() as int));
                let kind = callout_type_of(token, lower_of(token));
                if title.len() == 0 {
                    assert(out == ":::: {"@ + (kind + "}"@));
                } else {
                    assert(out == ":::: {.callout-"@ + (kind + "}\n## "@ + title));
                }
            }
        }
        let rest = out.subrange(3, out.len() as int);
        assert(rest[0] == ':');
        assert(!is_word(':'));
        assert(lead_len(rest, word()) == 0);
        assert(out != ":::"@);
    }
}

} // verus!

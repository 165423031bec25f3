use vstd::prelude::*;

use crate::admonition::{admonition_text, convert_admonitions};
use crate::frontmatter::{convert_frontmatter, frontmatter_text, line_views};
use crate::text::{lines_of, same_text, split_lines};

verus! {

/// Where the line scan of a document stands after some of its lines.
pub struct Scan {
    /// Whether the scan is inside a frontmatter block.
    pub in_frontmatter: bool,
    /// The frontmatter lines read since the block was opened.
    pub pending: Seq<Seq<char>>,
    /// The text emitted so far.
    pub out: Seq<char>,
}

/// The frontmatter delimiter line.
pub open spec fn is_delimiter(line: Seq<char>) -> bool {
    line == "---"@
}

/// The scan of a document before any line was read: in the body, with
/// nothing pending and nothing emitted.
pub open spec fn scan_start() -> Scan {
    Scan { in_frontmatter: false, pending: seq![], out: seq![] }
}

/// One step of the line scan.
///
/// In the body a delimiter opens a frontmatter block (and is not emitted);
/// inside a block it closes the block, emitting `---` and the converted
/// block. Inside a block any other line is kept pending; in the body it is
/// emitted as its admonition conversion with a line feed.
pub open spec fn scan_step(st: Scan, line: Seq<char>) -> Scan {
    if is_delimiter(line) {
        if st.in_frontmatter {
            Scan {
                in_frontmatter: false,
                pending: seq![],
                out: st.out + "---\n"@ + frontmatter_text(st.pending),
            }
        } else {
            Scan { in_frontmatter: true, pending: seq![], out: st.out }
        }
    } else if st.in_frontmatter {
        Scan { pending: st.pending.push(line), ..st }
    } else {
        Scan { out: st.out + admonition_text(line) + "\n"@, ..st }
    }
}

/// The scan after all of `lines`, from the start.
pub open spec fn scan(lines: Seq<Seq<char>>) -> Scan
    decreases lines.len(),
{
    if lines.len() == 0 {
        scan_start()
    } else {
        scan_step(scan(lines.drop_last()), lines.last())
    }
}

/// A converted document: what the scan of its lines emits. Lines still
/// pending in a frontmatter block that is never closed are not emitted.
pub open spec fn content_text(text: Seq<char>) -> Seq<char> {
    scan(lines_of(text)).out
}

/// Converts a Docusaurus markdown document to Quarto markdown.
///
/// The document is read line by line (see `scan_step`): frontmatter between
/// `---` lines goes through `convert_frontmatter`, and every other line
/// through `convert_admonitions`.
pub fn convert_content(content: &str) -> (r: String)
    ensures
        r@ == content_text(content@),
{
    let lines = split_lines(content);
    let ghost all = lines_of(content@);
    proof {
        assert(line_views(lines@) =~= all);
    }
    let mut result = String::new();
    let mut in_frontmatter = false;
    let mut pending: Vec<&str> = Vec::new();
    let mut i: usize = 0;
    assert(line_views(pending@) =~= seq![]);
    assert(all.take(0).len() == 0);
    while i < lines.len()
        invariant
            lines@.len() == all.len(),
            forall|k: int| 0 <= k < all.len() ==> #[trigger] lines@[k]@ == all[k],
            i <= all.len(),
            scan(all.take(i as int)) == (Scan {
                in_frontmatter,
                pending: line_views(pending@),
                out: result@,
            }),
        decreases all.len() - i,
    {
        let line = lines[i];
        proof {
            assert(all.take(i + 1).drop_last() =~= all.take(i as int));
            reveal_strlit("---");
        }
        if same_text(line, "---") {
            if in_frontmatter {
                result.append("---\n");
                let block = convert_frontmatter(pending.as_slice());
                result.append(block.as_str());
                in_frontmatter = false;
            } else {
                in_frontmatter = true;
            }
            pending.clear();
        } else if in_frontmatter {
            pending.push(line);
        } else {
            let converted = convert_admonitions(line);
            result.append(converted.as_str());
            result.append("\n");
        }
        proof {
            assert(line_views(pending@) =~= scan(all.take(i + 1)).pending);
        }
        i = i + 1;
    }
    assert(all.take(all.len() as int) =~= all);
    result
}

/// What the scan emits only grows: the output after `j` lines begins the
/// output after `k >= j` lines.
proof fn lemma_output_grows(lines: Seq<Seq<char>>, j: int, k: int)
    requires
        0 <= j <= k <= lines.len(),
    ensures
        scan(lines.take(j)).out.len() <= scan(lines.take(k)).out.len(),
        scan(lines.take(k)).out.subrange(0, scan(lines.take(j)).out.len() as int) == scan(
            lines.take(j),
        ).out,
    decreases k - j,
{
    let a = scan(lines.take(j)).out;
    if k == j {
        assert(a.subrange(0, a.len() as int) =~= a);
    } else {
        lemma_output_grows(lines, j, k - 1);
        assert(lines.take(k).drop_last() =~= lines.take(k - 1));
        let b = scan(lines.take(k - 1)).out;
        let c = scan(lines.take(k)).out;
        assert(c.subrange(0, b.len() as int) =~= b);
        assert(c.subrange(0, a.len() as int) =~= b.subrange(0, a.len() as int));
    }
}

/// In the body, a line other than `---` is emitted as its admonition
/// conversion followed by a line feed, right after what the lines before it
/// emitted, and it stays in that place in the converted document.
pub proof fn lemma_body_line(text: Seq<char>, i: int)
    requires
        0 <= i < lines_of(text).len(),
        !is_delimiter(lines_of(text)[i]),
        !scan(lines_of(text).take(i)).in_frontmatter,
    ensures
        ({
            let lines = lines_of(text);
            let before = scan(lines.take(i)).out;
            let piece = admonition_text(lines[i]) + "\n"@;
            &&& scan(lines.take(i + 1)).out == before + piece
            &&& content_text(text).subrange(
                before.len() as int,
                before.len() + piece.len() as int,
            ) == piece
        }),
{
    let lines = lines_of(text);
    let before = scan(lines.take(i)).out;
    let piece = admonition_text(lines[i]) + "\n"@;
    assert(lines.take(i + 1).drop_last() =~= lines.take(i));
    lemma_output_grows(lines, i + 1, lines.len() as int);
    assert(lines.take(lines.len() as int) =~= lines);
    let full = content_text(text);
    let b = before.len() as int;
    let e = b + piece.len();
    assert(full.subrange(0, e) == before + piece);
    assert(full.subrange(b, e) =~= (before + piece).subrange(b, e));
    assert((before + piece).subrange(b, e) =~= piece);
}

/// Once a frontmatter block is opened and no `---` follows up to line `k`,
/// the scan is still in the block and has emitted nothing more.
proof fn lemma_block_stays_open(lines: Seq<Seq<char>>, i: int, k: int)
    requires
        0 <= i < k <= lines.len(),
        is_delimiter(lines[i]),
        !scan(lines.take(i)).in_frontmatter,
        forall|j: int| i < j < lines.len() ==> !is_delimiter(#[trigger] lines[j]),
    ensures
        scan(lines.take(k)).in_frontmatter,
        scan(lines.take(k)).out == scan(lines.take(i)).out,
    decreases k - i,
{
    assert(lines.take(k).drop_last() =~= lines.take(k - 1));
    if k > i + 1 {
        lemma_block_stays_open(lines, i, k - 1);
    }
}

/// A frontmatter block that is opened and never closed emits nothing: the
/// converted document is what the lines before its `---` emitted.
pub proof fn lemma_unclosed_frontmatter(text: Seq<char>, i: int)
    requires
        0 <= i < lines_of(text).len(),
        is_delimiter(lines_of(text)[i]),
        !scan(lines_of(text).take(i)).in_frontmatter,
        forall|j: int|
            i < j < lines_of(text).len() ==> !is_delimiter(#[trigger] lines_of(text)[j]),
    ensures
        content_text(text) == scan(lines_of(text).take(i)).out,
{
    let lines = lines_of(text);
    lemma_block_stays_open(lines, i, lines.len() as int);
    assert(lines.take(lines.len() as int) =~= lines);
}

} // verus!

//! PDF parser: a plain fallback that reads the text shown between `BT` and
//! `ET` operators.

use crate::error::AppError;
use crate::parse::{chunk_text, chunk_texts, chunks_are, tagged, FileType, MemoryChunk};
use crate::text::{
    chars_of, from_utf8_lossy, is_blank, lossy_text, push_char, starts_with, str_starts_with,
    string_from_chars, trim, trim_seq,
};
use vstd::prelude::*;

verus! {

/// PDF document parser.
pub struct PdfParser;

/// The pieces of `s` between newlines, scanning from `start`, currently at
/// `i`. (An empty last piece after a final newline adds nothing to what is
/// read from the lines, so this reads as `str::lines` does.)
pub open spec fn line_pieces_from(s: Seq<char>, start: int, i: int) -> Seq<Seq<char>>
    decreases s.len() - i,
{
    if i < start || start < 0 || i > s.len() {
        Seq::empty()
    } else if i == s.len() {
        seq![s.subrange(start, i)]
    } else if s[i] == '\n' {
        seq![s.subrange(start, i)] + line_pieces_from(s, i + 1, i + 1)
    } else {
        line_pieces_from(s, start, i + 1)
    }
}

/// The index of the `)` that closes a string opened before `j`, at nesting
/// `depth`; the length of `l` when it is never closed.
pub open spec fn close_index(l: Seq<char>, j: int, depth: int) -> int
    decreases l.len() - j,
{
    if j < 0 || j >= l.len() {
        l.len() as int
    } else if l[j] == '(' {
        close_index(l, j + 1, depth + 1)
    } else if l[j] == ')' {
        if depth <= 1 {
            j
        } else {
            close_index(l, j + 1, depth - 1)
        }
    } else {
        close_index(l, j + 1, depth)
    }
}

/// The parenthesised strings of a line from position `i` on, each followed
/// by a space; empty strings are skipped.
pub open spec fn paren_texts(l: Seq<char>, i: int) -> Seq<char>
    decreases l.len() - i,
{
    if i < 0 || i >= l.len() {
        Seq::empty()
    } else if l[i] == '(' {
        let c = close_index(l, i + 1, 1);
        let txt = l.subrange(i + 1, c);
        let part = if txt.len() > 0 {
            txt.push(' ')
        } else {
            Seq::empty()
        };
        if i < c < l.len() {
            part + paren_texts(l, c + 1)
        } else {
            part
        }
    } else {
        paren_texts(l, i + 1)
    }
}

/// The text read from a list of lines: `BT` starts a text object, `ET`
/// ends it with a newline, and inside one every line gives its
/// parenthesised strings.
pub open spec fn pdf_lines(lines: Seq<Seq<char>>, in_text: bool) -> Seq<char>
    decreases lines.len(),
{
    if lines.len() == 0 {
        Seq::empty()
    } else {
        let t = trim_seq(lines[0]);
        if starts_with(t, "BT"@) {
            pdf_lines(lines.drop_first(), true)
        } else if starts_with(t, "ET"@) {
            seq!['\n'] + pdf_lines(lines.drop_first(), false)
        } else if in_text {
            paren_texts(t, 0) + pdf_lines(lines.drop_first(), true)
        } else {
            pdf_lines(lines.drop_first(), false)
        }
    }
}

/// The text read from a whole document.
pub open spec fn pdf_text(s: Seq<char>) -> Seq<char> {
    pdf_lines(line_pieces_from(s, 0, 0), false)
}

/// `close_index` lies after `j - 1` and within the line.
proof fn lemma_close_index_bounds(l: Seq<char>, j: int, depth: int)
    requires
        0 <= j <= l.len(),
    ensures
        j <= close_index(l, j, depth) <= l.len(),
        close_index(l, j, depth) < l.len() ==> l[close_index(l, j, depth)] == ')',
    decreases l.len() - j,
{
    if j < l.len() {
        if l[j] == '(' {
            lemma_close_index_bounds(l, j + 1, depth + 1);
        } else if l[j] == ')' {
            if depth > 1 {
                lemma_close_index_bounds(l, j + 1, depth - 1);
            }
        } else {
            lemma_close_index_bounds(l, j + 1, depth);
        }
    }
}

/// Append the parenthesised strings of one (trimmed) line.
fn push_paren_texts(res: &mut String, line: &str)
    ensures
        final(res)@ == old(res)@ + paren_texts(line@, 0),
{
    let cs = chars_of(line);
    let n = cs.len();
    let mut i: usize = 0;
    let ghost start = res@;
    while i < n
        invariant
            cs@ == line@,
            n == cs@.len(),
            i <= n,
            start + paren_texts(cs@, 0) == res@ + paren_texts(cs@, i as int),
        decreases n - i,
    {
        if cs[i] == '(' {
            let mut j: usize = i + 1;
            let mut depth: usize = 1;
            while j < n
                invariant_except_break
                    i < n == cs@.len(),
                    i + 1 <= j <= n,
                    1 <= depth <= j - i,
                    close_index(cs@, i + 1, 1) == close_index(cs@, j as int, depth as int),
                ensures
                    i + 1 <= j <= n,
                    j == close_index(cs@, i + 1, 1),
                decreases n - j,
            {
                if cs[j] == '(' {
                    depth = depth + 1;
                } else if cs[j] == ')' {
                    if depth == 1 {
                        break;
                    }
                    depth = depth - 1;
                }
                j = j + 1;
            }
            proof {
                lemma_close_index_bounds(cs@, i + 1, 1);
            }
            let txt = string_from_chars(&cs, i + 1, j);
            let ghost before = res@;
            if !txt.as_str().is_empty() {
                res.append(txt.as_str());
                push_char(res, ' ');
            }
            proof {
                let part = if txt@.len() > 0 {
                    txt@.push(' ')
                } else {
                    Seq::<char>::empty()
                };
                assert(res@ == before + part);
                if j < n {
                    assert(paren_texts(cs@, i as int) == part + paren_texts(cs@, j + 1));
                } else {
                    assert(paren_texts(cs@, i as int) == part);
                    assert(paren_texts(cs@, n as int) =~= Seq::<char>::empty());
                }
            }
            if j < n {
                i = j + 1;
            } else {
                i = n;
            }
        } else {
            i = i + 1;
        }
    }
    proof {
        assert(paren_texts(cs@, n as int) =~= Seq::<char>::empty());
    }
}

impl PdfParser {
    /// Read the text of a PDF's `BT`/`ET` text objects: every parenthesised
    /// string on a line inside one, followed by a space, and a newline at
    /// each `ET`. Bytes that are not UTF-8 are read with replacement
    /// characters.
    pub fn extract_ascii_text(content: &[u8]) -> (res: String)
        ensures
            res@ == pdf_text(lossy_text(content@)),
    {
        let text = from_utf8_lossy(content);
        let cs = chars_of(text.as_str());
        let n = cs.len();
        let mut res = String::new();
        let mut in_text = false;
        let mut start: usize = 0;
        let mut i: usize = 0;
        let ghost s = cs@;
        let ghost mut rest: Seq<Seq<char>> = line_pieces_from(s, 0, 0);
        proof {
            reveal_strlit("BT");
            reveal_strlit("ET");
        }
        while i <= n
            invariant_except_break
                cs@ == s,
                s == text@,
                n == s.len(),
                start <= i <= n,
                pdf_lines(line_pieces_from(s, 0, 0), false) == res@ + pdf_lines(rest, in_text),
                rest == line_pieces_from(s, start as int, i as int),
            ensures
                res@ == pdf_lines(line_pieces_from(s, 0, 0), false),
            decreases n + 1 - i,
        {
            if i == n || cs[i] == '\n' {
                let line = string_from_chars(&cs, start, i);
                let t = trim(line.as_str());
                let ghost before = res@;
                let ghost was_in = in_text;
                if str_starts_with(t.as_str(), "BT") {
                    in_text = true;
                } else if str_starts_with(t.as_str(), "ET") {
                    in_text = false;
                    push_char(&mut res, '\n');
                } else if in_text {
                    push_paren_texts(&mut res, t.as_str());
                }
                proof {
                    let tail = if i == n {
                        Seq::<Seq<char>>::empty()
                    } else {
                        line_pieces_from(s, i + 1, i + 1)
                    };
                    assert(rest == seq![line@] + tail);
                    assert((seq![line@] + tail)[0] == line@);
                    assert((seq![line@] + tail).drop_first() =~= tail);
                    assert(pdf_lines(rest, was_in) == (res@.subrange(before.len() as int, res@.len() as int)) + pdf_lines(tail, in_text)) by {
                        assert(res@.subrange(before.len() as int, res@.len() as int) =~= if starts_with(t@, "BT"@) {
                            Seq::<char>::empty()
                        } else if starts_with(t@, "ET"@) {
                            seq!['\n']
                        } else if was_in {
                            paren_texts(t@, 0)
                        } else {
                            Seq::<char>::empty()
                        });
                    }
                    assert(before + res@.subrange(before.len() as int, res@.len() as int) =~= res@);
                    rest = tail;
                    if i == n {
                        assert(pdf_lines(tail, in_text) =~= Seq::<char>::empty());
                    }
                }
                if i == n {
                    break;
                }
                start = i + 1;
            }
            i = i + 1;
        }
        res
    }

    /// Parse a PDF into chunks of paragraphs of its text; a document with no
    /// readable text gives no chunks.
    pub fn parse_with_chunk_size(&self, content: &[u8], chunk_size: usize, chunk_overlap: usize) -> (res: Result<Vec<MemoryChunk>, AppError>)
        ensures
            res matches Ok(chunks) && (if trim_seq(pdf_text(lossy_text(content@))).len() == 0 {
                chunks@.len() == 0
            } else {
                chunks_are(
                    chunks@,
                    tagged(
                        chunk_texts(pdf_text(lossy_text(content@)), chunk_size as int, chunk_overlap as int),
                        FileType::Pdf,
                    ),
                )
            }),
    {
        let text = Self::extract_ascii_text(content);
        if is_blank(text.as_str()) {
            return Ok(Vec::new());
        }
        Ok(chunk_text(text.as_str(), chunk_size, chunk_overlap, FileType::Pdf))
    }

    /// The file types this parser reads.
    pub fn supported_types(&self) -> (res: Vec<FileType>)
        ensures
            res@ == seq![FileType::Pdf],
    {
        let mut v = Vec::new();
        v.push(FileType::Pdf);
        v
    }
}

} // verus!

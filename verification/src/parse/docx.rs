//! DOCX parser: a plain fallback that keeps the text between XML tags.

use crate::error::AppError;
use crate::parse::{chunk_text, chunk_texts, chunks_are, tagged, FileType, MemoryChunk};
use crate::text::{
    chars_of, from_utf8_lossy, is_blank, lossy_text, push_char, split_whitespace, trim, trim_seq,
    views, words,
};
use vstd::prelude::*;

verus! {

/// DOCX document parser.
pub struct DocxParser;

/// The text outside tags from position `i` on, with the run of text `cur`
/// gathered so far: each run before a `<` is trimmed and followed by a
/// space, blank runs are skipped, and the last run is trimmed.
pub open spec fn xml_runs(s: Seq<char>, i: int, in_tag: bool, cur: Seq<char>) -> Seq<char>
    decreases s.len() - i,
{
    if i < 0 || i >= s.len() {
        if trim_seq(cur).len() > 0 {
            trim_seq(cur)
        } else {
            Seq::empty()
        }
    } else if s[i] == '<' {
        (if trim_seq(cur).len() > 0 {
            trim_seq(cur).push(' ')
        } else {
            Seq::empty()
        }) + xml_runs(s, i + 1, true, Seq::empty())
    } else if s[i] == '>' {
        xml_runs(s, i + 1, false, cur)
    } else if !in_tag {
        xml_runs(s, i + 1, false, cur.push(s[i]))
    } else {
        xml_runs(s, i + 1, true, cur)
    }
}

/// Words joined by single spaces.
pub open spec fn join_words(ws: Seq<Seq<char>>) -> Seq<char>
    decreases ws.len(),
{
    if ws.len() == 0 {
        Seq::empty()
    } else if ws.len() == 1 {
        ws[0]
    } else {
        join_words(ws.drop_last()) + seq![' '] + ws.last()
    }
}

/// The text of a DOCX document's XML: its text runs, with all whitespace
/// collapsed to single spaces.
pub open spec fn xml_text(s: Seq<char>) -> Seq<char> {
    join_words(words(xml_runs(s, 0, false, Seq::empty())))
}

/// The message for a DOCX document with no text outside its tags.
pub open spec fn docx_unavailable_message() -> Seq<char> {
    "DOCX parsing requires the `docx` feature. Enable it or add `docx-rs`."@
}

/// Join words with single spaces.
pub fn join_with_spaces(ws: &Vec<String>) -> (res: String)
    ensures
        res@ == join_words(views(ws@)),
{
    let mut res = String::new();
    let mut k: usize = 0;
    while k < ws.len()
        invariant
            k <= ws@.len(),
            res@ == join_words(views(ws@).take(k as int)),
        decreases ws@.len() - k,
    {
        proof {
            let t = views(ws@).take(k + 1);
            assert(t.drop_last() =~= views(ws@).take(k as int));
            assert(t.last() == ws@[k as int]@);
        }
        if k > 0 {
            push_char(&mut res, ' ');
        }
        res.append(ws[k].as_str());
        proof {
            if k == 0 {
                assert(views(ws@).take(1)[0] == ws@[0]@);
                assert(res@ =~= ws@[0]@);
            }
        }
        k = k + 1;
    }
    proof {
        assert(views(ws@).take(ws@.len() as int) =~= views(ws@));
    }
    res
}

impl DocxParser {
    /// Keep the text between the tags of a DOCX document's XML, with
    /// whitespace collapsed; bytes that are not UTF-8 are read with
    /// replacement characters.
    pub fn extract_xml_text(content: &[u8]) -> (res: String)
        ensures
            res@ == xml_text(lossy_text(content@)),
    {
        let text = from_utf8_lossy(content);
        let cs = chars_of(text.as_str());
        let n = cs.len();
        let mut result = String::new();
        let mut in_tag = false;
        let mut current = String::new();
        let mut i: usize = 0;
        let ghost s = cs@;
        while i < n
            invariant
                cs@ == s,
                n == s.len(),
                i <= n,
                xml_runs(s, 0, false, Seq::empty()) == result@ + xml_runs(s, i as int, in_tag, current@),
            decreases n - i,
        {
            let c = cs[i];
            if c == '<' {
                let t = trim(current.as_str());
                if !t.as_str().is_empty() {
                    result.append(t.as_str());
                    push_char(&mut result, ' ');
                }
                current = String::new();
                in_tag = true;
            } else if c == '>' {
                in_tag = false;
            } else if !in_tag {
                push_char(&mut current, c);
            }
            i = i + 1;
        }
        let t = trim(current.as_str());
        if !t.as_str().is_empty() {
            result.append(t.as_str());
        }
        proof {
            assert(result@ == xml_runs(s, 0, false, Seq::empty()));
        }
        let ws = split_whitespace(result.as_str());
        join_with_spaces(&ws)
    }

    /// Parse a DOCX document into chunks of its text; a document with no
    /// text outside its tags is refused as not implemented.
    pub fn parse_with_chunk_size(&self, content: &[u8], chunk_size: usize, chunk_overlap: usize) -> (res: Result<Vec<MemoryChunk>, AppError>)
        ensures
            trim_seq(xml_text(lossy_text(content@))).len() == 0 <==> res is Err,
            res matches Err(e) ==> e matches AppError::NotImplemented(m) && m@
                == docx_unavailable_message(),
            res matches Ok(chunks) ==> chunks_are(
                chunks@,
                tagged(
                    chunk_texts(xml_text(lossy_text(content@)), chunk_size as int, chunk_overlap as int),
                    FileType::Docx,
                ),
            ),
    {
        let text = Self::extract_xml_text(content);
        if is_blank(text.as_str()) {
            proof {
                reveal_strlit("DOCX parsing requires the `docx` feature. Enable it or add `docx-rs`.");
            }
            return Err(
                AppError::NotImplemented(
                    String::from_str(
                        "DOCX parsing requires the `docx` feature. Enable it or add `docx-rs`.",
                    ),
                ),
            );
        }
        Ok(chunk_text(text.as_str(), chunk_size, chunk_overlap, FileType::Docx))
    }

    /// The file types this parser reads.
    pub fn supported_types(&self) -> (res: Vec<FileType>)
        ensures
            res@ == seq![FileType::Docx],
    {
        let mut v = Vec::new();
        v.push(FileType::Docx);
        v
    }
}

} // verus!

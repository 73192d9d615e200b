//! Document parsing: file types, chunks, and the chunking shared by the
//! plain-text, PDF and DOCX parsers.

pub mod docx;
pub mod markdown;
pub mod pdf;
pub mod text;

use crate::error::AppError;
use crate::text::{byte_len, chars_of, lowercase_of, string_from_chars, to_lowercase, trim, trim_seq, utf8_bytes, views};
use vstd::prelude::*;

verus! {

/// Supported file types.
#[derive(Debug, Clone, Copy, PartialEq, Eq, Structural)]
pub enum FileType {
    Markdown,
    Text,
    Pdf,
    Docx,
}

/// Where a chunk came from.
#[derive(Debug, Clone)]
pub enum ChunkMeta {
    /// The parser that produced the chunk (`{"source": ...}`).
    Source(FileType),
    /// The Markdown heading the chunk stands under (`{"heading": ...}`).
    Heading(String),
}

/// The model of a chunk's metadata.
pub enum MetaView {
    Source(FileType),
    Heading(Seq<char>),
}

impl View for ChunkMeta {
    type V = MetaView;

    open spec fn view(&self) -> MetaView {
        match self {
            ChunkMeta::Source(t) => MetaView::Source(*t),
            ChunkMeta::Heading(h) => MetaView::Heading(h@),
        }
    }
}

/// A parsed chunk of content, ready to be turned into a memory.
#[derive(Debug, Clone)]
pub struct MemoryChunk {
    /// Chunk text content.
    pub content: String,
    /// Chunk index (0-based).
    pub chunk_index: usize,
    /// Optional metadata (source parser or heading).
    pub metadata: Option<ChunkMeta>,
}

/// The model of optional metadata.
pub open spec fn meta_view(m: Option<ChunkMeta>) -> Option<MetaView> {
    match m {
        Some(c) => Some(c@),
        None => None,
    }
}

/// `chunks` are the expected contents and metadata, numbered from 0 in order.
pub open spec fn chunks_are(chunks: Seq<MemoryChunk>, expected: Seq<(Seq<char>, Option<MetaView>)>) -> bool {
    &&& chunks.len() == expected.len()
    &&& forall|i: int|
        0 <= i < chunks.len() ==> {
            &&& (#[trigger] chunks[i]).content@ == expected[i].0
            &&& chunks[i].chunk_index == i
            &&& meta_view(chunks[i].metadata) == expected[i].1
        }
}

/// The file type an extension names, after lowercasing and dropping
/// leading dots.
pub open spec fn extension_type(ext: Seq<char>) -> Option<FileType> {
    if ext == "md"@ || ext == "markdown"@ {
        Some(FileType::Markdown)
    } else if ext == "txt"@ || ext == "text"@ {
        Some(FileType::Text)
    } else if ext == "pdf"@ {
        Some(FileType::Pdf)
    } else {
        None
    }
}

/// `s` without its leading dots.
pub open spec fn trim_leading_dots(s: Seq<char>) -> Seq<char>
    decreases s.len(),
{
    if s.len() > 0 && s[0] == '.' {
        trim_leading_dots(s.drop_first())
    } else {
        s
    }
}

/// What follows the last dot of `s` (all of `s` when it has none).
pub open spec fn after_last_dot(s: Seq<char>) -> Seq<char>
    decreases s.len(),
{
    if s.len() == 0 {
        s
    } else if s.last() == '.' {
        Seq::empty()
    } else {
        after_last_dot(s.drop_last()).push(s.last())
    }
}

/// Moving the cut of `after_last_dot` one non-dot character to the left.
proof fn lemma_after_last_dot_step(s: Seq<char>, j: int)
    requires
        0 < j <= s.len(),
        s[j - 1] != '.',
    ensures
        after_last_dot(s.subrange(0, j)) + s.subrange(j, s.len() as int) == after_last_dot(
            s.subrange(0, j - 1),
        ) + s.subrange(j - 1, s.len() as int),
{
    let p = s.subrange(0, j);
    assert(p.drop_last() =~= s.subrange(0, j - 1));
    assert(s.subrange(j - 1, s.len() as int) =~= seq![p.last()] + s.subrange(j, s.len() as int));
    assert(after_last_dot(p.drop_last()).push(p.last()) + s.subrange(j, s.len() as int)
        =~= after_last_dot(p.drop_last()) + s.subrange(j - 1, s.len() as int));
}

/// The name of each file type.
pub open spec fn file_type_name(t: FileType) -> Seq<char> {
    match t {
        FileType::Markdown => "markdown"@,
        FileType::Text => "text"@,
        FileType::Pdf => "pdf"@,
        FileType::Docx => "docx"@,
    }
}

impl FileType {
    /// Detect the file type from a file extension, case-insensitively and
    /// with or without leading dots.
    pub fn from_extension(ext: &str) -> (res: Option<Self>)
        ensures
            res == extension_type(trim_leading_dots(lowercase_of(ext@))),
    {
        let lower = to_lowercase(ext);
        let cs = chars_of(lower.as_str());
        let mut i: usize = 0;
        assert(cs@.subrange(0, cs@.len() as int) =~= cs@);
        while i < cs.len() && cs[i] == '.'
            invariant
                i <= cs@.len(),
                cs@ == lower@,
                trim_leading_dots(cs@) == trim_leading_dots(cs@.subrange(i as int, cs@.len() as int)),
            decreases cs@.len() - i,
        {
            proof {
                let r = cs@.subrange(i as int, cs@.len() as int);
                assert(r.drop_first() =~= cs@.subrange(i + 1, cs@.len() as int));
            }
            i = i + 1;
        }
        let rest = string_from_chars(&cs, i, cs.len());
        let r = rest.as_str();
        proof {
            reveal_strlit("md");
            reveal_strlit("markdown");
            reveal_strlit("txt");
            reveal_strlit("text");
            reveal_strlit("pdf");
        }
        if crate::text::str_eq(r, "md") || crate::text::str_eq(r, "markdown") {
            Some(FileType::Markdown)
        } else if crate::text::str_eq(r, "txt") || crate::text::str_eq(r, "text") {
            Some(FileType::Text)
        } else if crate::text::str_eq(r, "pdf") {
            Some(FileType::Pdf)
        } else {
            None
        }
    }

    /// Detect the file type from a file name, by what follows its last dot.
    pub fn from_filename(filename: &str) -> (res: Option<Self>)
        ensures
            res == extension_type(trim_leading_dots(lowercase_of(after_last_dot(filename@)))),
    {
        let cs = chars_of(filename);
        let n = cs.len();
        let mut j: usize = n;
        proof {
            assert(cs@.subrange(0, n as int) =~= cs@);
            assert(cs@.subrange(n as int, n as int) =~= Seq::<char>::empty());
            assert(after_last_dot(cs@) =~= after_last_dot(cs@.subrange(0, n as int)) + cs@.subrange(
                n as int,
                n as int,
            ));
        }
        while j > 0 && cs[j - 1] != '.'
            invariant
                j <= n == cs@.len(),
                after_last_dot(cs@) == after_last_dot(cs@.subrange(0, j as int)) + cs@.subrange(
                    j as int,
                    n as int,
                ),
            decreases j,
        {
            proof {
                lemma_after_last_dot_step(cs@, j as int);
            }
            j = j - 1;
        }
        proof {
            assert(after_last_dot(cs@.subrange(0, j as int)) =~= Seq::<char>::empty());
            assert(after_last_dot(cs@) =~= cs@.subrange(j as int, n as int));
        }
        let ext = string_from_chars(&cs, j, n);
        Self::from_extension(ext.as_str())
    }

    /// The name of the file type.
    pub fn as_str(&self) -> (res: &'static str)
        ensures
            res@ == file_type_name(*self),
    {
        proof {
            reveal_strlit("markdown");
            reveal_strlit("text");
            reveal_strlit("pdf");
            reveal_strlit("docx");
        }
        match self {
            FileType::Markdown => "markdown",
            FileType::Text => "text",
            FileType::Pdf => "pdf",
            FileType::Docx => "docx",
        }
    }
}

/// The name of each file type but DOCX is an extension that selects it.
pub proof fn lemma_file_type_name_selects(t: FileType)
    requires
        t != FileType::Docx,
    ensures
        extension_type(trim_leading_dots(file_type_name(t))) == Some(t),
{
    reveal_strlit("markdown");
    reveal_strlit("text");
    reveal_strlit("pdf");
    reveal_strlit("md");
    reveal_strlit("txt");
    assert(trim_leading_dots(file_type_name(t)) == file_type_name(t));
}

/// The error for a file name of no supported type.
pub open spec fn unsupported_file_message(filename: Seq<char>) -> Seq<char> {
    "unsupported file type: "@ + filename
}

/// The parser that a file name selects: the file type after its last dot,
/// or a bad-request error for an unsupported type.
pub fn parser_for_file(filename: &str) -> (res: Result<FileType, AppError>)
    ensures
        match extension_type(trim_leading_dots(lowercase_of(after_last_dot(filename@)))) {
            Some(t) => res == Ok::<FileType, AppError>(t),
            None => res matches Err(AppError::BadRequest(m)) && m@ == unsupported_file_message(
                filename@,
            ),
        },
{
    match FileType::from_filename(filename) {
        Some(t) => Ok(t),
        None => {
            let mut m = String::from_str("unsupported file type: ");
            m.append(filename);
            proof {
                reveal_strlit("unsupported file type: ");
            }
            Err(AppError::BadRequest(m))
        },
    }
}

// ============================================================
// Paragraphs
// ============================================================

/// The pieces of `s` between occurrences of `"\n\n"`, scanning left to
/// right from `start`, currently at `i` (`str::split("\n\n")`).
pub open spec fn para_pieces_from(s: Seq<char>, start: int, i: int) -> Seq<Seq<char>>
    decreases s.len() - i,
{
    if i < start || start < 0 || i > s.len() {
        Seq::empty()
    } else if i + 1 >= s.len() {
        seq![s.subrange(start, s.len() as int)]
    } else if s[i] == '\n' && s[i + 1] == '\n' {
        seq![s.subrange(start, i)] + para_pieces_from(s, i + 2, i + 2)
    } else {
        para_pieces_from(s, start, i + 1)
    }
}

/// The paragraphs of `s`: its pieces between blank-line separators.
pub open spec fn paragraphs(s: Seq<char>) -> Seq<Seq<char>> {
    para_pieces_from(s, 0, 0)
}

/// Split a text at every `"\n\n"`.
pub fn split_paragraphs(text: &str) -> (res: Vec<String>)
    ensures
        views(res@) == paragraphs(text@),
{
    let cs = chars_of(text);
    let n = cs.len();
    let mut res: Vec<String> = Vec::new();
    let mut start: usize = 0;
    let mut i: usize = 0;
    while n > 0 && i < n - 1
        invariant
            cs@ == text@,
            n == cs@.len(),
            start <= i <= n,
            paragraphs(cs@) == views(res@) + para_pieces_from(cs@, start as int, i as int),
        decreases n - i,
    {
        if cs[i] == '\n' && cs[i + 1] == '\n' {
            let piece = string_from_chars(&cs, start, i);
            proof {
                assert(views(res@.push(piece)) =~= views(res@).push(piece@));
                assert(views(res@) + para_pieces_from(cs@, start as int, i as int) =~= views(
                    res@.push(piece),
                ) + para_pieces_from(cs@, i + 2, i + 2));
            }
            res.push(piece);
            i = i + 2;
            start = i;
        } else {
            i = i + 1;
        }
    }
    let piece = string_from_chars(&cs, start, n);
    proof {
        assert(para_pieces_from(cs@, start as int, i as int) == seq![piece@]);
        assert(views(res@.push(piece)) =~= views(res@).push(piece@));
        assert(views(res@) + seq![piece@] =~= views(res@.push(piece)));
    }
    res.push(piece);
    res
}

// ============================================================
// Fixed-size windows
// ============================================================

/// How far each window starts after the previous one: the size less the
/// overlap, or the whole size when the overlap is not below it.
pub open spec fn window_step(size: int, overlap: int) -> int {
    if overlap < size {
        size - overlap
    } else {
        size
    }
}

/// Windows of at most `size` characters of `s`, the first starting at
/// `start` and each next one `step` characters later; the last one reaches
/// the end of `s`.
pub open spec fn windows_from(s: Seq<char>, size: int, step: int, start: int) -> Seq<Seq<char>>
    decreases s.len() - start,
{
    if start < 0 || step <= 0 || size <= 0 || step > size || start >= s.len() {
        Seq::empty()
    } else if start + size >= s.len() {
        seq![s.subrange(start, s.len() as int)]
    } else {
        seq![s.subrange(start, start + size)] + windows_from(s, size, step, start + step)
    }
}

/// A long text cut into windows of `size` characters that overlap by
/// `overlap` characters; a size of 0 leaves the text whole.
pub open spec fn split_windows(s: Seq<char>, size: int, overlap: int) -> Seq<Seq<char>> {
    if size <= 0 {
        seq![s]
    } else {
        windows_from(s, size, window_step(size, overlap), 0)
    }
}

/// Cut a long text into windows of `size` characters, consecutive windows
/// sharing `overlap` characters (none when the overlap is not below the
/// size); a size of 0 leaves the text whole.
pub fn split_long_text(text: &str, size: usize, overlap: usize) -> (res: Vec<String>)
    ensures
        views(res@) == split_windows(text@, size as int, overlap as int),
{
    if size == 0 {
        let mut res: Vec<String> = Vec::new();
        res.push(String::from_str(text));
        proof {
            assert(views(res@) =~= seq![text@]);
        }
        return res;
    }
    let step: usize = if overlap < size {
        size - overlap
    } else {
        size
    };
    let cs = chars_of(text);
    let n = cs.len();
    let mut res: Vec<String> = Vec::new();
    let mut start: usize = 0;
    while start < n
        invariant
            cs@ == text@,
            n == cs@.len(),
            size > 0,
            step == window_step(size as int, overlap as int),
            0 < step <= size,
            split_windows(cs@, size as int, overlap as int) == views(res@) + windows_from(
                cs@,
                size as int,
                step as int,
                start as int,
            ),
        decreases n - start,
    {
        if size >= n - start {
            let piece = string_from_chars(&cs, start, n);
            proof {
                assert(windows_from(cs@, size as int, step as int, start as int) == seq![piece@]);
                assert(views(res@.push(piece)) =~= views(res@).push(piece@));
                assert(views(res@) + seq![piece@] =~= views(res@.push(piece)));
                assert(windows_from(cs@, size as int, step as int, n as int) =~= Seq::<
                    Seq<char>,
                >::empty());
            }
            res.push(piece);
            start = n;
        } else {
            let piece = string_from_chars(&cs, start, start + size);
            proof {
                assert(views(res@.push(piece)) =~= views(res@).push(piece@));
                assert(views(res@) + windows_from(cs@, size as int, step as int, start as int)
                    =~= views(res@.push(piece)) + windows_from(
                    cs@,
                    size as int,
                    step as int,
                    start + step,
                ));
            }
            res.push(piece);
            start = start + step;
        }
    }
    proof {
        assert(windows_from(cs@, size as int, step as int, start as int) =~= Seq::<
            Seq<char>,
        >::empty());
    }
    res
}

// ============================================================
// Chunking by paragraphs
// ============================================================

/// The parts one paragraph contributes: nothing when blank, the trimmed
/// paragraph when it fits in `size` bytes, else its windows.
pub open spec fn paragraph_parts(p: Seq<char>, size: int, overlap: int) -> Seq<Seq<char>> {
    let t = trim_seq(p);
    if t.len() == 0 {
        Seq::empty()
    } else if utf8_bytes(t).len() > size {
        split_windows(t, size, overlap)
    } else {
        seq![t]
    }
}

/// The parts of a list of paragraphs, in order.
pub open spec fn parts_of(ps: Seq<Seq<char>>, size: int, overlap: int) -> Seq<Seq<char>>
    decreases ps.len(),
{
    if ps.len() == 0 {
        Seq::empty()
    } else {
        parts_of(ps.drop_last(), size, overlap) + paragraph_parts(ps.last(), size, overlap)
    }
}

/// The chunk texts of a document: the parts of its paragraphs, or the whole
/// trimmed text when they give none and it is not blank.
pub open spec fn chunk_texts(text: Seq<char>, size: int, overlap: int) -> Seq<Seq<char>> {
    let ps = parts_of(paragraphs(text), size, overlap);
    if ps.len() == 0 && trim_seq(text).len() > 0 {
        seq![trim_seq(text)]
    } else {
        ps
    }
}

/// Each text tagged with the same source.
pub open spec fn tagged(texts: Seq<Seq<char>>, source: FileType) -> Seq<(Seq<char>, Option<MetaView>)> {
    texts.map_values(|t: Seq<char>| (t, Some(MetaView::Source(source))))
}

/// Append one chunk per text, numbered on from the chunks already there.
fn push_tagged(chunks: &mut Vec<MemoryChunk>, parts: Vec<String>, source: FileType, Ghost(done): Ghost<Seq<Seq<char>>>)
    requires
        chunks_are(old(chunks)@, tagged(done, source)),
    ensures
        chunks_are(final(chunks)@, tagged(done + views(parts@), source)),
{
    let mut k: usize = 0;
    while k < parts.len()
        invariant
            k <= parts@.len(),
            chunks_are(chunks@, tagged(done + views(parts@).take(k as int), source)),
        decreases parts@.len() - k,
    {
        let idx = chunks.len();
        chunks.push(MemoryChunk { content: parts[k].clone(), chunk_index: idx, metadata: Some(ChunkMeta::Source(source)) });
        proof {
            assert(done + views(parts@).take(k + 1) =~= (done + views(parts@).take(k as int)).push(
                parts@[k as int]@,
            ));
        }
        k = k + 1;
    }
    proof {
        assert(views(parts@).take(parts@.len() as int) =~= views(parts@));
    }
}

/// Split a text into paragraph chunks that all carry the same source tag.
pub fn chunk_text(text: &str, size: usize, overlap: usize, source: FileType) -> (res: Vec<MemoryChunk>)
    ensures
        chunks_are(res@, tagged(chunk_texts(text@, size as int, overlap as int), source)),
{
    let paras = split_paragraphs(text);
    let mut chunks: Vec<MemoryChunk> = Vec::new();
    let mut i: usize = 0;
    while i < paras.len()
        invariant
            i <= paras@.len(),
            views(paras@) == paragraphs(text@),
            chunks_are(
                chunks@,
                tagged(parts_of(views(paras@).take(i as int), size as int, overlap as int), source),
            ),
        decreases paras@.len() - i,
    {
        let t = trim(paras[i].as_str());
        let mut parts: Vec<String> = Vec::new();
        if t.as_str().is_empty() {
        } else if byte_len(t.as_str()) > size {
            parts = split_long_text(t.as_str(), size, overlap);
        } else {
            let ghost tv = t@;
            parts.push(t);
            proof {
                assert(views(parts@) =~= seq![tv]);
            }
        }
        proof {
            let ps = views(paras@).take(i + 1);
            assert(ps.drop_last() =~= views(paras@).take(i as int));
            assert(ps.last() == paras@[i as int]@);
            assert(views(parts@) == paragraph_parts(paras@[i as int]@, size as int, overlap as int));
        }
        push_tagged(&mut chunks, parts, source, Ghost(parts_of(views(paras@).take(i as int), size as int, overlap as int)));
        i = i + 1;
    }
    proof {
        assert(views(paras@).take(paras@.len() as int) =~= views(paras@));
    }
    if chunks.len() == 0 {
        let t = trim(text);
        if !t.as_str().is_empty() {
            chunks.push(MemoryChunk { content: t, chunk_index: 0, metadata: Some(ChunkMeta::Source(source)) });
        }
    }
    chunks
}

// ============================================================
// Choosing a parser
// ============================================================

/// Parse a document with the parser of its file type. Markdown is chunked by
/// headings and paragraphs, whatever the chunk size; the other types by
/// paragraphs cut to `chunk_size`.
pub fn parse_document(file_type: FileType, content: &[u8], chunk_size: usize, chunk_overlap: usize) -> (res: Result<Vec<MemoryChunk>, AppError>)
    ensures
        file_type == FileType::Markdown ==> {
            &&& vstd::utf8::valid_utf8(content@) <==> res is Ok
            &&& res matches Ok(chunks) ==> chunks_are(
                chunks@,
                markdown::markdown_chunks(
                    vstd::utf8::decode_utf8(content@),
                    markdown::markdown_events(vstd::utf8::decode_utf8(content@)),
                ),
            )
            &&& res matches Err(e) ==> e matches AppError::BadRequest(m) && m@
                == text::invalid_utf8_message(content@)
        },
        file_type == FileType::Text ==> {
            &&& vstd::utf8::valid_utf8(content@) <==> res is Ok
            &&& res matches Ok(chunks) ==> chunks_are(
                chunks@,
                tagged(
                    chunk_texts(vstd::utf8::decode_utf8(content@), chunk_size as int, chunk_overlap as int),
                    FileType::Text,
                ),
            )
            &&& res matches Err(e) ==> e matches AppError::BadRequest(m) && m@
                == text::invalid_utf8_message(content@)
        },
        file_type == FileType::Pdf ==> (res matches Ok(chunks) && (if trim_seq(
            pdf::pdf_text(crate::text::lossy_text(content@)),
        ).len() == 0 {
            chunks@.len() == 0
        } else {
            chunks_are(
                chunks@,
                tagged(
                    chunk_texts(
                        pdf::pdf_text(crate::text::lossy_text(content@)),
                        chunk_size as int,
                        chunk_overlap as int,
                    ),
                    FileType::Pdf,
                ),
            )
        })),
        file_type == FileType::Docx ==> {
            &&& trim_seq(docx::xml_text(crate::text::lossy_text(content@))).len() == 0 <==> res is Err
            &&& res matches Err(e) ==> e matches AppError::NotImplemented(m) && m@
                == docx::docx_unavailable_message()
            &&& res matches Ok(chunks) ==> chunks_are(
                chunks@,
                tagged(
                    chunk_texts(
                        docx::xml_text(crate::text::lossy_text(content@)),
                        chunk_size as int,
                        chunk_overlap as int,
                    ),
                    FileType::Docx,
                ),
            )
        },
{
    match file_type {
        FileType::Markdown => markdown::MarkdownParser.parse(content),
        FileType::Text => text::TextParser.parse_with_chunk_size(content, chunk_size, chunk_overlap),
        FileType::Pdf => pdf::PdfParser.parse_with_chunk_size(content, chunk_size, chunk_overlap),
        FileType::Docx => docx::DocxParser.parse_with_chunk_size(content, chunk_size, chunk_overlap),
    }
}

} // verus!

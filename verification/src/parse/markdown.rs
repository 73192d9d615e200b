//! Markdown parser: chunks a document by headings and paragraphs, from the
//! events of a CommonMark parse.

use crate::error::AppError;
use crate::parse::text::{decode_document, invalid_utf8_message};
use crate::parse::{chunks_are, meta_view, ChunkMeta, MemoryChunk, MetaView};
use crate::text::{
    byte_len, chars_of, is_blank, lemma_trim_idempotent, push_char, starts_with, str_from_utf8,
    string_from_chars, trim, trim_seq, utf8_bytes, views,
};
use pulldown_cmark::Event::{End, Start};
use pulldown_cmark::{Event, Parser, Tag, TagEnd};
use vstd::prelude::*;

verus! {

/// Maximum chunk size in bytes.
pub const MAX_CHUNK_SIZE: usize = 512;

/// Markdown document parser.
pub struct MarkdownParser;

/// The events of a CommonMark parse that the chunking reads, one per
/// pulldown-cmark event it tells apart.
#[derive(Debug, Clone)]
pub enum MdEvent {
    /// Start of a heading of the given level (1 to 6).
    HeadingStart(u8),
    /// End of a heading.
    HeadingEnd,
    /// Start of a paragraph.
    ParagraphStart,
    /// Start of a list.
    ListStart,
    /// Start of a code block.
    CodeBlockStart,
    /// End of a paragraph.
    ParagraphEnd,
    /// End of a list.
    ListEnd,
    /// End of a code block.
    CodeBlockEnd,
    /// Text.
    Text(String),
    /// Inline code.
    Code(String),
    /// A soft line break.
    SoftBreak,
    /// A hard line break.
    HardBreak,
    /// Any other event.
    Other,
}

/// The model of a parse event.
pub enum MdEventView {
    HeadingStart(u8),
    HeadingEnd,
    ParagraphStart,
    ListStart,
    CodeBlockStart,
    ParagraphEnd,
    ListEnd,
    CodeBlockEnd,
    Text(Seq<char>),
    Code(Seq<char>),
    SoftBreak,
    HardBreak,
    Other,
}

impl View for MdEvent {
    type V = MdEventView;

    open spec fn view(&self) -> MdEventView {
        match self {
            MdEvent::HeadingStart(l) => MdEventView::HeadingStart(*l),
            MdEvent::HeadingEnd => MdEventView::HeadingEnd,
            MdEvent::ParagraphStart => MdEventView::ParagraphStart,
            MdEvent::ListStart => MdEventView::ListStart,
            MdEvent::CodeBlockStart => MdEventView::CodeBlockStart,
            MdEvent::ParagraphEnd => MdEventView::ParagraphEnd,
            MdEvent::ListEnd => MdEventView::ListEnd,
            MdEvent::CodeBlockEnd => MdEventView::CodeBlockEnd,
            MdEvent::Text(t) => MdEventView::Text(t@),
            MdEvent::Code(t) => MdEventView::Code(t@),
            MdEvent::SoftBreak => MdEventView::SoftBreak,
            MdEvent::HardBreak => MdEventView::HardBreak,
            MdEvent::Other => MdEventView::Other,
        }
    }
}

/// The models of a list of events.
pub open spec fn events_view(es: Seq<MdEvent>) -> Seq<MdEventView> {
    es.map_values(|e: MdEvent| e@)
}

/// The events pulldown-cmark yields for a text, without extensions.
pub uninterp spec fn markdown_events(text: Seq<char>) -> Seq<MdEventView>;

/// Parse a Markdown text into its events.
///
/// Wraps `pulldown_cmark::Parser::new` and gives each event the chunking
/// reads its own tag: heading, paragraph, list and code-block starts and
/// ends (a heading start with its level), text, inline code, soft and hard
/// breaks; every other event is `Other`. The sequence is named by
/// `markdown_events`; heading levels are `HeadingLevel`'s values 1 to 6.
#[verifier::external_body]
fn parse_events(text: &str) -> (res: Vec<MdEvent>)
    ensures
        events_view(res@) == markdown_events(text@),
        forall|i: int|
            0 <= i < res@.len() ==> ((#[trigger] res@[i]) matches MdEvent::HeadingStart(l) ==> 1 <= l
                <= 6),
{
    Parser::new(text).map(|e| match e {
        Start(Tag::Heading { level, .. }) => MdEvent::HeadingStart(level as u8),
        Start(Tag::Paragraph) => MdEvent::ParagraphStart,
        Start(Tag::List(_)) => MdEvent::ListStart,
        Start(Tag::CodeBlock(_)) => MdEvent::CodeBlockStart,
        End(TagEnd::Heading(_)) => MdEvent::HeadingEnd,
        End(TagEnd::Paragraph) => MdEvent::ParagraphEnd,
        End(TagEnd::List(_)) => MdEvent::ListEnd,
        End(TagEnd::CodeBlock) => MdEvent::CodeBlockEnd,
        Event::Text(t) => MdEvent::Text(t.to_string()),
        Event::Code(t) => MdEvent::Code(t.to_string()),
        Event::SoftBreak => MdEvent::SoftBreak,
        Event::HardBreak => MdEvent::HardBreak,
        _ => MdEvent::Other,
    }).collect()
}

// ============================================================
// Sentences
// ============================================================

/// Whether `c` ends a sentence.
pub open spec fn is_terminator(c: char) -> bool {
    c == '.' || c == '!' || c == '?'
}

/// The sentences of `s` from `start`, scanning at `i`: each ends with its
/// terminator, and a last piece without one follows if any text is left
/// (`str::split_inclusive(['.', '!', '?'])`).
pub open spec fn sentences_from(s: Seq<char>, start: int, i: int) -> Seq<Seq<char>>
    decreases s.len() - i,
{
    if i < start || start < 0 || i > s.len() {
        Seq::empty()
    } else if i == s.len() {
        if start < i {
            seq![s.subrange(start, i)]
        } else {
            Seq::empty()
        }
    } else if is_terminator(s[i]) {
        seq![s.subrange(start, i + 1)] + sentences_from(s, i + 1, i + 1)
    } else {
        sentences_from(s, start, i + 1)
    }
}

/// The byte length of a text.
pub open spec fn blen(s: Seq<char>) -> int {
    utf8_bytes(s).len() as int
}

/// Sentences packed greedily into pieces of at most `max` bytes: the pieces
/// closed so far (trimmed) and the one being filled.
pub open spec fn pack(sents: Seq<Seq<char>>, max: int) -> (Seq<Seq<char>>, Seq<char>)
    decreases sents.len(),
{
    if sents.len() == 0 {
        (Seq::empty(), Seq::empty())
    } else {
        let (done, cur) = pack(sents.drop_last(), max);
        let x = sents.last();
        if blen(cur) + blen(x) > max && cur.len() > 0 {
            (done.push(trim_seq(cur)), x)
        } else {
            (done, cur + x)
        }
    }
}

/// Consecutive pieces of `max` bytes of `b` from `k` on; the last may be
/// shorter (`<[u8]>::chunks`).
pub open spec fn byte_pieces_from(b: Seq<u8>, max: int, k: int) -> Seq<Seq<u8>>
    decreases b.len() - k,
{
    if max <= 0 || k < 0 || k >= b.len() {
        Seq::empty()
    } else if k + max >= b.len() {
        seq![b.subrange(k, b.len() as int)]
    } else {
        seq![b.subrange(k, k + max)] + byte_pieces_from(b, max, k + max)
    }
}

/// The byte pieces that are valid UTF-8, decoded and trimmed; the others
/// are dropped.
pub open spec fn decoded_pieces(ps: Seq<Seq<u8>>) -> Seq<Seq<char>>
    decreases ps.len(),
{
    if ps.len() == 0 {
        Seq::empty()
    } else {
        let rest = decoded_pieces(ps.drop_last());
        if vstd::utf8::valid_utf8(ps.last()) {
            rest.push(trim_seq(vstd::utf8::decode_utf8(ps.last())))
        } else {
            rest
        }
    }
}

/// A long text split at sentence ends into pieces of at most `max` bytes;
/// a last piece still too long is cut into `max`-byte pieces, of which
/// those that split a character are dropped; the whole trimmed text when
/// nothing is left.
pub open spec fn split_sentences(text: Seq<char>, max: int) -> Seq<Seq<char>> {
    let (done, cur) = pack(sentences_from(text, 0, 0), max);
    let all = if trim_seq(cur).len() > 0 {
        if blen(cur) > max {
            done + decoded_pieces(byte_pieces_from(utf8_bytes(cur), max, 0))
        } else {
            done.push(trim_seq(cur))
        }
    } else {
        done
    };
    if all.len() == 0 {
        seq![trim_seq(text)]
    } else {
        all
    }
}

/// Split the sentences of `text` from `start` (scanning at `i`) off into a
/// vector.
fn sentences(text: &str) -> (res: Vec<String>)
    ensures
        views(res@) == sentences_from(text@, 0, 0),
{
    let cs = chars_of(text);
    let n = cs.len();
    let mut res: Vec<String> = Vec::new();
    let mut start: usize = 0;
    let mut i: usize = 0;
    while i < n
        invariant
            cs@ == text@,
            n == cs@.len(),
            start <= i <= n,
            sentences_from(cs@, 0, 0) == views(res@) + sentences_from(cs@, start as int, i as int),
        decreases n - i,
    {
        if cs[i] == '.' || cs[i] == '!' || cs[i] == '?' {
            let piece = string_from_chars(&cs, start, i + 1);
            proof {
                assert(views(res@.push(piece)) =~= views(res@).push(piece@));
                assert(views(res@) + sentences_from(cs@, start as int, i as int) =~= views(
                    res@.push(piece),
                ) + sentences_from(cs@, i + 1, i + 1));
            }
            res.push(piece);
            start = i + 1;
        }
        i = i + 1;
    }
    if start < n {
        let piece = string_from_chars(&cs, start, n);
        proof {
            assert(views(res@.push(piece)) =~= views(res@).push(piece@));
            assert(views(res@) + sentences_from(cs@, start as int, n as int) =~= views(
                res@.push(piece),
            ));
        }
        res.push(piece);
    } else {
        proof {
            assert(views(res@) + sentences_from(cs@, start as int, n as int) =~= views(res@));
        }
    }
    res
}

/// Append the valid UTF-8 `max`-byte pieces of a text, decoded and trimmed.
fn push_byte_pieces(result: &mut Vec<String>, text: &str, max: usize)
    requires
        max > 0,
    ensures
        views(final(result)@) == views(old(result)@) + decoded_pieces(
            byte_pieces_from(utf8_bytes(text@), max as int, 0),
        ),
{
    broadcast use vstd::slice::group_slice_axioms;

    let b = text.as_bytes();
    let n = b.len();
    let ghost bs = b@;
    let ghost start = views(result@);
    let ghost mut done: Seq<Seq<u8>> = Seq::empty();
    let mut k: usize = 0;
    while k < n
        invariant
            b@ == bs,
            bs == utf8_bytes(text@),
            n == bs.len(),
            max > 0,
            byte_pieces_from(bs, max as int, 0) == done + byte_pieces_from(bs, max as int, k as int),
            views(result@) == start + decoded_pieces(done),
        decreases n - k,
    {
        let end: usize = if max >= n - k {
            n
        } else {
            k + max
        };
        let piece = vstd::slice::slice_subrange(b, k, end);
        proof {
            if end == n {
                assert(byte_pieces_from(bs, max as int, k as int) == seq![piece@]);
                assert(byte_pieces_from(bs, max as int, n as int) =~= Seq::<Seq<u8>>::empty());
                assert(done + seq![piece@] =~= done.push(piece@));
            } else {
                assert(done + byte_pieces_from(bs, max as int, k as int) =~= done.push(piece@)
                    + byte_pieces_from(bs, max as int, k + max));
            }
            assert(done.push(piece@).drop_last() =~= done);
        }
        match str_from_utf8(piece) {
            Ok(s) => {
                let t = trim(s);
                proof {
                    vstd::utf8::encode_utf8_decode_utf8(s@);
                    assert(views(result@.push(t)) =~= views(result@).push(t@));
                }
                result.push(t);
            },
            Err(_) => {},
        }
        proof {
            done = done.push(piece@);
        }
        k = end;
    }
    proof {
        assert(byte_pieces_from(bs, max as int, k as int) =~= Seq::<Seq<u8>>::empty());
        assert(done + Seq::<Seq<u8>>::empty() =~= done);
    }
}

/// Split a long text into pieces of at most `max` bytes, preferring breaks
/// after sentence ends.
pub fn split_long_text(text: &str, max: usize) -> (res: Vec<String>)
    requires
        max > 0,
    ensures
        views(res@) == split_sentences(text@, max as int),
{
    let sents = sentences(text);
    let mut result: Vec<String> = Vec::new();
    let mut current = String::new();
    let mut k: usize = 0;
    while k < sents.len()
        invariant
            k <= sents@.len(),
            views(sents@) == sentences_from(text@, 0, 0),
            (views(result@), current@) == pack(views(sents@).take(k as int), max as int),
        decreases sents@.len() - k,
    {
        proof {
            let t = views(sents@).take(k + 1);
            assert(t.drop_last() =~= views(sents@).take(k as int));
            assert(t.last() == sents@[k as int]@);
        }
        let cl = byte_len(current.as_str());
        let sl = byte_len(sents[k].as_str());
        if (cl > max || sl > max - cl) && !current.as_str().is_empty() {
            let t = trim(current.as_str());
            proof {
                assert(views(result@.push(t)) =~= views(result@).push(t@));
            }
            result.push(t);
            current = String::new();
        }
        current.append(sents[k].as_str());
        k = k + 1;
    }
    proof {
        assert(views(sents@).take(sents@.len() as int) =~= views(sents@));
    }
    if !is_blank(current.as_str()) {
        if byte_len(current.as_str()) > max {
            push_byte_pieces(&mut result, current.as_str(), max);
        } else {
            let t = trim(current.as_str());
            proof {
                assert(views(result@.push(t)) =~= views(result@).push(t@));
            }
            result.push(t);
        }
    }
    if result.len() == 0 {
        let t = trim(text);
        proof {
            assert(views(result@.push(t)) =~= seq![t@]);
        }
        result.push(t);
    }
    result
}

// ============================================================
// Chunking by headings
// ============================================================

/// The state of the chunking: chunks made so far, the text gathered, the
/// current heading, and whether a heading is open.
pub struct MdState {
    pub chunks: Seq<(Seq<char>, Option<MetaView>)>,
    pub cur: Seq<char>,
    pub heading: Option<Seq<char>>,
    pub in_heading: bool,
}

/// The marker of a heading of level `level`: that many `#` and a space.
pub open spec fn heading_prefix(level: u8) -> Seq<char> {
    Seq::new(level as nat, |_i: int| '#').push(' ')
}

/// The metadata of chunks under a heading.
pub open spec fn heading_meta(heading: Option<Seq<char>>) -> Option<MetaView> {
    match heading {
        Some(h) => Some(MetaView::Heading(h)),
        None => None,
    }
}

/// The chunks after the gathered text is flushed: nothing added when it is
/// blank, its trimmed form when it fits, else its sentence pieces; all under
/// the current heading.
pub open spec fn flushed(
    chunks: Seq<(Seq<char>, Option<MetaView>)>,
    cur: Seq<char>,
    heading: Option<Seq<char>>,
) -> Seq<(Seq<char>, Option<MetaView>)> {
    let t = trim_seq(cur);
    let m = heading_meta(heading);
    if t.len() == 0 {
        chunks
    } else if blen(t) > MAX_CHUNK_SIZE {
        chunks + split_sentences(t, MAX_CHUNK_SIZE as int).map_values(
            |p: Seq<char>| (p, m),
        )
    } else {
        chunks.push((t, m))
    }
}

/// The state with its gathered text flushed into chunks.
pub open spec fn flush(st: MdState) -> MdState {
    MdState { chunks: flushed(st.chunks, st.cur, st.heading), cur: Seq::empty(), ..st }
}

/// The end of a paragraph, a list or a code block: a line break, unless
/// the gathered text is empty or already ends with one.
pub open spec fn block_end(st: MdState) -> MdState {
    if st.cur.len() > 0 && st.cur.last() != '\n' {
        MdState { cur: st.cur.push('\n'), ..st }
    } else {
        st
    }
}

/// The effect of one event.
pub open spec fn md_event_step(st: MdState, e: MdEventView) -> MdState {
    match e {
        MdEventView::HeadingStart(l) => {
            let st1 = if trim_seq(st.cur).len() > 0 {
                flush(st)
            } else {
                st
            };
            MdState { heading: Some(heading_prefix(l)), in_heading: true, ..st1 }
        },
        MdEventView::HeadingEnd => MdState { in_heading: false, ..st },
        MdEventView::ParagraphStart => st,
        MdEventView::ListStart => st,
        MdEventView::CodeBlockStart => st,
        MdEventView::ParagraphEnd => block_end(st),
        MdEventView::ListEnd => block_end(st),
        MdEventView::CodeBlockEnd => block_end(st),
        MdEventView::Text(t) => MdState {
            cur: st.cur + t,
            heading: if st.in_heading {
                match st.heading {
                    Some(h) => Some(h + t),
                    None => None,
                }
            } else {
                st.heading
            },
            ..st
        },
        MdEventView::Code(t) => MdState { cur: st.cur + t, ..st },
        MdEventView::SoftBreak => MdState { cur: st.cur.push('\n'), ..st },
        MdEventView::HardBreak => MdState { cur: st.cur.push('\n'), ..st },
        MdEventView::Other => st,
    }
}

/// The effect of one event, then a flush once the gathered text reaches
/// the maximum chunk size.
pub open spec fn md_after_event(st: MdState, e: MdEventView) -> MdState {
    let s1 = md_event_step(st, e);
    if blen(s1.cur) >= MAX_CHUNK_SIZE {
        flush(s1)
    } else {
        s1
    }
}

/// The state after a list of events.
pub open spec fn md_run(events: Seq<MdEventView>) -> MdState
    decreases events.len(),
{
    if events.len() == 0 {
        MdState { chunks: Seq::empty(), cur: Seq::empty(), heading: None, in_heading: false }
    } else {
        md_after_event(md_run(events.drop_last()), events.last())
    }
}

/// The chunks of a Markdown text from its events: those of the run, the
/// rest flushed at the end; the whole trimmed text, without metadata, when
/// there are none.
pub open spec fn markdown_chunks(text: Seq<char>, events: Seq<MdEventView>) -> Seq<(Seq<char>, Option<MetaView>)> {
    let st = md_run(events);
    let chunks = if trim_seq(st.cur).len() > 0 {
        flushed(st.chunks, st.cur, st.heading)
    } else {
        st.chunks
    };
    if chunks.len() == 0 {
        seq![(trim_seq(text), None)]
    } else {
        chunks
    }
}

/// A text that trimming leaves as it is.
pub open spec fn is_trimmed(s: Seq<char>) -> bool {
    trim_seq(s) == s
}

/// Heading metadata: one to six `#`, a space, then the heading's text.
pub open spec fn is_heading_text(h: Seq<char>) -> bool {
    exists|l: u8| 1 <= l <= 6 && #[trigger] starts_with(h, heading_prefix(l))
}

/// The shape of a Markdown chunk: its content is trimmed, and it has no
/// metadata or a heading's.
pub open spec fn md_chunk_ok(c: (Seq<char>, Option<MetaView>)) -> bool {
    &&& is_trimmed(c.0)
    &&& match c.1 {
        None => true,
        Some(MetaView::Heading(h)) => is_heading_text(h),
        Some(MetaView::Source(_)) => false,
    }
}

/// Every heading start of a list of events has a level from 1 to 6.
pub open spec fn levels_ok(events: Seq<MdEventView>) -> bool {
    forall|i: int|
        0 <= i < events.len() ==> ((#[trigger] events[i]) matches MdEventView::HeadingStart(l) ==> 1
            <= l <= 6)
}

/// The chunks made so far have the Markdown shape, and the current
/// heading, if any, is heading metadata.
pub open spec fn state_ok(st: MdState) -> bool {
    &&& forall|i: int| 0 <= i < st.chunks.len() ==> md_chunk_ok(#[trigger] st.chunks[i])
    &&& (st.heading matches Some(h) ==> is_heading_text(h))
}

proof fn lemma_pack_trimmed(sents: Seq<Seq<char>>, max: int)
    ensures
        forall|i: int| 0 <= i < pack(sents, max).0.len() ==> is_trimmed(#[trigger] pack(sents, max).0[i]),
    decreases sents.len(),
{
    if sents.len() > 0 {
        lemma_pack_trimmed(sents.drop_last(), max);
        let (done, cur) = pack(sents.drop_last(), max);
        lemma_trim_idempotent(cur);
    }
}

proof fn lemma_decoded_trimmed(ps: Seq<Seq<u8>>)
    ensures
        forall|i: int| 0 <= i < decoded_pieces(ps).len() ==> is_trimmed(#[trigger] decoded_pieces(ps)[i]),
    decreases ps.len(),
{
    if ps.len() > 0 {
        lemma_decoded_trimmed(ps.drop_last());
        let rest = decoded_pieces(ps.drop_last());
        if vstd::utf8::valid_utf8(ps.last()) {
            let x = vstd::utf8::decode_utf8(ps.last());
            lemma_trim_idempotent(x);
            let d = rest.push(trim_seq(x));
            assert(decoded_pieces(ps) == d);
            assert forall|i: int| 0 <= i < d.len() implies is_trimmed(#[trigger] d[i]) by {
                if i < rest.len() {
                    assert(d[i] == rest[i]);
                }
            }
        }
    }
}

proof fn lemma_split_trimmed(text: Seq<char>, max: int)
    ensures
        forall|i: int|
            0 <= i < split_sentences(text, max).len() ==> is_trimmed(#[trigger] split_sentences(text, max)[i]),
{
    let (done, cur) = pack(sentences_from(text, 0, 0), max);
    lemma_pack_trimmed(sentences_from(text, 0, 0), max);
    lemma_decoded_trimmed(byte_pieces_from(utf8_bytes(cur), max, 0));
    lemma_trim_idempotent(cur);
    lemma_trim_idempotent(text);
    let d = decoded_pieces(byte_pieces_from(utf8_bytes(cur), max, 0));
    assert forall|i: int| 0 <= i < (done + d).len() implies is_trimmed(#[trigger] (done + d)[i]) by {
        if i >= done.len() {
            assert(d[i - done.len()] == (done + d)[i]);
        }
    }
}

proof fn lemma_flushed_ok(
    chunks: Seq<(Seq<char>, Option<MetaView>)>,
    cur: Seq<char>,
    heading: Option<Seq<char>>,
)
    requires
        forall|i: int| 0 <= i < chunks.len() ==> md_chunk_ok(#[trigger] chunks[i]),
        heading matches Some(h) ==> is_heading_text(h),
    ensures
        forall|i: int|
            0 <= i < flushed(chunks, cur, heading).len() ==> md_chunk_ok(
                #[trigger] flushed(chunks, cur, heading)[i],
            ),
{
    let t = trim_seq(cur);
    let m = heading_meta(heading);
    lemma_trim_idempotent(cur);
    lemma_split_trimmed(t, MAX_CHUNK_SIZE as int);
    let ps = split_sentences(t, MAX_CHUNK_SIZE as int);
    let f = flushed(chunks, cur, heading);
    assert forall|i: int| 0 <= i < f.len() implies md_chunk_ok(#[trigger] f[i]) by {
        if i >= chunks.len() && t.len() > 0 && blen(t) > MAX_CHUNK_SIZE {
            assert(f[i] == (ps[i - chunks.len()], m));
        }
    }
}

proof fn lemma_step_ok(st: MdState, e: MdEventView)
    requires
        state_ok(st),
        e matches MdEventView::HeadingStart(l) ==> 1 <= l <= 6,
    ensures
        state_ok(md_after_event(st, e)),
{
    lemma_flushed_ok(st.chunks, st.cur, st.heading);
    let s1 = md_event_step(st, e);
    match e {
        MdEventView::HeadingStart(l) => {
            let p = heading_prefix(l);
            assert(p.take(p.len() as int) =~= p);
            assert(starts_with(p, heading_prefix(l)));
        },
        MdEventView::Text(t) => {
            if st.in_heading {
                if let Some(h) = st.heading {
                    let l = choose|l: u8| 1 <= l <= 6 && #[trigger] starts_with(h, heading_prefix(l));
                    let p = heading_prefix(l);
                    assert((h + t).take(p.len() as int) =~= h.take(p.len() as int));
                    assert(starts_with(h + t, heading_prefix(l)));
                }
            }
        },
        _ => {},
    }
    assert(state_ok(s1));
    lemma_flushed_ok(s1.chunks, s1.cur, s1.heading);
}

proof fn lemma_run_ok(events: Seq<MdEventView>)
    requires
        levels_ok(events),
    ensures
        state_ok(md_run(events)),
    decreases events.len(),
{
    if events.len() > 0 {
        let rest = events.drop_last();
        assert forall|i: int| 0 <= i < rest.len() implies ((#[trigger] rest[i]) matches MdEventView::HeadingStart(l)
            ==> 1 <= l <= 6) by {
            assert(rest[i] == events[i]);
        }
        lemma_run_ok(rest);
        assert(events.last() == events[events.len() - 1]);
        lemma_step_ok(md_run(rest), events.last());
    }
}

/// The chunks of a Markdown text, when every heading has a level from 1 to
/// 6, are at least one, with trimmed contents and no metadata or a
/// heading's (one to six `#`, a space, its text).
pub proof fn lemma_markdown_chunks_shape(text: Seq<char>, events: Seq<MdEventView>)
    requires
        levels_ok(events),
    ensures
        markdown_chunks(text, events).len() >= 1,
        forall|i: int|
            0 <= i < markdown_chunks(text, events).len() ==> md_chunk_ok(
                #[trigger] markdown_chunks(text, events)[i],
            ),
{
    let st = md_run(events);
    lemma_run_ok(events);
    lemma_flushed_ok(st.chunks, st.cur, st.heading);
    lemma_trim_idempotent(text);
}

/// The model of an optional string.
pub open spec fn opt_view(o: Option<String>) -> Option<Seq<char>> {
    match o {
        Some(s) => Some(s@),
        None => None,
    }
}

/// The marker of a heading level.
fn heading_marker(level: u8) -> (res: String)
    ensures
        res@ == heading_prefix(level),
{
    let mut res = String::new();
    let mut i: u8 = 0;
    while i < level
        invariant
            i <= level,
            res@ == Seq::new(i as nat, |_i: int| '#'),
        decreases level - i,
    {
        push_char(&mut res, '#');
        i = i + 1;
        proof {
            assert(res@ =~= Seq::new(i as nat, |_i: int| '#'));
        }
    }
    push_char(&mut res, ' ');
    res
}

/// A copy of optional metadata.
fn clone_meta(m: &Option<ChunkMeta>) -> (res: Option<ChunkMeta>)
    ensures
        meta_view(res) == meta_view(*m),
{
    match m {
        Some(ChunkMeta::Source(t)) => Some(ChunkMeta::Source(*t)),
        Some(ChunkMeta::Heading(h)) => Some(ChunkMeta::Heading(h.clone())),
        None => None,
    }
}

/// Flush the gathered text into chunks and clear it.
fn push_chunk(
    chunks: &mut Vec<MemoryChunk>,
    text: &mut String,
    heading: &Option<String>,
    Ghost(done): Ghost<Seq<(Seq<char>, Option<MetaView>)>>,
)
    requires
        chunks_are(old(chunks)@, done),
    ensures
        chunks_are(final(chunks)@, flushed(done, old(text)@, opt_view(*heading))),
        final(text)@.len() == 0,
{
    let trimmed = trim(text.as_str());
    *text = String::new();
    if trimmed.as_str().is_empty() {
        return;
    }
    let meta: Option<ChunkMeta> = match heading {
        Some(h) => Some(ChunkMeta::Heading(h.clone())),
        None => None,
    };
    if byte_len(trimmed.as_str()) > MAX_CHUNK_SIZE {
        let parts = split_long_text(trimmed.as_str(), MAX_CHUNK_SIZE);
        let ghost m = heading_meta(opt_view(*heading));
        let ghost ps = split_sentences(trimmed@, MAX_CHUNK_SIZE as int);
        let mut k: usize = 0;
        while k < parts.len()
            invariant
                k <= parts@.len(),
                views(parts@) == ps,
                meta_view(meta) == m,
                chunks_are(chunks@, done + ps.take(k as int).map_values(|p: Seq<char>| (p, m))),
            decreases parts@.len() - k,
        {
            let idx = chunks.len();
            chunks.push(MemoryChunk { content: parts[k].clone(), chunk_index: idx, metadata: clone_meta(&meta) });
            proof {
                assert(done + ps.take(k + 1).map_values(|p: Seq<char>| (p, m)) =~= (done + ps.take(
                    k as int,
                ).map_values(|p: Seq<char>| (p, m))).push((ps[k as int], m)));
            }
            k = k + 1;
        }
        proof {
            assert(ps.take(parts@.len() as int) =~= ps);
        }
    } else {
        let idx = chunks.len();
        let ghost tv = trimmed@;
        chunks.push(MemoryChunk { content: trimmed, chunk_index: idx, metadata: meta });
        proof {
            assert(chunks@[idx as int].content@ == tv);
        }
    }
}

/// Whether the exec state is the model state.
pub open spec fn state_is(
    chunks: Seq<MemoryChunk>,
    cur: Seq<char>,
    heading: Option<String>,
    in_heading: bool,
    st: MdState,
) -> bool {
    &&& chunks_are(chunks, st.chunks)
    &&& cur == st.cur
    &&& opt_view(heading) == st.heading
    &&& in_heading == st.in_heading
}

impl MarkdownParser {
    /// Chunk a Markdown text from its parse events: a heading closes the
    /// chunk before it and names the chunks after it; paragraph, list and
    /// code-block ends and line breaks keep line structure; a chunk is also
    /// closed once it reaches 512 bytes, and one longer than that is split at
    /// sentence ends.
    pub fn chunks_from_events(text: &str, events: &Vec<MdEvent>) -> (res: Vec<MemoryChunk>)
        ensures
            chunks_are(res@, markdown_chunks(text@, events_view(events@))),
    {
        let mut chunks: Vec<MemoryChunk> = Vec::new();
        let mut cur = String::new();
        let mut heading: Option<String> = None;
        let mut in_heading = false;
        let mut k: usize = 0;
        while k < events.len()
            invariant
                k <= events@.len(),
                state_is(chunks@, cur@, heading, in_heading, md_run(events_view(events@).take(k as int))),
            decreases events@.len() - k,
        {
            let ghost st0 = md_run(events_view(events@).take(k as int));
            proof {
                let t = events_view(events@).take(k + 1);
                assert(t.drop_last() =~= events_view(events@).take(k as int));
                assert(t.last() == events@[k as int]@);
            }
            match &events[k] {
                MdEvent::HeadingStart(l) => {
                    if !is_blank(cur.as_str()) {
                        push_chunk(&mut chunks, &mut cur, &heading, Ghost(st0.chunks));
                        assert(cur@ =~= Seq::<char>::empty());
                    }
                    in_heading = true;
                    heading = Some(heading_marker(*l));
                    assert(state_is(chunks@, cur@, heading, in_heading, md_event_step(st0, events@[k as int]@)));
                },
                MdEvent::HeadingEnd => {
                    in_heading = false;
                    assert(state_is(chunks@, cur@, heading, in_heading, md_event_step(st0, events@[k as int]@)));
                },
                MdEvent::ParagraphEnd | MdEvent::ListEnd | MdEvent::CodeBlockEnd => {
                    let cs = chars_of(cur.as_str());
                    let nl = cs.len() > 0 && cs[cs.len() - 1] == '\n';
                    if !cur.as_str().is_empty() && !nl {
                        push_char(&mut cur, '\n');
                    }
                    assert(state_is(chunks@, cur@, heading, in_heading, md_event_step(st0, events@[k as int]@)));
                },
                MdEvent::Text(t) => {
                    if in_heading {
                        heading = match heading {
                            Some(h) => {
                                let mut h2 = h;
                                h2.append(t.as_str());
                                Some(h2)
                            },
                            None => None,
                        };
                    }
                    cur.append(t.as_str());
                    assert(state_is(chunks@, cur@, heading, in_heading, md_event_step(st0, events@[k as int]@)));
                },
                MdEvent::Code(t) => {
                    cur.append(t.as_str());
                    assert(state_is(chunks@, cur@, heading, in_heading, md_event_step(st0, events@[k as int]@)));
                },
                MdEvent::SoftBreak | MdEvent::HardBreak => {
                    push_char(&mut cur, '\n');
                    assert(state_is(chunks@, cur@, heading, in_heading, md_event_step(st0, events@[k as int]@)));
                },
                MdEvent::ParagraphStart | MdEvent::ListStart | MdEvent::CodeBlockStart
                | MdEvent::Other => {},
            }
            let ghost st1 = md_event_step(st0, events@[k as int]@);
            assert(state_is(chunks@, cur@, heading, in_heading, st1));
            if byte_len(cur.as_str()) >= MAX_CHUNK_SIZE {
                push_chunk(&mut chunks, &mut cur, &heading, Ghost(st1.chunks));
                assert(cur@ =~= Seq::<char>::empty());
            }
            assert(md_run(events_view(events@).take(k + 1)) == md_after_event(st0, events@[k as int]@));
            k = k + 1;
        }
        proof {
            assert(events_view(events@).take(events@.len() as int) =~= events_view(events@));
        }
        if !is_blank(cur.as_str()) {
            let ghost st = md_run(events_view(events@));
            push_chunk(&mut chunks, &mut cur, &heading, Ghost(st.chunks));
        }
        if chunks.len() == 0 {
            let t = trim(text);
            chunks.push(MemoryChunk { content: t, chunk_index: 0, metadata: None });
        }
        chunks
    }

    /// Parse a UTF-8 Markdown document into chunks by headings and
    /// paragraphs.
    pub fn parse(&self, content: &[u8]) -> (res: Result<Vec<MemoryChunk>, AppError>)
        ensures
            vstd::utf8::valid_utf8(content@) <==> res is Ok,
            res matches Ok(chunks) ==> chunks_are(
                chunks@,
                markdown_chunks(
                    vstd::utf8::decode_utf8(content@),
                    markdown_events(vstd::utf8::decode_utf8(content@)),
                ),
            ),
            res matches Err(e) ==> e matches AppError::BadRequest(m) && m@ == invalid_utf8_message(
                content@,
            ),
            res matches Ok(chunks) ==> chunks@.len() >= 1,
            res matches Ok(chunks) ==> forall|i: int|
                0 <= i < chunks@.len() ==> md_chunk_ok(
                    ((#[trigger] chunks@[i]).content@, meta_view(chunks@[i].metadata)),
                ),
    {
        let text = decode_document(content)?;
        let events = parse_events(text);
        proof {
            let ev = events_view(events@);
            assert forall|i: int| 0 <= i < ev.len() implies ((#[trigger] ev[i]) matches MdEventView::HeadingStart(l)
                ==> 1 <= l <= 6) by {
                assert(ev[i] == events@[i]@);
            }
            lemma_markdown_chunks_shape(text@, ev);
        }
        let chunks = Self::chunks_from_events(text, &events);
        proof {
            let m = markdown_chunks(text@, events_view(events@));
            assert forall|i: int| 0 <= i < chunks@.len() implies md_chunk_ok(
                ((#[trigger] chunks@[i]).content@, meta_view(chunks@[i].metadata)),
            ) by {
                assert(m[i] == (chunks@[i].content@, meta_view(chunks@[i].metadata)));
            }
        }
        Ok(chunks)
    }

    /// The file types this parser reads.
    pub fn supported_types(&self) -> (res: Vec<crate::parse::FileType>)
        ensures
            res@ == seq![crate::parse::FileType::Markdown],
    {
        let mut v = Vec::new();
        v.push(crate::parse::FileType::Markdown);
        v
    }
}

} // verus!

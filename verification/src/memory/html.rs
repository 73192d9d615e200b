//! Minimal HTML to plain-text stripper for embedding and search indexing.
//!
//! Rich-text (HTML) memories keep their full markup in `content`; what goes
//! into embeddings and the full-text index is the text with tags removed
//! and the common entities unescaped.

use crate::text::{chars_of, push_char};
use vstd::prelude::*;

verus! {

/// The character an entity at the start of `s` stands for, and how many
/// characters the entity spans.
pub open spec fn spec_entity(s: Seq<char>) -> Option<(char, usize)> {
    if s.len() >= 5 && s.take(5) == "&amp;"@ {
        Some(('&', 5usize))
    } else if s.len() >= 4 && s.take(4) == "&lt;"@ {
        Some(('<', 4usize))
    } else if s.len() >= 4 && s.take(4) == "&gt;"@ {
        Some(('>', 4usize))
    } else if s.len() >= 6 && s.take(6) == "&quot;"@ {
        Some(('"', 6usize))
    } else if s.len() >= 6 && s.take(6) == "&apos;"@ {
        Some(('\'', 6usize))
    } else if s.len() >= 6 && s.take(6) == "&nbsp;"@ {
        Some((' ', 6usize))
    } else {
        None
    }
}

/// Index of the first `>` at or after `j`, or the length when there is none.
pub open spec fn gt_from(s: Seq<char>, j: int) -> int
    decreases s.len() - j,
{
    if j < 0 || j >= s.len() {
        s.len() as int
    } else if s[j] == '>' {
        j
    } else {
        gt_from(s, j + 1)
    }
}

/// Position just after the tag that opens at `i`: past its closing `>`,
/// or the end of the text when the tag is never closed.
pub open spec fn tag_end(s: Seq<char>, i: int) -> int {
    let j = gt_from(s, i);
    if j < s.len() {
        j + 1
    } else {
        s.len() as int
    }
}

/// The plain text of `s` from position `i` on: tags dropped, known entities
/// unescaped, every other character kept.
pub open spec fn strip_from(s: Seq<char>, i: int) -> Seq<char>
    decreases s.len() - i,
{
    if i < 0 || i >= s.len() {
        Seq::empty()
    } else if s[i] == '<' {
        if tag_end(s, i) > i {
            strip_from(s, tag_end(s, i))
        } else {
            Seq::empty()
        }
    } else if s[i] == '&' && spec_entity(s.skip(i)) is Some {
        let (c, k) = spec_entity(s.skip(i)).unwrap();
        seq![c] + strip_from(s, i + k)
    } else {
        seq![s[i]] + strip_from(s, i + 1)
    }
}

/// The plain text of an HTML string.
pub open spec fn spec_strip_tags(s: Seq<char>) -> Seq<char> {
    strip_from(s, 0)
}

/// `gt_from` finds a position at or after its start.
proof fn lemma_gt_from_bounds(s: Seq<char>, j: int)
    requires
        0 <= j <= s.len(),
    ensures
        j <= gt_from(s, j) <= s.len(),
        gt_from(s, j) < s.len() ==> s[gt_from(s, j)] == '>',
        forall|k: int| j <= k < gt_from(s, j) ==> s[k] != '>',
    decreases s.len() - j,
{
    if j < s.len() && s[j] != '>' {
        lemma_gt_from_bounds(s, j + 1);
    }
}

/// Whether `cs` holds `lit` at position `i`.
fn has_literal_at(cs: &Vec<char>, i: usize, lit: &str) -> (res: bool)
    requires
        i <= cs@.len(),
    ensures
        res == (i + lit@.len() <= cs@.len() && cs@.subrange(i as int, i + lit@.len()) == lit@),
{
    let ls = chars_of(lit);
    let n = cs.len();
    if ls.len() > n - i {
        return false;
    }
    let mut k: usize = 0;
    while k < ls.len()
        invariant
            n == cs@.len(),
            i + ls@.len() <= cs@.len(),
            ls@ == lit@,
            k <= ls@.len(),
            forall|m: int| 0 <= m < k ==> cs@[i + m] == ls@[m],
        decreases ls@.len() - k,
    {
        if cs[i + k] != ls[k] {
            assert(cs@.subrange(i as int, i + lit@.len())[k as int] != lit@[k as int]);
            return false;
        }
        k = k + 1;
    }
    assert(cs@.subrange(i as int, i + lit@.len()) =~= lit@);
    true
}

/// The entity at position `i` of `cs`, if one of the known entities starts
/// there.
fn entity_at(cs: &Vec<char>, i: usize) -> (res: Option<(char, usize)>)
    requires
        i <= cs@.len(),
    ensures
        res == spec_entity(cs@.skip(i as int)),
{
    let ghost s = cs@.skip(i as int);
    proof {
        reveal_strlit("&amp;");
        reveal_strlit("&lt;");
        reveal_strlit("&gt;");
        reveal_strlit("&quot;");
        reveal_strlit("&apos;");
        reveal_strlit("&nbsp;");
        assert forall|n: int| 0 <= n && i + n <= cs@.len() implies #[trigger] s.take(n)
            == cs@.subrange(i as int, i + n) by {
            assert(s.take(n) =~= cs@.subrange(i as int, i + n));
        }
    }
    if has_literal_at(cs, i, "&amp;") {
        Some(('&', 5))
    } else if has_literal_at(cs, i, "&lt;") {
        Some(('<', 4))
    } else if has_literal_at(cs, i, "&gt;") {
        Some(('>', 4))
    } else if has_literal_at(cs, i, "&quot;") {
        Some(('"', 6))
    } else if has_literal_at(cs, i, "&apos;") {
        Some(('\'', 6))
    } else if has_literal_at(cs, i, "&nbsp;") {
        Some((' ', 6))
    } else {
        None
    }
}

/// Try to unescape a known entity at the start of `s`: gives the character
/// and the number of characters (equally, bytes) it spans.
pub fn unescape_entity(s: &str) -> (res: Option<(char, usize)>)
    ensures
        res == spec_entity(s@),
{
    let cs = chars_of(s);
    assert(cs@.skip(0) =~= s@);
    entity_at(&cs, 0)
}

/// Width in bytes of a UTF-8 sequence that starts with `first`; a byte that
/// cannot start a sequence counts as one.
pub fn utf8_len(first: u8) -> (res: usize)
    ensures
        res == if first < 0x80 {
            1usize
        } else if 0xC0 <= first <= 0xDF {
            2usize
        } else if 0xE0 <= first <= 0xEF {
            3usize
        } else if 0xF0 <= first <= 0xF7 {
            4usize
        } else {
            1usize
        },
{
    assert(first >> 5u8 == 0b110u8 <==> 0xC0 <= first <= 0xDF) by (bit_vector);
    assert(first >> 4u8 == 0b1110u8 <==> 0xE0 <= first <= 0xEF) by (bit_vector);
    assert(first >> 3u8 == 0b11110u8 <==> 0xF0 <= first <= 0xF7) by (bit_vector);
    if first < 0x80 {
        1
    } else if first >> 5 == 0b110 {
        2
    } else if first >> 4 == 0b1110 {
        3
    } else if first >> 3 == 0b11110 {
        4
    } else {
        1
    }
}

/// Strip HTML tags from a string and unescape common entities.
pub fn strip_tags(html: &str) -> (res: String)
    ensures
        res@ == spec_strip_tags(html@),
{
    let cs = chars_of(html);
    let n = cs.len();
    let mut out = String::new();
    let mut i: usize = 0;
    while i < n
        invariant
            cs@ == html@,
            n == cs@.len(),
            i <= n,
            out@ + strip_from(cs@, i as int) == strip_from(cs@, 0),
        decreases n - i,
    {
        if cs[i] == '<' {
            let mut j = i;
            proof {
                lemma_gt_from_bounds(cs@, i as int);
            }
            while j < n && cs[j] != '>'
                invariant
                    i <= j <= n == cs@.len(),
                    j <= gt_from(cs@, i as int),
                    gt_from(cs@, i as int) <= n,
                    forall|k: int| i <= k < gt_from(cs@, i as int) ==> cs@[k] != '>',
                    gt_from(cs@, i as int) < n ==> cs@[gt_from(cs@, i as int)] == '>',
                decreases n - j,
            {
                j = j + 1;
            }
            assert(j == gt_from(cs@, i as int));
            if j < n {
                j = j + 1;
            }
            assert(j == tag_end(cs@, i as int));
            assert(strip_from(cs@, i as int) == strip_from(cs@, j as int));
            i = j;
            continue;
        }
        if cs[i] == '&' {
            match entity_at(&cs, i) {
                Some((ch, consumed)) => {
                    assert(strip_from(cs@, i as int) == seq![ch] + strip_from(
                        cs@,
                        i + consumed,
                    ));
                    assert(out@.push(ch) + strip_from(cs@, i + consumed) =~= out@ + strip_from(
                        cs@,
                        i as int,
                    ));
                    push_char(&mut out, ch);
                    i = i + consumed;
                    continue;
                },
                None => {},
            }
        }
        let c = cs[i];
        assert(strip_from(cs@, i as int) == seq![c] + strip_from(cs@, i + 1));
        assert(out@.push(c) + strip_from(cs@, i + 1) =~= out@ + strip_from(cs@, i as int));
        push_char(&mut out, c);
        i = i + 1;
    }
    assert(out@ =~= out@ + strip_from(cs@, n as int));
    out
}

/// Text with neither `<` nor `&` from position `i` on is kept as it is.
proof fn lemma_strip_plain_from(s: Seq<char>, i: int)
    requires
        0 <= i <= s.len(),
        forall|k: int| 0 <= k < s.len() ==> s[k] != '<' && s[k] != '&',
    ensures
        strip_from(s, i) == s.skip(i),
    decreases s.len() - i,
{
    if i < s.len() {
        lemma_strip_plain_from(s, i + 1);
        assert(seq![s[i]] + s.skip(i + 1) =~= s.skip(i));
    } else {
        assert(s.skip(i) =~= Seq::<char>::empty());
    }
}

/// Plain text passes through unchanged: text without `<` and `&` is its own
/// stripped form.
pub proof fn lemma_strip_tags_plain_text(s: Seq<char>)
    requires
        !s.contains('<'),
        !s.contains('&'),
    ensures
        spec_strip_tags(s) == s,
{
    assert forall|k: int| 0 <= k < s.len() implies s[k] != '<' && s[k] != '&' by {
        if s[k] == '<' {
            assert(s.contains('<'));
        }
        if s[k] == '&' {
            assert(s.contains('&'));
        }
    }
    lemma_strip_plain_from(s, 0);
    assert(s.skip(0) =~= s);
}

/// Stripping never lengthens a text: the text from `i` on yields at most as
/// many characters as it has.
proof fn lemma_strip_from_len(s: Seq<char>, i: int)
    requires
        0 <= i <= s.len(),
    ensures
        strip_from(s, i).len() <= s.len() - i,
    decreases s.len() - i,
{
    if i < s.len() {
        if s[i] == '<' {
            lemma_gt_from_bounds(s, i);
            lemma_strip_from_len(s, tag_end(s, i));
        } else if s[i] == '&' && spec_entity(s.skip(i)) is Some {
            let (c, k) = spec_entity(s.skip(i)).unwrap();
            assert(k >= 1 && i + k <= s.len());
            lemma_strip_from_len(s, i + k);
        } else {
            lemma_strip_from_len(s, i + 1);
        }
    }
}

/// The stripped text is never longer than the HTML it comes from.
pub proof fn lemma_strip_tags_shortens(s: Seq<char>)
    ensures
        spec_strip_tags(s).len() <= s.len(),
{
    lemma_strip_from_len(s, 0);
}

} // verus!

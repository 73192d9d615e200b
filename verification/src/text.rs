//! Character and string helpers shared by the text-processing modules.

use vstd::prelude::*;
use vstd::std_specs::iter::IteratorSpec;

verus! {

/// `c` is one of `0-9a-f`.
pub open spec fn is_lower_hex_digit(c: char) -> bool {
    ('0' <= c && c <= '9') || ('a' <= c && c <= 'f')
}

/// Whether `c` has the Unicode `White_Space` property, which
/// `char::is_whitespace` decides: tab to carriage return, space, next line,
/// no-break space, ogham space mark, en quad to hair space, line and
/// paragraph separators, narrow no-break space, medium mathematical space
/// and ideographic space.
pub open spec fn is_white_space(c: char) -> bool {
    let u = c as u32;
    ||| 0x09 <= u <= 0x0D
    ||| u == 0x20
    ||| u == 0x85
    ||| u == 0xA0
    ||| u == 0x1680
    ||| 0x2000 <= u <= 0x200A
    ||| u == 0x2028
    ||| u == 0x2029
    ||| u == 0x202F
    ||| u == 0x205F
    ||| u == 0x3000
}

/// Whether `c` has the Unicode `Uppercase` property (`char::is_uppercase`).
pub uninterp spec fn is_upper_case(c: char) -> bool;

/// Whether `c` has the Unicode `Lowercase` property (`char::is_lowercase`).
pub uninterp spec fn is_lower_case(c: char) -> bool;

/// Whether `c` is alphabetic or numeric in Unicode (`char::is_alphanumeric`).
pub uninterp spec fn is_alpha_numeric(c: char) -> bool;

/// The lowercase mapping of a whole string (`str::to_lowercase`).
pub uninterp spec fn lowercase_of(s: Seq<char>) -> Seq<char>;

/// Lowercase of one ASCII character.
pub open spec fn ascii_lower_char(c: char) -> char {
    if 'A' <= c && c <= 'Z' {
        ((c as u32) + 32) as char
    } else {
        c
    }
}

/// Whether every character of `s` is ASCII.
pub open spec fn all_ascii(s: Seq<char>) -> bool {
    forall|i: int| 0 <= i < s.len() ==> (#[trigger] s[i] as u32) < 128
}

/// Whether `c` is whitespace, as `char::is_whitespace` decides it: one of
/// the code points of the Unicode `White_Space` property.
pub(crate) fn char_is_whitespace(c: char) -> (res: bool)
    ensures
        res == is_white_space(c),
{
    let u = c as u32;
    (0x09 <= u && u <= 0x0D) || u == 0x20 || u == 0x85 || u == 0xA0 || u == 0x1680 || (0x2000 <= u
        && u <= 0x200A) || u == 0x2028 || u == 0x2029 || u == 0x202F || u == 0x205F || u == 0x3000
}

/// Whether `c` is uppercase.
///
/// Wraps `char::is_uppercase`; on ASCII exactly `A-Z`.
#[verifier::external_body]
pub(crate) fn char_is_uppercase(c: char) -> (res: bool)
    ensures
        res == is_upper_case(c),
        (c as u32) < 128 ==> (res <==> ('A' <= c && c <= 'Z')),
{
    c.is_uppercase()
}

/// Whether `c` is lowercase.
///
/// Wraps `char::is_lowercase`; on ASCII exactly `a-z`.
#[verifier::external_body]
pub(crate) fn char_is_lowercase(c: char) -> (res: bool)
    ensures
        res == is_lower_case(c),
        (c as u32) < 128 ==> (res <==> ('a' <= c && c <= 'z')),
{
    c.is_lowercase()
}

/// Whether `c` is alphanumeric.
///
/// Wraps `char::is_alphanumeric`; on ASCII exactly `0-9A-Za-z`.
#[verifier::external_body]
pub(crate) fn char_is_alphanumeric(c: char) -> (res: bool)
    ensures
        res == is_alpha_numeric(c),
        (c as u32) < 128 ==> (res <==> (('0' <= c && c <= '9') || ('A' <= c && c <= 'Z') || (
        'a' <= c && c <= 'z'))),
{
    c.is_alphanumeric()
}

/// Lowercase a string.
///
/// Wraps `str::to_lowercase`. The result is named by `lowercase_of`; on an
/// all-ASCII string it lowercases `A-Z` and keeps every other character.
#[verifier::external_body]
pub(crate) fn to_lowercase(s: &str) -> (res: String)
    ensures
        res@ == lowercase_of(s@),
        all_ascii(s@) ==> res@ == s@.map_values(|c: char| ascii_lower_char(c)),
{
    s.to_lowercase()
}

/// Compare two string slices for equality, character by character.
pub(crate) fn str_eq(a: &str, b: &str) -> (res: bool)
    ensures
        res == (a@ == b@),
{
    let x = chars_of(a);
    let y = chars_of(b);
    if x.len() != y.len() {
        return false;
    }
    let mut i: usize = 0;
    while i < x.len()
        invariant
            i <= x@.len() == y@.len(),
            x@ == a@,
            y@ == b@,
            forall|k: int| 0 <= k < i ==> x@[k] == y@[k],
        decreases x@.len() - i,
    {
        if x[i] != y[i] {
            return false;
        }
        i = i + 1;
    }
    assert(x@ =~= y@);
    true
}

/// Append one character to a string.
///
/// Wraps `String::push`, which appends the character at the end.
#[verifier::external_body]
pub(crate) fn push_char(s: &mut String, c: char)
    ensures
        final(s)@ == old(s)@.push(c),
{
    s.push(c);
}

/// The characters of a string slice, in order.
pub fn chars_of(s: &str) -> (res: Vec<char>)
    ensures
        res@ == s@,
{
    broadcast use vstd::string::group_string_axioms;

    let mut res: Vec<char> = Vec::new();
    for c in it: s.chars()
        invariant
            res@ == it.seq().take(it.index()),
            it.seq() == s@,
    {
        res.push(c);
    }
    assert(res@ =~= s@);
    res
}

/// Build a string from a slice of a character vector.
pub fn string_from_chars(cs: &Vec<char>, lo: usize, hi: usize) -> (res: String)
    requires
        lo <= hi <= cs.len(),
    ensures
        res@ == cs@.subrange(lo as int, hi as int),
{
    let mut res = String::new();
    let mut i = lo;
    while i < hi
        invariant
            lo <= i <= hi <= cs.len(),
            res@ == cs@.subrange(lo as int, i as int),
        decreases hi - i,
    {
        push_char(&mut res, cs[i]);
        i = i + 1;
    }
    res
}

/// `s` without its leading whitespace.
pub open spec fn trim_start_seq(s: Seq<char>) -> Seq<char>
    decreases s.len(),
{
    if s.len() > 0 && is_white_space(s[0]) {
        trim_start_seq(s.drop_first())
    } else {
        s
    }
}

/// `s` without its trailing whitespace.
pub open spec fn trim_end_seq(s: Seq<char>) -> Seq<char>
    decreases s.len(),
{
    if s.len() > 0 && is_white_space(s.last()) {
        trim_end_seq(s.drop_last())
    } else {
        s
    }
}

/// `s` without leading and trailing whitespace, as `str::trim` gives it.
pub open spec fn trim_seq(s: Seq<char>) -> Seq<char> {
    trim_end_seq(trim_start_seq(s))
}

/// Leading whitespace removed, what is left is empty or starts with a
/// non-whitespace character.
proof fn lemma_trim_start_shape(s: Seq<char>)
    ensures
        trim_start_seq(s).len() > 0 ==> !is_white_space(trim_start_seq(s)[0]),
    decreases s.len(),
{
    if s.len() > 0 && is_white_space(s[0]) {
        lemma_trim_start_shape(s.drop_first());
    }
}

/// Trailing whitespace removed, what is left is a prefix of `s` that is
/// empty or ends with a non-whitespace character.
proof fn lemma_trim_end_shape(s: Seq<char>)
    ensures
        trim_end_seq(s) == s.take(trim_end_seq(s).len() as int),
        trim_end_seq(s).len() <= s.len(),
        trim_end_seq(s).len() > 0 ==> !is_white_space(trim_end_seq(s).last()),
    decreases s.len(),
{
    if s.len() > 0 && is_white_space(s.last()) {
        lemma_trim_end_shape(s.drop_last());
        assert(s.drop_last().take(trim_end_seq(s).len() as int) =~= s.take(
            trim_end_seq(s).len() as int,
        ));
    } else {
        assert(s.take(s.len() as int) =~= s);
    }
}

/// Trimming a trimmed text leaves it as it is.
pub proof fn lemma_trim_idempotent(s: Seq<char>)
    ensures
        trim_seq(trim_seq(s)) == trim_seq(s),
{
    let a = trim_start_seq(s);
    let t = trim_seq(s);
    lemma_trim_start_shape(s);
    lemma_trim_end_shape(a);
    if t.len() > 0 {
        assert(t[0] == a[0]);
        assert(trim_start_seq(t) == t);
        assert(trim_end_seq(t) == t);
    } else {
        assert(trim_start_seq(t) =~= t);
    }
}

/// Whether every character of `s` is whitespace.
pub open spec fn all_white_space(s: Seq<char>) -> bool {
    forall|i: int| 0 <= i < s.len() ==> is_white_space(#[trigger] s[i])
}

/// Dropping leading whitespace from position `i` on, when everything before
/// `i` is whitespace, gives the same as dropping it from the start.
proof fn lemma_trim_start_skip(s: Seq<char>, i: int)
    requires
        0 <= i <= s.len(),
        forall|k: int| 0 <= k < i ==> is_white_space(#[trigger] s[k]),
    ensures
        trim_start_seq(s) == trim_start_seq(s.subrange(i, s.len() as int)),
    decreases i,
{
    if i > 0 {
        assert(s.drop_first().subrange(i - 1, s.drop_first().len() as int) =~= s.subrange(
            i,
            s.len() as int,
        ));
        lemma_trim_start_skip(s.drop_first(), i - 1);
    } else {
        assert(s.subrange(0, s.len() as int) =~= s);
    }
}

/// Dropping trailing whitespace after position `j`, when everything from `j`
/// on is whitespace, gives the same as dropping it from the end.
proof fn lemma_trim_end_skip(s: Seq<char>, j: int)
    requires
        0 <= j <= s.len(),
        forall|k: int| j <= k < s.len() ==> is_white_space(#[trigger] s[k]),
    ensures
        trim_end_seq(s) == trim_end_seq(s.subrange(0, j)),
    decreases s.len() - j,
{
    if j < s.len() {
        assert(s.drop_last().subrange(0, j) =~= s.subrange(0, j));
        lemma_trim_end_skip(s.drop_last(), j);
    } else {
        assert(s.subrange(0, j) =~= s);
    }
}

/// Trimming the empty sequence, or an all-whitespace one, gives the empty
/// sequence; trimming a sequence that starts with a non-space is the identity
/// on its start.
proof fn lemma_trim_start_all_space(s: Seq<char>)
    requires
        all_white_space(s),
    ensures
        trim_start_seq(s).len() == 0,
    decreases s.len(),
{
    if s.len() > 0 {
        assert(all_white_space(s.drop_first())) by {
            assert forall|i: int| 0 <= i < s.drop_first().len() implies is_white_space(
                #[trigger] s.drop_first()[i],
            ) by {
                assert(s.drop_first()[i] == s[i + 1]);
            }
        }
        lemma_trim_start_all_space(s.drop_first());
    }
}

/// `str::trim`: the string without leading and trailing whitespace.
pub fn trim(s: &str) -> (res: String)
    ensures
        res@ == trim_seq(s@),
{
    let cs = chars_of(s);
    let n = cs.len();
    let mut lo: usize = 0;
    while lo < n && char_is_whitespace(cs[lo])
        invariant
            lo <= n == cs@.len(),
            cs@ == s@,
            forall|k: int| 0 <= k < lo ==> is_white_space(#[trigger] cs@[k]),
        decreases n - lo,
    {
        lo = lo + 1;
    }
    proof {
        lemma_trim_start_skip(s@, lo as int);
    }
    let ghost rest = s@.subrange(lo as int, n as int);
    if lo == n {
        proof {
            assert(rest.len() == 0);
        }
        return String::new();
    }
    assert(!is_white_space(rest[0]));
    assert(trim_start_seq(rest) == rest);
    let mut hi: usize = n;
    while hi > lo && char_is_whitespace(cs[hi - 1])
        invariant
            lo < n,
            lo <= hi <= n == cs@.len(),
            cs@ == s@,
            !is_white_space(cs@[lo as int]),
            forall|k: int| hi <= k < n ==> is_white_space(#[trigger] cs@[k]),
        decreases hi,
    {
        hi = hi - 1;
    }
    proof {
        lemma_trim_end_skip(rest, hi - lo);
        assert(rest.subrange(0, hi - lo) =~= s@.subrange(lo as int, hi as int));
        let t = s@.subrange(lo as int, hi as int);
        assert(t.len() > 0);
        assert(!is_white_space(t.last()));
    }
    string_from_chars(&cs, lo, hi)
}

/// Whether the string is empty once trimmed (`s.trim().is_empty()`).
pub fn is_blank(s: &str) -> (res: bool)
    ensures
        res == (trim_seq(s@).len() == 0),
        res == all_white_space(s@),
{
    let t = trim(s);
    proof {
        lemma_trim_empty_iff_all_space(s@);
    }
    t.as_str().is_empty()
}

/// A sequence trims to nothing exactly when all its characters are spaces.
pub proof fn lemma_trim_empty_iff_all_space(s: Seq<char>)
    ensures
        (trim_seq(s).len() == 0) == all_white_space(s),
    decreases s.len(),
{
    if all_white_space(s) {
        lemma_trim_start_all_space(s);
    } else {
        lemma_trim_start_nonempty(s);
    }
}

/// If some character is not a space, trimming leaves a non-empty sequence.
proof fn lemma_trim_start_nonempty(s: Seq<char>)
    requires
        !all_white_space(s),
    ensures
        trim_seq(s).len() > 0,
    decreases s.len(),
{
    if s.len() > 0 && is_white_space(s[0]) {
        assert(!all_white_space(s.drop_first())) by {
            let k = choose|k: int| 0 <= k < s.len() && !is_white_space(#[trigger] s[k]);
            assert(k > 0);
            assert(s.drop_first()[k - 1] == s[k]);
        }
        lemma_trim_start_nonempty(s.drop_first());
    } else {
        assert(s.len() > 0);
        assert(trim_start_seq(s) == s);
        lemma_trim_end_keeps_nonspace(s);
    }
}

/// Trimming the end of a sequence whose first character is not a space
/// leaves that character.
proof fn lemma_trim_end_keeps_nonspace(s: Seq<char>)
    requires
        s.len() > 0,
        !is_white_space(s[0]),
    ensures
        trim_end_seq(s).len() > 0,
    decreases s.len(),
{
    if is_white_space(s.last()) {
        assert(s.len() > 1);
        assert(s.drop_last()[0] == s[0]);
        lemma_trim_end_keeps_nonspace(s.drop_last());
    }
}

/// Whether `c` occurs in `s`.
pub fn contains_char(s: &str, c: char) -> (res: bool)
    ensures
        res == s@.contains(c),
{
    let cs = chars_of(s);
    let mut i: usize = 0;
    while i < cs.len()
        invariant
            i <= cs.len(),
            cs@ == s@,
            forall|k: int| 0 <= k < i ==> cs@[k] != c,
        decreases cs.len() - i,
    {
        if cs[i] == c {
            return true;
        }
        i = i + 1;
    }
    false
}


// ============================================================
// Words
// ============================================================

/// Index of the first whitespace character at or after `i`, or the length.
pub open spec fn word_end(s: Seq<char>, i: int) -> int
    decreases s.len() - i,
{
    if i < 0 || i >= s.len() {
        s.len() as int
    } else if is_white_space(s[i]) {
        i
    } else {
        word_end(s, i + 1)
    }
}

/// The words of `s` from position `i` on: maximal runs of non-whitespace
/// characters, in order (`str::split_whitespace`).
pub open spec fn words_from(s: Seq<char>, i: int) -> Seq<Seq<char>>
    decreases s.len() - i,
{
    if i < 0 || i >= s.len() {
        Seq::empty()
    } else if is_white_space(s[i]) {
        words_from(s, i + 1)
    } else if i < word_end(s, i) <= s.len() {
        seq![s.subrange(i, word_end(s, i))] + words_from(s, word_end(s, i))
    } else {
        Seq::empty()
    }
}

/// The words of `s`, in order.
pub open spec fn words(s: Seq<char>) -> Seq<Seq<char>> {
    words_from(s, 0)
}

/// `s` with later repetitions removed, keeping first occurrences in order.
pub open spec fn dedup(s: Seq<Seq<char>>) -> Seq<Seq<char>>
    decreases s.len(),
{
    if s.len() == 0 {
        Seq::empty()
    } else {
        let d = dedup(s.drop_last());
        if d.contains(s.last()) {
            d
        } else {
            d.push(s.last())
        }
    }
}

/// The distinct words of `s`, in order of first occurrence.
pub open spec fn distinct_words_of(s: Seq<char>) -> Seq<Seq<char>> {
    dedup(words(s))
}

/// The views of a vector of strings.
pub open spec fn views(v: Seq<String>) -> Seq<Seq<char>> {
    v.map_values(|w: String| w@)
}

/// `word_end` lies between its start and the length, and every character
/// it passes is not whitespace.
proof fn lemma_word_end_bounds(s: Seq<char>, i: int)
    requires
        0 <= i <= s.len(),
    ensures
        i <= word_end(s, i) <= s.len(),
        word_end(s, i) < s.len() ==> is_white_space(s[word_end(s, i)]),
        forall|k: int| i <= k < word_end(s, i) ==> !is_white_space(#[trigger] s[k]),
    decreases s.len() - i,
{
    if i < s.len() && !is_white_space(s[i]) {
        lemma_word_end_bounds(s, i + 1);
    }
}

/// The words of a string (`str::split_whitespace`).
pub fn split_whitespace(s: &str) -> (res: Vec<String>)
    ensures
        views(res@) == words(s@),
{
    let cs = chars_of(s);
    let n = cs.len();
    let mut res: Vec<String> = Vec::new();
    let mut i: usize = 0;
    while i < n
        invariant
            cs@ == s@,
            n == cs@.len(),
            i <= n,
            views(res@) + words_from(cs@, i as int) == words(cs@),
        decreases n - i,
    {
        if char_is_whitespace(cs[i]) {
            i = i + 1;
        } else {
            proof {
                lemma_word_end_bounds(cs@, i as int);
            }
            let mut j = i;
            while j < n && !char_is_whitespace(cs[j])
                invariant
                    i <= j <= n == cs@.len(),
                    j <= word_end(cs@, i as int),
                    word_end(cs@, i as int) <= n,
                    word_end(cs@, i as int) < n ==> is_white_space(cs@[word_end(cs@, i as int)]),
                    forall|k: int| i <= k < word_end(cs@, i as int) ==> !is_white_space(
                        #[trigger] cs@[k],
                    ),
                decreases n - j,
            {
                j = j + 1;
            }
            assert(j == word_end(cs@, i as int));
            let w = string_from_chars(&cs, i, j);
            proof {
                assert(words_from(cs@, i as int) == seq![cs@.subrange(i as int, j as int)]
                    + words_from(cs@, j as int));
                assert(views(res@.push(w)) =~= views(res@).push(w@));
            }
            res.push(w);
            i = j;
        }
    }
    res
}

/// Whether a string equal to `w` occurs in `v`.
pub fn contains_string(v: &Vec<String>, w: &String) -> (res: bool)
    ensures
        res == views(v@).contains(w@),
{
    let mut k: usize = 0;
    while k < v.len()
        invariant
            k <= v@.len(),
            forall|m: int| 0 <= m < k ==> v@[m]@ != w@,
        decreases v@.len() - k,
    {
        if v[k] == *w {
            assert(views(v@)[k as int] == w@);
            return true;
        }
        k = k + 1;
    }
    assert forall|m: int| 0 <= m < views(v@).len() implies views(v@)[m] != w@ by {}
    false
}

/// The distinct words of a string, in order of first occurrence.
pub fn distinct_words(s: &str) -> (res: Vec<String>)
    ensures
        views(res@) == distinct_words_of(s@),
{
    let all = split_whitespace(s);
    let mut res: Vec<String> = Vec::new();
    let mut i: usize = 0;
    while i < all.len()
        invariant
            i <= all@.len(),
            views(all@) == words(s@),
            views(res@) == dedup(views(all@).take(i as int)),
        decreases all@.len() - i,
    {
        let ghost pre = views(all@).take(i as int);
        assert(views(all@).take(i + 1).drop_last() =~= pre);
        assert(views(all@).take(i + 1).last() == all@[i as int]@);
        if !contains_string(&res, &all[i]) {
            proof {
                assert(views(res@.push(all@[i as int])) =~= views(res@).push(all@[i as int]@));
            }
            res.push(all[i].clone());
        }
        i = i + 1;
    }
    assert(views(all@).take(all@.len() as int) =~= views(all@));
    res
}

/// How many words of `a` also occur in `b`.
pub open spec fn shared_count(a: Seq<Seq<char>>, b: Seq<Seq<char>>) -> nat
    decreases a.len(),
{
    if a.len() == 0 {
        0
    } else {
        shared_count(a.drop_last(), b) + if b.contains(a.last()) {
            1nat
        } else {
            0nat
        }
    }
}

/// A count of shared words never exceeds the words counted.
pub proof fn lemma_shared_count_bound(a: Seq<Seq<char>>, b: Seq<Seq<char>>)
    ensures
        shared_count(a, b) <= a.len(),
    decreases a.len(),
{
    if a.len() > 0 {
        lemma_shared_count_bound(a.drop_last(), b);
    }
}

/// Number of words of `a` that occur in `b`.
pub fn count_shared(a: &Vec<String>, b: &Vec<String>) -> (res: usize)
    ensures
        res == shared_count(views(a@), views(b@)),
{
    let mut c: usize = 0;
    let mut i: usize = 0;
    while i < a.len()
        invariant
            i <= a@.len(),
            c == shared_count(views(a@).take(i as int), views(b@)),
            c <= i,
        decreases a@.len() - i,
    {
        assert(views(a@).take(i + 1).drop_last() =~= views(a@).take(i as int));
        assert(views(a@).take(i + 1).last() == a@[i as int]@);
        if contains_string(b, &a[i]) {
            c = c + 1;
        }
        i = i + 1;
    }
    assert(views(a@).take(a@.len() as int) =~= views(a@));
    c
}


// ============================================================
// Ordering of strings
// ============================================================

/// Lexicographic order on byte sequences: `x` is a prefix of `y`, or at the
/// first difference `x` has the smaller byte.
pub open spec fn bytes_lex_le(x: Seq<u8>, y: Seq<u8>) -> bool
    decreases x.len(),
{
    if x.len() == 0 {
        true
    } else if y.len() == 0 {
        false
    } else if x[0] != y[0] {
        x[0] < y[0]
    } else {
        bytes_lex_le(x.drop_first(), y.drop_first())
    }
}

/// The UTF-8 bytes of a character sequence.
pub open spec fn utf8_bytes(s: Seq<char>) -> Seq<u8> {
    vstd::utf8::encode_utf8(s)
}

/// The number of UTF-8 bytes of a string (`str::len`).
pub fn byte_len(s: &str) -> (n: usize)
    ensures
        n == utf8_bytes(s@).len(),
{
    broadcast use vstd::slice::group_slice_axioms;

    let b = s.as_bytes();
    b.len()
}

/// The message `std::str::Utf8Error` renders for bytes that are not UTF-8.
pub uninterp spec fn utf8_error_text(bytes: Seq<u8>) -> Seq<char>;

/// The text `String::from_utf8_lossy` makes of some bytes.
pub uninterp spec fn lossy_text(bytes: Seq<u8>) -> Seq<char>;

/// Decode UTF-8 bytes.
///
/// Wraps `std::str::from_utf8`, which succeeds exactly on valid UTF-8 and
/// then borrows the very bytes it was given; on failure the error's message
/// is returned (named by `utf8_error_text`).
#[verifier::external_body]
pub(crate) fn str_from_utf8(bytes: &[u8]) -> (res: Result<&str, String>)
    ensures
        match res {
            Ok(s) => vstd::utf8::valid_utf8(bytes@) && utf8_bytes(s@) == bytes@,
            Err(m) => !vstd::utf8::valid_utf8(bytes@) && m@ == utf8_error_text(bytes@),
        },
{
    match std::str::from_utf8(bytes) {
        Ok(s) => Ok(s),
        Err(e) => Err(e.to_string()),
    }
}

/// Decode bytes as UTF-8, replacing invalid sequences.
///
/// Wraps `String::from_utf8_lossy`: the result is named by `lossy_text`;
/// valid UTF-8 comes back unchanged.
#[verifier::external_body]
pub(crate) fn from_utf8_lossy(bytes: &[u8]) -> (res: String)
    ensures
        res@ == lossy_text(bytes@),
        vstd::utf8::valid_utf8(bytes@) ==> utf8_bytes(res@) == bytes@,
{
    String::from_utf8_lossy(bytes).into_owned()
}

/// The character of a decimal digit.
pub open spec fn digit_char(d: nat) -> char {
    (48 + d) as char
}

/// The decimal numeral of `n`, without leading zeros.
pub open spec fn decimal(n: nat) -> Seq<char>
    decreases n,
{
    if n < 10 {
        seq![digit_char(n)]
    } else {
        decimal(n / 10).push(digit_char(n % 10))
    }
}

/// The character of a decimal digit.
fn digit_of(d: u64) -> (c: char)
    requires
        d < 10,
    ensures
        c == digit_char(d as nat),
{
    match d {
        0 => '0',
        1 => '1',
        2 => '2',
        3 => '3',
        4 => '4',
        5 => '5',
        6 => '6',
        7 => '7',
        8 => '8',
        _ => '9',
    }
}

/// Append the decimal numeral of `n`.
pub fn push_decimal(out: &mut String, n: u64)
    ensures
        final(out)@ == old(out)@ + decimal(n as nat),
    decreases n,
{
    if n >= 10 {
        push_decimal(out, n / 10);
    }
    push_char(out, digit_of(n % 10));
    proof {
        if n < 10 {
            assert(old(out)@ + decimal(n as nat) =~= old(out)@.push(digit_char(n as nat)));
        } else {
            assert(old(out)@ + decimal(n as nat) =~= (old(out)@ + decimal((n / 10) as nat)).push(
                digit_char((n % 10) as nat),
            ));
        }
    }
}

/// The decimal numeral of `n`.
pub fn to_decimal(n: u64) -> (res: String)
    ensures
        res@ == decimal(n as nat),
{
    let mut s = String::new();
    push_decimal(&mut s, n);
    assert(s@ =~= decimal(n as nat));
    s
}

/// Whether `c` is an ASCII decimal digit.
pub open spec fn is_digit(c: char) -> bool {
    '0' <= c <= '9'
}

/// The number a string of decimal digits denotes.
pub open spec fn digits_value(s: Seq<char>) -> nat
    decreases s.len(),
{
    if s.len() == 0 {
        0
    } else {
        digits_value(s.drop_last()) * 10 + ((s.last() as int) - 48) as nat
    }
}

/// What `str::parse::<usize>` gives: an optional `+` and at least one
/// decimal digit, with nothing else, denoting a number that fits.
pub open spec fn spec_parse_usize(s: Seq<char>) -> Option<usize> {
    let d = strip_plus(s);
    if d.len() > 0 && (forall|i: int| 0 <= i < d.len() ==> is_digit(#[trigger] d[i]))
        && digits_value(d) <= usize::MAX {
        Some(digits_value(d) as usize)
    } else {
        None
    }
}

/// `s` without one leading `+`.
pub open spec fn strip_plus(s: Seq<char>) -> Seq<char> {
    if s.len() > 0 && s[0] == '+' {
        s.drop_first()
    } else {
        s
    }
}

/// A number that does not fit, or a character that is not a digit, makes
/// the parse fail.
proof fn lemma_parse_fails(s: Seq<char>, j: int)
    requires
        0 <= j < strip_plus(s).len(),
        !is_digit(strip_plus(s)[j]) || (digits_value(strip_plus(s).take(j + 1)) > usize::MAX
            && forall|k: int| 0 <= k <= j ==> is_digit(#[trigger] strip_plus(s)[k])),
    ensures
        spec_parse_usize(s) is None,
{
    let d = strip_plus(s);
    if forall|k: int| 0 <= k < d.len() ==> is_digit(#[trigger] d[k]) {
        assert(is_digit(d[j]));
        lemma_digits_value_monotone(d, j + 1);
    }
}

/// More digits never denote a smaller number.
proof fn lemma_digits_value_monotone(s: Seq<char>, k: int)
    requires
        0 <= k <= s.len(),
        forall|i: int| 0 <= i < s.len() ==> is_digit(#[trigger] s[i]),
    ensures
        digits_value(s.take(k)) <= digits_value(s),
    decreases s.len() - k,
{
    if k < s.len() {
        assert(s.drop_last().take(k) =~= s.take(k));
        lemma_digits_value_monotone(s.drop_last(), k);
    } else {
        assert(s.take(k) =~= s);
    }
}

/// Parse a decimal number as `str::parse::<usize>` does.
pub fn parse_usize(s: &str) -> (res: Option<usize>)
    ensures
        res == spec_parse_usize(s@),
{
    let cs = chars_of(s);
    let n = cs.len();
    let start: usize = if n > 0 && cs[0] == '+' {
        1
    } else {
        0
    };
    let ghost d = strip_plus(s@);
    assert(d =~= cs@.subrange(start as int, n as int));
    if start == n {
        return None;
    }
    let mut acc: usize = 0;
    let mut i: usize = start;
    while i < n
        invariant
            cs@ == s@,
            n == cs@.len(),
            start <= i <= n,
            d == strip_plus(s@),
            d == cs@.subrange(start as int, n as int),
            forall|k: int| 0 <= k < i - start ==> is_digit(#[trigger] d[k]),
            acc == digits_value(d.take(i - start)),
        decreases n - i,
    {
        let c = cs[i];
        if !('0' <= c && c <= '9') {
            proof {
                lemma_parse_fails(s@, i - start);
            }
            return None;
        }
        let v: usize = (c as u32 - 48) as usize;
        proof {
            assert(d.take(i - start + 1).drop_last() =~= d.take(i - start));
            assert(d.take(i - start + 1).last() == c);
        }
        let m = acc.checked_mul(10);
        if m.is_none() {
            proof {
                assert(digits_value(d.take(i - start + 1)) > usize::MAX);
                assert(is_digit(d[i - start]));
                lemma_parse_fails(s@, i - start);
            }
            return None;
        }
        let a = m.unwrap().checked_add(v);
        if a.is_none() {
            proof {
                assert(digits_value(d.take(i - start + 1)) > usize::MAX);
                assert(is_digit(d[i - start]));
                lemma_parse_fails(s@, i - start);
            }
            return None;
        }
        acc = a.unwrap();
        i = i + 1;
    }
    assert(d.take(n - start) =~= d);
    Some(acc)
}

/// The numeral of a number is all digits and denotes that number.
proof fn lemma_decimal_digits(n: nat)
    ensures
        decimal(n).len() > 0,
        forall|i: int| 0 <= i < decimal(n).len() ==> is_digit(#[trigger] decimal(n)[i]),
        digits_value(decimal(n)) == n,
    decreases n,
{
    assert((digit_char(n % 10) as int) == 48 + n % 10);
    if n >= 10 {
        lemma_decimal_digits(n / 10);
        let d = decimal(n);
        assert(d.drop_last() =~= decimal(n / 10));
        assert(d.last() == digit_char(n % 10));
        assert(digits_value(d) == digits_value(decimal(n / 10)) * 10 + ((d.last() as int) - 48));
        assert((n / 10) * 10 + n % 10 == n);
        assert(digits_value(decimal(n / 10)) == n / 10);
        assert(digits_value(d) == n);
        assert forall|i: int| 0 <= i < d.len() implies is_digit(#[trigger] d[i]) by {
            if i < d.len() - 1 {
                assert(d[i] == decimal(n / 10)[i]);
            }
        }
    } else {
        assert(decimal(n).drop_last() =~= Seq::<char>::empty());
        assert(n % 10 == n);
        assert(digits_value(Seq::<char>::empty()) == 0);
        assert(decimal(n).last() == digit_char(n));
        assert(digits_value(decimal(n)) == n);
    }
}

/// Parsing the decimal numeral of a number gives the number back.
pub proof fn lemma_parse_decimal_roundtrip(n: usize)
    ensures
        spec_parse_usize(decimal(n as nat)) == Some(n),
{
    lemma_decimal_digits(n as nat);
    assert(strip_plus(decimal(n as nat)) == decimal(n as nat));
}

/// Whether `a <= b` for string slices: their bytes compared
/// lexicographically, as `str` orders them.
pub(crate) fn str_le(a: &str, b: &str) -> (res: bool)
    ensures
        res == bytes_lex_le(utf8_bytes(a@), utf8_bytes(b@)),
{
    broadcast use vstd::slice::group_slice_axioms;

    let x = a.as_bytes();
    let y = b.as_bytes();
    assert(x@ == utf8_bytes(a@));
    assert(y@ == utf8_bytes(b@));
    let mut i: usize = 0;
    proof {
        assert(x@.skip(0) =~= x@);
        assert(y@.skip(0) =~= y@);
    }
    while i < x.len() && i < y.len()
        invariant
            i <= x@.len(),
            i <= y@.len(),
            x@ == utf8_bytes(a@),
            y@ == utf8_bytes(b@),
            bytes_lex_le(x@, y@) == bytes_lex_le(x@.skip(i as int), y@.skip(i as int)),
        decreases x@.len() - i,
    {
        if x[i] != y[i] {
            return x[i] < y[i];
        }
        proof {
            assert(x@.skip(i as int).drop_first() =~= x@.skip(i + 1));
            assert(y@.skip(i as int).drop_first() =~= y@.skip(i + 1));
        }
        i = i + 1;
    }
    i == x.len()
}

/// The byte order is total and antisymmetric.
pub proof fn lemma_bytes_lex_total(x: Seq<u8>, y: Seq<u8>)
    ensures
        bytes_lex_le(x, y) || bytes_lex_le(y, x),
        bytes_lex_le(x, y) && bytes_lex_le(y, x) ==> x == y,
    decreases x.len(),
{
    if x.len() > 0 && y.len() > 0 && x[0] == y[0] {
        lemma_bytes_lex_total(x.drop_first(), y.drop_first());
        if x.drop_first() == y.drop_first() {
            assert(x =~= seq![x[0]] + x.drop_first());
            assert(y =~= seq![y[0]] + y.drop_first());
        }
    } else if x.len() == 0 && y.len() == 0 {
        assert(x =~= y);
    }
}

/// Two strings with the same UTF-8 bytes are the same string.
pub proof fn lemma_utf8_bytes_injective(a: Seq<char>, b: Seq<char>)
    requires
        utf8_bytes(a) == utf8_bytes(b),
    ensures
        a == b,
{
    vstd::utf8::encode_utf8_decode_utf8(a);
    vstd::utf8::encode_utf8_decode_utf8(b);
}


// ============================================================
// Prefixes and suffixes
// ============================================================

/// Whether `s` starts with `p`.
pub open spec fn starts_with(s: Seq<char>, p: Seq<char>) -> bool {
    p.len() <= s.len() && s.take(p.len() as int) == p
}

/// Whether `s` ends with `p`.
pub open spec fn ends_with(s: Seq<char>, p: Seq<char>) -> bool {
    p.len() <= s.len() && s.skip(s.len() - p.len()) == p
}

/// Whether `cs[i..]` starts with `p` (`p` given by its characters).
pub fn has_prefix_at(cs: &Vec<char>, i: usize, p: &Vec<char>) -> (res: bool)
    requires
        i <= cs@.len(),
    ensures
        res == starts_with(cs@.skip(i as int), p@),
{
    let n = cs.len();
    if p.len() > n - i {
        return false;
    }
    let mut k: usize = 0;
    while k < p.len()
        invariant
            n == cs@.len(),
            i + p@.len() <= n,
            k <= p@.len(),
            forall|m: int| 0 <= m < k ==> cs@[i + m] == p@[m],
        decreases p@.len() - k,
    {
        if cs[i + k] != p[k] {
            assert(cs@.skip(i as int).take(p@.len() as int)[k as int] != p@[k as int]);
            return false;
        }
        k = k + 1;
    }
    assert(cs@.skip(i as int).take(p@.len() as int) =~= p@);
    true
}

/// `str::starts_with` for a string pattern.
pub fn str_starts_with(s: &str, p: &str) -> (res: bool)
    ensures
        res == starts_with(s@, p@),
{
    let cs = chars_of(s);
    let ps = chars_of(p);
    assert(cs@.skip(0) =~= cs@);
    has_prefix_at(&cs, 0, &ps)
}

/// `str::ends_with` for a string pattern.
pub fn str_ends_with(s: &str, p: &str) -> (res: bool)
    ensures
        res == ends_with(s@, p@),
{
    let cs = chars_of(s);
    let ps = chars_of(p);
    if ps.len() > cs.len() {
        return false;
    }
    let r = has_prefix_at(&cs, cs.len() - ps.len(), &ps);
    assert(cs@.skip(cs@.len() - ps@.len()).take(ps@.len() as int) =~= cs@.skip(
        cs@.len() - ps@.len(),
    ));
    r
}

} // verus!

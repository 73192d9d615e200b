//! Search request parsing.

use crate::memory::model::{Provenance, ReviewStatus, Visibility};
use crate::text::{contains_string, dedup, lowercase_of, str_eq, to_lowercase, trim, trim_seq, views};
use vstd::prelude::*;

verus! {

/// Search mode.
#[derive(Debug, Clone, Copy, PartialEq, Eq, Structural, Default)]
pub enum SearchMode {
    /// Semantic vector search only.
    Semantic,
    /// Full-text search only.
    Fulltext,
    /// Semantic and full-text search fused (the default).
    #[default]
    Hybrid,
}

/// The mode a (lowercased) name selects; unknown names select hybrid.
pub open spec fn mode_of_lowercase(s: Seq<char>) -> SearchMode {
    if s == "semantic"@ {
        SearchMode::Semantic
    } else if s == "fulltext"@ {
        SearchMode::Fulltext
    } else {
        SearchMode::Hybrid
    }
}

impl SearchMode {
    /// Parse a mode name case-insensitively; unknown names give hybrid.
    pub fn parse_str(s: &str) -> (res: Self)
        ensures
            res == mode_of_lowercase(lowercase_of(s@)),
    {
        let lower = to_lowercase(s);
        if str_eq(lower.as_str(), "semantic") {
            SearchMode::Semantic
        } else if str_eq(lower.as_str(), "fulltext") {
            SearchMode::Fulltext
        } else {
            SearchMode::Hybrid
        }
    }
}

/// Default number of search results.
pub fn default_limit() -> (res: usize)
    ensures
        res == 20,
{
    20
}

/// Requested page size: the given limit, 20 when absent, at most `max`.
pub fn page_limit(limit: Option<usize>, max: usize) -> (res: usize)
    ensures
        res == (match limit {
            Some(l) => if l < max {
                l
            } else {
                max
            },
            None => if 20 < max {
                20
            } else {
                max
            },
        }),
{
    let l = match limit {
        Some(l) => l,
        None => 20,
    };
    if l < max {
        l
    } else {
        max
    }
}

/// The comma-separated pieces of `s`.
pub open spec fn comma_pieces_from(s: Seq<char>, start: int, i: int) -> Seq<Seq<char>>
    decreases s.len() - i,
{
    if i < start || i > s.len() || start < 0 {
        Seq::empty()
    } else if i == s.len() {
        seq![s.subrange(start, i)]
    } else if s[i] == ',' {
        seq![s.subrange(start, i)] + comma_pieces_from(s, i + 1, i + 1)
    } else {
        comma_pieces_from(s, start, i + 1)
    }
}

/// The provenances named in a list of pieces, each trimmed; pieces that
/// name none are skipped.
pub open spec fn provenances_of(pieces: Seq<Seq<char>>) -> Seq<Provenance>
    decreases pieces.len(),
{
    if pieces.len() == 0 {
        Seq::empty()
    } else {
        let rest = provenances_of(pieces.drop_last());
        match Provenance::spec_parse(trim_seq(pieces.last())) {
            Some(p) => rest.push(p),
            None => rest,
        }
    }
}

/// Parse a comma-separated provenance filter such as `"human, ai"`;
/// unknown names are skipped.
pub fn parse_provenance_list(s: &str) -> (res: Vec<Provenance>)
    ensures
        res@ == provenances_of(comma_pieces_from(s@, 0, 0)),
{
    let cs = crate::text::chars_of(s);
    let n = cs.len();
    let mut res: Vec<Provenance> = Vec::new();
    let mut start: usize = 0;
    let mut i: usize = 0;
    let ghost mut done: Seq<Seq<char>> = Seq::empty();
    while i < n
        invariant
            cs@ == s@,
            n == cs@.len(),
            start <= i <= n,
            res@ == provenances_of(done),
            comma_pieces_from(s@, 0, 0) == done + comma_pieces_from(s@, start as int, i as int),
        decreases n - i,
    {
        if cs[i] == ',' {
            let piece = crate::text::string_from_chars(&cs, start, i);
            push_provenance(&mut res, piece.as_str(), Ghost(done));
            proof {
                assert(comma_pieces_from(s@, start as int, i as int) == seq![piece@]
                    + comma_pieces_from(s@, i + 1, i + 1));
                assert(done + comma_pieces_from(s@, start as int, i as int) =~= done.push(piece@)
                    + comma_pieces_from(s@, i + 1, i + 1));
                done = done.push(piece@);
            }
            start = i + 1;
        }
        i = i + 1;
    }
    let piece = crate::text::string_from_chars(&cs, start, n);
    push_provenance(&mut res, piece.as_str(), Ghost(done));
    proof {
        assert(comma_pieces_from(s@, start as int, n as int) == seq![piece@]);
        assert(done + seq![piece@] =~= done.push(piece@));
    }
    res
}

/// Append the provenance that a trimmed piece names, if any.
fn push_provenance(res: &mut Vec<Provenance>, piece: &str, Ghost(done): Ghost<Seq<Seq<char>>>)
    requires
        old(res)@ == provenances_of(done),
    ensures
        final(res)@ == provenances_of(done.push(piece@)),
{
    let t = trim(piece);
    proof {
        assert(done.push(piece@).drop_last() =~= done);
    }
    match Provenance::parse_str(t.as_str()) {
        Ok(p) => {
            res.push(p);
        },
        Err(_) => {},
    }
}

/// Whether a memory's labels pass a search's filters: its provenance is one
/// of those allowed (when that list is given and not empty), and its review
/// status and visibility are those asked for (when given). (A lowest trust
/// level is checked by the caller.)
pub open spec fn spec_matches_filters(
    provenance: Provenance,
    review_status: ReviewStatus,
    visibility: Visibility,
    provenances: Option<Seq<Provenance>>,
    status: Option<ReviewStatus>,
    vis: Option<Visibility>,
) -> bool {
    &&& match provenances {
        Some(ps) => ps.len() == 0 || ps.contains(provenance),
        None => true,
    }
    &&& match status {
        Some(s) => review_status == s,
        None => true,
    }
    &&& match vis {
        Some(v) => visibility == v,
        None => true,
    }
}

/// Check a memory's labels against a search's filters.
pub fn matches_filters(
    provenance: Provenance,
    review_status: ReviewStatus,
    visibility: Visibility,
    provenances: Option<&[Provenance]>,
    status: Option<ReviewStatus>,
    vis: Option<Visibility>,
) -> (res: bool)
    ensures
        res == spec_matches_filters(
            provenance,
            review_status,
            visibility,
            match provenances {
                Some(ps) => Some(ps@),
                None => None,
            },
            status,
            vis,
        ),
{
    match provenances {
        Some(ps) => {
            if ps.len() > 0 {
                let mut found = false;
                let mut k: usize = 0;
                while k < ps.len()
                    invariant
                        k <= ps@.len(),
                        found <==> exists|i: int| 0 <= i < k && ps@[i] == provenance,
                    decreases ps@.len() - k,
                {
                    if ps[k] == provenance {
                        found = true;
                    }
                    k = k + 1;
                }
                if !found {
                    return false;
                }
            }
        },
        None => {},
    }
    match status {
        Some(s) => {
            if review_status != s {
                return false;
            }
        },
        None => {},
    }
    match vis {
        Some(v) => {
            if visibility != v {
                return false;
            }
        },
        None => {},
    }
    true
}

// ============================================================
// Hybrid search bookkeeping
// ============================================================

/// How many results each engine is asked for: three times the end of the
/// requested page.
pub fn fetch_limit(limit: usize, offset: usize) -> (res: usize)
    requires
        (limit + offset) * 3 <= usize::MAX,
    ensures
        res == (limit + offset) * 3,
{
    (limit + offset) * 3
}

/// Which engines a mode runs: (semantic, full-text).
pub fn engines_for(mode: SearchMode) -> (res: (bool, bool))
    ensures
        res == match mode {
            SearchMode::Semantic => (true, false),
            SearchMode::Fulltext => (false, true),
            SearchMode::Hybrid => (true, true),
        },
{
    match mode {
        SearchMode::Semantic => (true, false),
        SearchMode::Fulltext => (false, true),
        SearchMode::Hybrid => (true, true),
    }
}

/// The position of the last occurrence of `x` in `s`.
pub open spec fn last_index_of(s: Seq<Seq<char>>, x: Seq<char>) -> Option<int>
    decreases s.len(),
{
    if s.len() == 0 {
        None
    } else if s.last() == x {
        Some(s.len() - 1)
    } else {
        last_index_of(s.drop_last(), x)
    }
}

/// A memory found by either engine, with its rank in each result list
/// (the later one when it occurs twice).
#[derive(Debug, Clone)]
pub struct RankedId {
    pub id: String,
    pub semantic_rank: Option<usize>,
    pub fulltext_rank: Option<usize>,
}

/// Whether a rank is the last position of an id in a list.
pub open spec fn rank_is(r: Option<usize>, s: Seq<Seq<char>>, x: Seq<char>) -> bool {
    match last_index_of(s, x) {
        Some(i) => r == Some(i as usize),
        None => r is None,
    }
}

/// The last position of `id` in `list`.
fn last_position(list: &Vec<String>, id: &String) -> (res: Option<usize>)
    ensures
        rank_is(res, views(list@), id@),
{
    let mut k: usize = list.len();
    assert(views(list@).take(k as int) =~= views(list@));
    while k > 0
        invariant
            k <= list@.len(),
            last_index_of(views(list@), id@) == last_index_of(views(list@).take(k as int), id@),
        decreases k,
    {
        proof {
            let t = views(list@).take(k as int);
            assert(t.drop_last() =~= views(list@).take(k - 1));
            assert(t.last() == list@[k - 1]@);
        }
        if list[k - 1] == *id {
            return Some(k - 1);
        }
        k = k - 1;
    }
    None
}

/// The memories both engines found, each once, in order of first
/// appearance (semantic results first), with their ranks in each list.
pub fn rank_union(semantic: &Vec<String>, fulltext: &Vec<String>) -> (res: Vec<RankedId>)
    ensures
        res@.len() == dedup(views(semantic@) + views(fulltext@)).len(),
        forall|k: int|
            0 <= k < res@.len() ==> {
                &&& (#[trigger] res@[k]).id@ == dedup(views(semantic@) + views(fulltext@))[k]
                &&& rank_is(res@[k].semantic_rank, views(semantic@), res@[k].id@)
                &&& rank_is(res@[k].fulltext_rank, views(fulltext@), res@[k].id@)
            },
{
    let mut all: Vec<String> = Vec::new();
    let mut i: usize = 0;
    while i < semantic.len()
        invariant
            i <= semantic@.len(),
            views(all@) == views(semantic@).take(i as int),
        decreases semantic@.len() - i,
    {
        all.push(semantic[i].clone());
        proof {
            assert(views(semantic@).take(i + 1) =~= views(semantic@).take(i as int).push(
                semantic@[i as int]@,
            ));
            assert(views(all@) =~= views(semantic@).take(i as int).push(semantic@[i as int]@));
        }
        i = i + 1;
    }
    let mut j: usize = 0;
    while j < fulltext.len()
        invariant
            j <= fulltext@.len(),
            views(all@) == views(semantic@) + views(fulltext@).take(j as int),
        decreases fulltext@.len() - j,
    {
        proof {
            assert(views(semantic@).take(semantic@.len() as int) =~= views(semantic@));
        }
        let ghost before = views(all@);
        all.push(fulltext[j].clone());
        proof {
            assert(views(all@) =~= before.push(fulltext@[j as int]@));
            assert(views(fulltext@).take(j + 1) =~= views(fulltext@).take(j as int).push(
                fulltext@[j as int]@,
            ));
            assert(views(all@) =~= views(semantic@) + views(fulltext@).take(j + 1));
        }
        j = j + 1;
    }
    proof {
        assert(views(semantic@).take(semantic@.len() as int) =~= views(semantic@));
        assert(views(fulltext@).take(fulltext@.len() as int) =~= views(fulltext@));
    }
    let ghost both = views(semantic@) + views(fulltext@);
    assert(views(all@) == both);
    let mut res: Vec<RankedId> = Vec::new();
    let mut seen: Vec<String> = Vec::new();
    let mut k: usize = 0;
    while k < all.len()
        invariant
            k <= all@.len(),
            views(all@) == both,
            views(seen@) == dedup(both.take(k as int)),
            res@.len() == seen@.len(),
            forall|m: int|
                0 <= m < res@.len() ==> {
                    &&& (#[trigger] res@[m]).id@ == views(seen@)[m]
                    &&& rank_is(res@[m].semantic_rank, views(semantic@), res@[m].id@)
                    &&& rank_is(res@[m].fulltext_rank, views(fulltext@), res@[m].id@)
                },
        decreases all@.len() - k,
    {
        let ghost pre = both.take(k as int);
        assert(both.take(k + 1).drop_last() =~= pre);
        assert(both.take(k + 1).last() == all@[k as int]@);
        if !contains_string(&seen, &all[k]) {
            let sr = last_position(semantic, &all[k]);
            let fr = last_position(fulltext, &all[k]);
            let ghost old_seen = views(seen@);
            res.push(RankedId { id: all[k].clone(), semantic_rank: sr, fulltext_rank: fr });
            seen.push(all[k].clone());
            proof {
                assert(views(seen@) =~= old_seen.push(all@[k as int]@));
            }
        }
        k = k + 1;
    }
    proof {
        assert(both.take(all@.len() as int) =~= both);
    }
    res
}

/// The part of a ranked list a page shows: from the offset (at most the
/// total) to `limit` items later (at most the total).
pub fn page_bounds(total: usize, offset: usize, limit: usize) -> (res: (usize, usize))
    ensures
        res.0 == if offset < total {
            offset
        } else {
            total
        },
        res.1 == if offset < total && limit < total - offset {
            offset + limit
        } else {
            total as int
        },
{
    if offset >= total {
        (total, total)
    } else if limit < total - offset {
        (offset, offset + limit)
    } else {
        (offset, total)
    }
}

} // verus!

//! AI proposals: types, the review workflow, and the heuristics a space
//! scan uses to find merge candidates and avoid duplicate conflict
//! proposals.

use crate::error::AppError;
use crate::text::{
    bytes_lex_le, contains_string, count_shared, distinct_words, distinct_words_of, lemma_bytes_lex_total,
    lemma_shared_count_bound, lemma_utf8_bytes_injective, shared_count, str_eq, str_le,
    utf8_bytes, views,
};
use vstd::prelude::*;

verus! {

/// Most memories a scan compares for merge candidates.
pub const MAX_SCAN_MEMORIES: usize = 500;

/// A memory is compared with at most this many following memories.
pub const MAX_MERGE_CANDIDATES: usize = 20;

/// Fewest distinct words a memory needs to be a merge candidate.
pub const MIN_WORDS_FOR_MERGE: usize = 3;

/// Memories not accessed for this many days are proposed for archiving.
pub const STALE_DAYS_THRESHOLD: i64 = 90;

/// Rejections of one proposal type are reported in batches of this size.
pub const CONSECUTIVE_REJECT_THRESHOLD: i64 = 3;

/// Proposal type.
#[derive(Debug, Clone, Copy, PartialEq, Eq, Structural)]
pub enum ProposalType {
    Merge,
    Link,
    Summarize,
    Conflict,
    Archive,
}

impl ProposalType {
    /// The wire name of the type.
    pub open spec fn spec_name(self) -> Seq<char> {
        match self {
            ProposalType::Merge => "merge"@,
            ProposalType::Link => "link"@,
            ProposalType::Summarize => "summarize"@,
            ProposalType::Conflict => "conflict"@,
            ProposalType::Archive => "archive"@,
        }
    }

    /// The wire name of the type (its lowercase serialized form).
    pub fn name(&self) -> (res: &'static str)
        ensures
            res@ == self.spec_name(),
    {
        match self {
            ProposalType::Merge => "merge",
            ProposalType::Link => "link",
            ProposalType::Summarize => "summarize",
            ProposalType::Conflict => "conflict",
            ProposalType::Archive => "archive",
        }
    }
}

/// Proposal status.
#[derive(Debug, Clone, Copy, PartialEq, Eq, Structural)]
pub enum ProposalStatus {
    Pending,
    Approved,
    Rejected,
    Modified,
}

impl ProposalStatus {
    /// The wire name of the status.
    pub open spec fn spec_name(self) -> Seq<char> {
        match self {
            ProposalStatus::Pending => "pending"@,
            ProposalStatus::Approved => "approved"@,
            ProposalStatus::Rejected => "rejected"@,
            ProposalStatus::Modified => "modified"@,
        }
    }

    /// The wire name of the status.
    pub fn name(&self) -> (res: &'static str)
        ensures
            res@ == self.spec_name(),
    {
        match self {
            ProposalStatus::Pending => "pending",
            ProposalStatus::Approved => "approved",
            ProposalStatus::Rejected => "rejected",
            ProposalStatus::Modified => "modified",
        }
    }
}

/// A batch review request.
#[derive(Debug, Clone)]
pub struct BatchAction {
    /// `"approve"` or `"reject"`; anything else does nothing.
    pub action: String,
    pub proposal_ids: Vec<String>,
    pub feedback: Option<String>,
}

/// The decision taken on a proposal.
#[derive(Debug, Clone)]
pub enum ReviewAction {
    Approve,
    /// Reject, with optional feedback.
    Reject(Option<String>),
    /// Adopt the proposal with replaced content.
    Modify(String),
}

/// What a successful review records on the proposal.
#[derive(Debug, Clone)]
pub struct ReviewOutcome {
    /// The new status.
    pub status: ProposalStatus,
    /// Who reviewed it.
    pub reviewer_id: String,
    /// Feedback stored with the review.
    pub review_feedback: Option<String>,
    /// Replacement content, for a modification.
    pub proposed_content: Option<String>,
}

/// The status a review action leads to.
pub open spec fn status_after(action: ReviewAction) -> ProposalStatus {
    match action {
        ReviewAction::Approve => ProposalStatus::Approved,
        ReviewAction::Reject(_) => ProposalStatus::Rejected,
        ReviewAction::Modify(_) => ProposalStatus::Modified,
    }
}

/// The feedback a review action stores.
pub open spec fn feedback_after(action: ReviewAction) -> Option<Seq<char>> {
    match action {
        ReviewAction::Approve => None,
        ReviewAction::Reject(Some(f)) => Some(f@),
        ReviewAction::Reject(None) => Some("no feedback"@),
        ReviewAction::Modify(c) => Some(c@),
    }
}

/// Whether an optional string has the given optional view.
pub open spec fn opt_view_is(s: Option<String>, v: Option<Seq<char>>) -> bool {
    match (s, v) {
        (Some(a), Some(b)) => a@ == b,
        (None, None) => true,
        _ => false,
    }
}

/// Review a proposal in `current` status: only a pending proposal can be
/// reviewed; any other is refused with a conflict.
pub fn review(current: ProposalStatus, action: ReviewAction, reviewer_id: &str) -> (res: Result<
    ReviewOutcome,
    AppError,
>)
    ensures
        current != ProposalStatus::Pending ==> (res matches Err(e) && e matches AppError::Conflict(
            m,
        ) && m@ == "proposal already reviewed"@),
        current == ProposalStatus::Pending ==> (res matches Ok(o) && o.status == status_after(action)
            && o.reviewer_id@ == reviewer_id@ && opt_view_is(
            o.review_feedback,
            feedback_after(action),
        ) && match action {
            ReviewAction::Modify(c) => (o.proposed_content matches Some(p) && p@ == c@),
            _ => o.proposed_content is None,
        }),
{
    if current != ProposalStatus::Pending {
        return Err(AppError::conflict("proposal already reviewed"));
    }
    let reviewer = String::from_str(reviewer_id);
    match action {
        ReviewAction::Approve => Ok(
            ReviewOutcome {
                status: ProposalStatus::Approved,
                reviewer_id: reviewer,
                review_feedback: None,
                proposed_content: None,
            },
        ),
        ReviewAction::Reject(feedback) => {
            let fb = match feedback {
                Some(f) => f,
                None => String::from_str("no feedback"),
            };
            Ok(
                ReviewOutcome {
                    status: ProposalStatus::Rejected,
                    reviewer_id: reviewer,
                    review_feedback: Some(fb),
                    proposed_content: None,
                },
            )
        },
        ReviewAction::Modify(content) => {
            let feedback = content.clone();
            Ok(
                ReviewOutcome {
                    status: ProposalStatus::Modified,
                    reviewer_id: reviewer,
                    review_feedback: Some(feedback),
                    proposed_content: Some(content),
                },
            )
        },
    }
}

/// A proposal is reviewed at most once: after any successful review,
/// every further review is refused.
pub proof fn lemma_review_once(first: ReviewAction, second: ReviewAction)
    ensures
        status_after(first) != ProposalStatus::Pending,
{
}

impl BatchAction {
    /// The review this batch applies to each of its proposals, if its action
    /// is one the engine knows.
    pub fn review_action(&self) -> (res: Option<ReviewAction>)
        ensures
            self.action@ == "approve"@ ==> (res matches Some(ReviewAction::Approve)),
            self.action@ == "reject"@ ==> (res matches Some(ReviewAction::Reject(f)) && match (
                f,
                self.feedback,
            ) {
                (Some(a), Some(b)) => a@ == b@,
                (None, None) => true,
                _ => false,
            }),
            self.action@ != "approve"@ && self.action@ != "reject"@ ==> res is None,
    {
        proof {
            reveal_strlit("approve");
            reveal_strlit("reject");
            assert("approve"@[0] != "reject"@[0]);
        }
        if str_eq(self.action.as_str(), "approve") {
            Some(ReviewAction::Approve)
        } else if str_eq(self.action.as_str(), "reject") {
            let feedback = match &self.feedback {
                Some(f) => Some(f.clone()),
                None => None,
            };
            Some(ReviewAction::Reject(feedback))
        } else {
            None
        }
    }
}

/// After the `count`-th rejection of a proposal type, whether another full
/// batch of consecutive rejections has been reached.
pub fn is_rejection_batch(count: i64) -> (res: bool)
    ensures
        res == (count >= CONSECUTIVE_REJECT_THRESHOLD && count % CONSECUTIVE_REJECT_THRESHOLD == 0),
{
    count >= CONSECUTIVE_REJECT_THRESHOLD && count % CONSECUTIVE_REJECT_THRESHOLD == 0
}

// ============================================================
// Conflict pair keys
// ============================================================

/// The key of an unordered pair of memory ids: the smaller id (by bytes),
/// `|`, the larger.
pub open spec fn spec_pair_key(a: Seq<char>, b: Seq<char>) -> Seq<char> {
    if bytes_lex_le(utf8_bytes(a), utf8_bytes(b)) {
        a + "|"@ + b
    } else {
        b + "|"@ + a
    }
}

/// Build a normalized, order-independent key for a memory pair so the same
/// contradiction is not proposed twice regardless of memory order.
pub fn pair_key(a: &str, b: &str) -> (res: String)
    ensures
        res@ == spec_pair_key(a@, b@),
{
    let (first, second) = if str_le(a, b) {
        (a, b)
    } else {
        (b, a)
    };
    let mut k = String::from_str(first);
    k.append("|");
    k.append(second);
    k
}

/// The pair key does not depend on the order of the pair.
pub proof fn lemma_pair_key_symmetric(a: Seq<char>, b: Seq<char>)
    ensures
        spec_pair_key(a, b) == spec_pair_key(b, a),
{
    lemma_bytes_lex_total(utf8_bytes(a), utf8_bytes(b));
    if bytes_lex_le(utf8_bytes(a), utf8_bytes(b)) && bytes_lex_le(utf8_bytes(b), utf8_bytes(a)) {
        lemma_utf8_bytes_injective(a, b);
    }
}

/// The keys of the pairs that pending conflict proposals already cover:
/// one per id list with at least two ids, from its first two.
pub open spec fn covered_keys(lists: Seq<Seq<Seq<char>>>) -> Set<Seq<char>>
    decreases lists.len(),
{
    if lists.len() == 0 {
        Set::empty()
    } else {
        let rest = covered_keys(lists.drop_last());
        let l = lists.last();
        if l.len() >= 2 {
            rest.insert(spec_pair_key(l[0], l[1]))
        } else {
            rest
        }
    }
}

/// The views of a list of id lists.
pub open spec fn id_lists_view(lists: Seq<Vec<String>>) -> Seq<Seq<Seq<char>>> {
    lists.map_values(|l: Vec<String>| views(l@))
}

/// The keys of the memory pairs that pending conflict proposals cover, each
/// once, from the id lists of the proposals.
pub fn conflict_pair_keys(lists: &Vec<Vec<String>>) -> (res: Vec<String>)
    ensures
        views(res@).to_set() == covered_keys(id_lists_view(lists@)),
        views(res@).no_duplicates(),
{
    let mut res: Vec<String> = Vec::new();
    let mut k: usize = 0;
    while k < lists.len()
        invariant
            k <= lists@.len(),
            views(res@).to_set() == covered_keys(id_lists_view(lists@).take(k as int)),
            views(res@).no_duplicates(),
        decreases lists@.len() - k,
    {
        proof {
            let t = id_lists_view(lists@).take(k + 1);
            assert(t.drop_last() =~= id_lists_view(lists@).take(k as int));
            assert(t.last() == views(lists@[k as int]@));
        }
        let l = &lists[k];
        if l.len() >= 2 {
            let key = pair_key(l[0].as_str(), l[1].as_str());
            proof {
                assert(views(l@)[0] == l@[0]@);
                assert(views(l@)[1] == l@[1]@);
            }
            if !contains_string(&res, &key) {
                let ghost before = views(res@);
                res.push(key);
                proof {
                    assert(views(res@) =~= before.push(key@));
                    before.lemma_push_to_set_commute(key@);
                }
            } else {
                proof {
                    assert(views(res@).to_set() =~= views(res@).to_set().insert(key@));
                }
            }
        }
        k = k + 1;
    }
    proof {
        assert(id_lists_view(lists@).take(lists@.len() as int) =~= id_lists_view(lists@));
    }
    res
}

/// The conflict candidates a scan proposes: those whose pair is not already
/// covered by a pending proposal, by index, in order.
pub fn fresh_conflicts(covered: &Vec<String>, pairs: &Vec<(String, String)>) -> (res: Vec<usize>)
    ensures
        res@.len() <= pairs@.len(),
        forall|i: int, j: int| 0 <= i < j < res@.len() ==> res@[i] < res@[j],
        forall|i: int| 0 <= i < res@.len() ==> res@[i] < pairs@.len(),
        forall|c: int|
            0 <= c < pairs@.len() ==> (res@.contains(c as usize) <==> !views(covered@).contains(
                spec_pair_key(pairs@[c].0@, pairs@[c].1@),
            )),
{
    let mut res: Vec<usize> = Vec::new();
    let mut c: usize = 0;
    while c < pairs.len()
        invariant
            c <= pairs@.len(),
            res@.len() <= c,
            forall|i: int, j: int| 0 <= i < j < res@.len() ==> res@[i] < res@[j],
            forall|i: int| 0 <= i < res@.len() ==> res@[i] < c,
            forall|d: int|
                0 <= d < c ==> (res@.contains(d as usize) <==> !views(covered@).contains(
                    spec_pair_key(pairs@[d].0@, pairs@[d].1@),
                )),
        decreases pairs@.len() - c,
    {
        let key = pair_key(pairs[c].0.as_str(), pairs[c].1.as_str());
        if !contains_string(covered, &key) {
            let ghost before = res@;
            res.push(c);
            proof {
                broadcast use vstd::seq_lib::lemma_seq_contains_after_push;

                assert(res@ == before.push(c));
                assert(!before.contains(c));
            }
        } else {
            proof {
                assert forall|i: int| 0 <= i < res@.len() implies res@[i] != c by {}
            }
        }
        c = c + 1;
    }
    res
}

/// Every id list with two ids has its pair's key covered.
proof fn lemma_covered_keys_has(lists: Seq<Seq<Seq<char>>>, p: int)
    requires
        0 <= p < lists.len(),
        lists[p].len() >= 2,
    ensures
        covered_keys(lists).contains(spec_pair_key(lists[p][0], lists[p][1])),
    decreases lists.len(),
{
    if p < lists.len() - 1 {
        lemma_covered_keys_has(lists.drop_last(), p);
    }
}

/// A conflict pair that a pending proposal already holds is not proposed
/// again by a later scan, in either order. `pending` are the source id
/// lists of the pending conflict proposals (those an earlier scan stored
/// and nobody has reviewed since), `covered` the keys `conflict_pair_keys`
/// gives for them, and `fresh` what `fresh_conflicts` selects among the
/// candidate `pairs` of the later scan.
pub proof fn lemma_pending_pair_not_reproposed(
    pending: Seq<Seq<Seq<char>>>,
    covered: Seq<Seq<char>>,
    pairs: Seq<(Seq<char>, Seq<char>)>,
    fresh: Seq<usize>,
    p: int,
    c: int,
)
    requires
        covered.to_set() == covered_keys(pending),
        forall|d: int|
            0 <= d < pairs.len() ==> (fresh.contains(d as usize) <==> !covered.contains(
                spec_pair_key(#[trigger] pairs[d].0, pairs[d].1),
            )),
        0 <= p < pending.len(),
        pending[p].len() >= 2,
        0 <= c < pairs.len(),
        (pairs[c].0 == pending[p][0] && pairs[c].1 == pending[p][1]) || (pairs[c].0
            == pending[p][1] && pairs[c].1 == pending[p][0]),
    ensures
        !fresh.contains(c as usize),
{
    lemma_covered_keys_has(pending, p);
    lemma_pair_key_symmetric(pending[p][0], pending[p][1]);
    assert(covered.to_set().contains(spec_pair_key(pairs[c].0, pairs[c].1)));
}

/// The last access time before which an accepted memory is proposed for
/// archiving: 90 days before `now`.
pub fn stale_cutoff(now: i64) -> (res: i64)
    requires
        now >= i64::MIN + STALE_DAYS_THRESHOLD * 86400,
    ensures
        res == now - STALE_DAYS_THRESHOLD * 86400,
{
    now - STALE_DAYS_THRESHOLD * 86400
}

// ============================================================
// Merge candidates
// ============================================================

/// A pair of memories a scan proposes to merge, with the numbers of
/// distinct words of each and of the words they share (their word-set
/// union has `first_words + second_words - shared_words` words).
#[derive(Debug, Clone, Copy)]
pub struct MergeCandidate {
    pub first: usize,
    pub second: usize,
    pub first_words: usize,
    pub second_words: usize,
    pub shared_words: usize,
}

/// Whether two memories' distinct word lists make them merge candidates:
/// each has at least three distinct words and more than three fifths of
/// all their distinct words are shared (Jaccard similarity above 0.6).
pub open spec fn merge_worthy(a: Seq<Seq<char>>, b: Seq<Seq<char>>) -> bool {
    let shared = shared_count(a, b);
    let union = a.len() + b.len() - shared;
    a.len() >= MIN_WORDS_FOR_MERGE && b.len() >= MIN_WORDS_FOR_MERGE && 5 * shared > 3 * union
}

/// Upper end (exclusive) of the partners the `i`-th memory is compared with.
pub open spec fn partner_end(n: int, i: int) -> int {
    if n < i + MAX_MERGE_CANDIDATES {
        n
    } else {
        i + MAX_MERGE_CANDIDATES
    }
}

/// Merge pairs `(i, j)` for partners `j` from `j0` on, in order.
pub open spec fn merge_pairs_row(ws: Seq<Seq<Seq<char>>>, i: int, j0: int) -> Seq<(int, int)>
    decreases partner_end(ws.len() as int, i) - j0,
{
    if j0 >= partner_end(ws.len() as int, i) || j0 < 0 || i < 0 {
        Seq::empty()
    } else if merge_worthy(ws[i], ws[j0]) {
        seq![(i, j0)] + merge_pairs_row(ws, i, j0 + 1)
    } else {
        merge_pairs_row(ws, i, j0 + 1)
    }
}

/// Merge pairs for the memories from `i` on (each memory but the last is
/// compared with the ones after it), in scan order.
pub open spec fn merge_pairs_from(ws: Seq<Seq<Seq<char>>>, i: int) -> Seq<(int, int)>
    decreases ws.len() - i,
{
    if i < 0 || i + 1 >= ws.len() {
        Seq::empty()
    } else {
        merge_pairs_row(ws, i, i + 1) + merge_pairs_from(ws, i + 1)
    }
}

/// The merge pairs of a list of memory contents, in scan order.
pub open spec fn spec_merge_pairs(contents: Seq<Seq<char>>) -> Seq<(int, int)> {
    merge_pairs_from(contents.map_values(|c: Seq<char>| distinct_words_of(c)), 0)
}

/// Whether a candidate list describes the given pairs of `contents`, with
/// its word counts.
pub open spec fn describes_pairs(
    res: Seq<MergeCandidate>,
    pairs: Seq<(int, int)>,
    contents: Seq<Seq<char>>,
) -> bool {
    &&& res.len() == pairs.len()
    &&& forall|k: int|
        0 <= k < res.len() ==> {
            let c = #[trigger] res[k];
            let a = distinct_words_of(contents[c.first as int]);
            let b = distinct_words_of(contents[c.second as int]);
            &&& c.first as int == pairs[k].0
            &&& c.second as int == pairs[k].1
            &&& c.first_words == a.len()
            &&& c.second_words == b.len()
            &&& c.shared_words == shared_count(a, b)
        }
}

/// Find the merge candidates among the memories of a space: every memory
/// but the last is compared with the following memories, at most
/// `MAX_MERGE_CANDIDATES - 1` of them, and a pair qualifies when both have
/// at least `MIN_WORDS_FOR_MERGE` distinct words and their word-set Jaccard
/// similarity exceeds 0.6.
///
/// The similarity is decided exactly on the word counts
/// (`5 * shared > 3 * union`); a caller that wants the ratio divides the
/// shared count by the union count.
pub fn merge_candidates(contents: &Vec<String>) -> (res: Vec<MergeCandidate>)
    ensures
        describes_pairs(res@, spec_merge_pairs(views(contents@)), views(contents@)),
{
    let n = contents.len();
    let ghost cv = views(contents@);
    let ghost ws = cv.map_values(|c: Seq<char>| distinct_words_of(c));
    let mut word_lists: Vec<Vec<String>> = Vec::new();
    let mut k: usize = 0;
    while k < n
        invariant
            k <= n == contents@.len(),
            cv == views(contents@),
            ws == cv.map_values(|c: Seq<char>| distinct_words_of(c)),
            word_lists@.len() == k,
            forall|m: int| 0 <= m < k ==> views(#[trigger] word_lists@[m]@) == ws[m],
        decreases n - k,
    {
        word_lists.push(distinct_words(contents[k].as_str()));
        k = k + 1;
    }
    let mut res: Vec<MergeCandidate> = Vec::new();
    if n < 2 {
        return res;
    }
    let mut i: usize = 0;
    while i + 1 < n
        invariant
            2 <= n == contents@.len() == word_lists@.len() == ws.len(),
            i + 1 <= n,
            cv == views(contents@),
            ws == cv.map_values(|c: Seq<char>| distinct_words_of(c)),
            forall|m: int| 0 <= m < n ==> views(#[trigger] word_lists@[m]@) == ws[m],
            describes_pairs(res@, merge_pairs_from(ws, 0).take(res@.len() as int), cv),
            merge_pairs_from(ws, 0) == merge_pairs_from(ws, 0).take(res@.len() as int)
                + merge_pairs_from(ws, i as int),
        decreases n - i,
    {
        let end = if n - i < MAX_MERGE_CANDIDATES {
            n
        } else {
            i + MAX_MERGE_CANDIDATES
        };
        let mut j = i + 1;
        let ghost before = res@.len() as int;
        assert(merge_pairs_from(ws, i as int) == merge_pairs_row(ws, i as int, i + 1)
            + merge_pairs_from(ws, i + 1));
        while j < end
            invariant
                2 <= n == contents@.len() == word_lists@.len() == ws.len(),
                i + 1 < n,
                end == partner_end(n as int, i as int),
                i + 1 <= j <= end <= n,
                cv == views(contents@),
                ws == cv.map_values(|c: Seq<char>| distinct_words_of(c)),
                forall|m: int| 0 <= m < n ==> views(#[trigger] word_lists@[m]@) == ws[m],
                before <= res@.len(),
                describes_pairs(res@, merge_pairs_from(ws, 0).take(res@.len() as int), cv),
                merge_pairs_from(ws, 0) == merge_pairs_from(ws, 0).take(res@.len() as int)
                    + merge_pairs_row(ws, i as int, j as int) + merge_pairs_from(ws, i + 1),
            decreases end - j,
        {
            let a = &word_lists[i];
            let b = &word_lists[j];
            let shared = count_shared(a, b);
            proof {
                lemma_shared_count_bound(views(a@), views(b@));
            }
            let ghost whole = merge_pairs_from(ws, 0);
            let ghost done = whole.take(res@.len() as int);
            let la = a.len();
            let lb = b.len();
            let worthy = la >= MIN_WORDS_FOR_MERGE && lb >= MIN_WORDS_FOR_MERGE && 8 * (
            shared as u128) > 3 * (la as u128) + 3 * (lb as u128);
            assert(worthy == merge_worthy(ws[i as int], ws[j as int]));
            if worthy {
                let cand = MergeCandidate {
                    first: i,
                    second: j,
                    first_words: la,
                    second_words: lb,
                    shared_words: shared,
                };
                proof {
                    assert(merge_pairs_row(ws, i as int, j as int) == seq![(i as int, j as int)]
                        + merge_pairs_row(ws, i as int, j + 1));
                    assert(whole.take(res@.len() as int + 1) =~= done.push((i as int, j as int)));
                    assert(whole =~= done.push((i as int, j as int)) + merge_pairs_row(
                        ws,
                        i as int,
                        j + 1,
                    ) + merge_pairs_from(ws, i + 1));
                }
                res.push(cand);
            } else {
                proof {
                    assert(merge_pairs_row(ws, i as int, j as int) == merge_pairs_row(
                        ws,
                        i as int,
                        j + 1,
                    ));
                }
            }
            j = j + 1;
        }
        assert(merge_pairs_row(ws, i as int, j as int) =~= Seq::<(int, int)>::empty());
        i = i + 1;
    }
    assert(merge_pairs_from(ws, i as int) =~= Seq::<(int, int)>::empty());
    assert(merge_pairs_from(ws, 0).take(res@.len() as int) =~= merge_pairs_from(ws, 0));
    res
}

/// Two memories with the same distinct words, at least three of them, are
/// always proposed for merging with each other when they are compared.
pub proof fn lemma_identical_words_merge(a: Seq<Seq<char>>)
    requires
        a.len() >= MIN_WORDS_FOR_MERGE,
        a.no_duplicates(),
    ensures
        merge_worthy(a, a),
{
    lemma_shared_with_self(a);
}

/// Every word of a list occurs in the list.
proof fn lemma_shared_with_self(a: Seq<Seq<char>>)
    ensures
        shared_count(a, a) == a.len(),
{
    lemma_shared_with_superset(a, a);
}

/// When every word of `a` occurs in `b`, all of `a` is shared.
proof fn lemma_shared_with_superset(a: Seq<Seq<char>>, b: Seq<Seq<char>>)
    requires
        forall|k: int| 0 <= k < a.len() ==> b.contains(#[trigger] a[k]),
    ensures
        shared_count(a, b) == a.len(),
    decreases a.len(),
{
    if a.len() > 0 {
        assert(b.contains(a[a.len() - 1]));
        assert forall|k: int| 0 <= k < a.drop_last().len() implies b.contains(
            #[trigger] a.drop_last()[k],
        ) by {
            assert(a.drop_last()[k] == a[k]);
        }
        lemma_shared_with_superset(a.drop_last(), b);
    }
}

/// A value is in a concatenation when it is in either part.
proof fn lemma_concat_contains(a: Seq<(int, int)>, b: Seq<(int, int)>, x: (int, int))
    ensures
        (a + b).contains(x) <==> (a.contains(x) || b.contains(x)),
{
    let c = a + b;
    if c.contains(x) {
        let k = choose|k: int| 0 <= k < c.len() && c[k] == x;
        if k < a.len() {
            assert(a[k] == x);
        } else {
            assert(b[k - a.len()] == x);
        }
    }
    if a.contains(x) {
        let k = choose|k: int| 0 <= k < a.len() && a[k] == x;
        assert(c[k] == x);
    }
    if b.contains(x) {
        let k = choose|k: int| 0 <= k < b.len() && b[k] == x;
        assert(c[k + a.len()] == x);
    }
}

/// The pairs of memory `i` from partner `j0` on.
proof fn lemma_row_contains(ws: Seq<Seq<Seq<char>>>, i: int, j0: int, x: (int, int))
    requires
        0 <= i,
        0 <= j0,
    ensures
        merge_pairs_row(ws, i, j0).contains(x) <==> (x.0 == i && j0 <= x.1 < partner_end(
            ws.len() as int,
            i,
        ) && merge_worthy(ws[i], ws[x.1])),
    decreases partner_end(ws.len() as int, i) - j0,
{
    if j0 < partner_end(ws.len() as int, i) {
        lemma_row_contains(ws, i, j0 + 1, x);
        let rest = merge_pairs_row(ws, i, j0 + 1);
        if merge_worthy(ws[i], ws[j0]) {
            lemma_concat_contains(seq![(i, j0)], rest, x);
            assert(seq![(i, j0)].contains(x) <==> x == (i, j0)) by {
                if x == (i, j0) {
                    assert(seq![(i, j0)][0] == x);
                }
            }
        }
    }
}

/// The pairs of the memories from `i0` on.
proof fn lemma_from_contains(ws: Seq<Seq<Seq<char>>>, i0: int, x: (int, int))
    requires
        0 <= i0,
    ensures
        merge_pairs_from(ws, i0).contains(x) <==> (i0 <= x.0 && x.0 < x.1 < partner_end(
            ws.len() as int,
            x.0,
        ) && merge_worthy(ws[x.0], ws[x.1])),
    decreases ws.len() - i0,
{
    if i0 + 1 < ws.len() {
        lemma_from_contains(ws, i0 + 1, x);
        lemma_row_contains(ws, i0, i0 + 1, x);
        lemma_concat_contains(merge_pairs_row(ws, i0, i0 + 1), merge_pairs_from(ws, i0 + 1), x);
    }
}

/// The merge candidates of a list of contents are exactly the pairs
/// `(i, j)`, `i < j`, fewer than `MAX_MERGE_CANDIDATES` positions apart,
/// whose distinct-word lists are merge-worthy: each memory is compared with
/// each of the next `MAX_MERGE_CANDIDATES - 1` memories, and with no other.
pub proof fn lemma_merge_pairs_exact(contents: Seq<Seq<char>>, i: int, j: int)
    ensures
        spec_merge_pairs(contents).contains((i, j)) <==> (0 <= i < j < contents.len() && j - i
            < MAX_MERGE_CANDIDATES && merge_worthy(
            distinct_words_of(contents[i]),
            distinct_words_of(contents[j]),
        )),
{
    let ws = contents.map_values(|c: Seq<char>| distinct_words_of(c));
    lemma_from_contains(ws, 0, (i, j));
    if 0 <= i < j < contents.len() {
        assert(ws[i] == distinct_words_of(contents[i]));
        assert(ws[j] == distinct_words_of(contents[j]));
    }
}

} // verus!

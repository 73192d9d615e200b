//! Per-room bookkeeping of a collaboration session: who is subscribed,
//! which identifier the next subscriber gets, the last awareness frame,
//! and where each incoming sync message has to go.
//!
//! The shared document itself and the outbound channels of the subscribers
//! are held by the application, keyed by the subscriber identifiers issued
//! here.

use crate::collab::protocol::{frame_overlong, is_frame_overlong, read_message, yjs_frame};
use vstd::prelude::*;

verus! {

/// Largest accepted WebSocket message, in bytes (16 MiB).
pub const MAX_WS_MESSAGE_SIZE: usize = 16777216;

/// Subscriber bookkeeping of one collaboration room.
pub struct RoomState {
    memory_id: String,
    subscribers: Vec<u64>,
    next_sub_id: u64,
    last_awareness: Vec<u8>,
}

/// Kind of a decoded sync-protocol message.
#[derive(Debug, Clone, Copy, PartialEq, Eq, Structural)]
pub enum SyncKind {
    /// A peer sends its state vector and asks for what it misses.
    SyncStep1,
    /// A peer answers with what we miss.
    SyncStep2,
    /// A document update.
    Update,
    /// A presence (awareness) update.
    Awareness,
    /// A peer asks for the current presence state.
    AwarenessQuery,
    /// An authentication message.
    Auth,
    /// An application-defined message.
    Custom,
}

/// What to do with an incoming message.
#[derive(Debug, Clone)]
pub enum RoomAction {
    /// Nothing to send.
    Nothing,
    /// Compute the document diff against the peer's state vector and send
    /// it (as a sync step 2 frame) to these subscribers.
    ReplyDiff { targets: Vec<u64> },
    /// Apply the update to the document, then forward the original frame to
    /// these subscribers.
    ApplyAndForward { targets: Vec<u64> },
    /// Send this frame to these subscribers.
    Send { frame: Vec<u8>, targets: Vec<u64> },
}

/// The subscribers of `subs` other than `exclude`, in order.
pub open spec fn targets_except(subs: Seq<u64>, exclude: Option<u64>) -> Seq<u64> {
    subs.filter(|id: u64| Some(id) != exclude)
}

/// The effect of routing a message of kind `kind` with payload `payload`
/// from subscriber `sender`: the room stays well formed, keeps its
/// subscribers, identifiers and memory, records an awareness payload, and
/// gives the action each kind calls for.
pub open spec fn routed(
    before: RoomState,
    after: RoomState,
    kind: SyncKind,
    payload: Seq<u8>,
    sender: u64,
    res: RoomAction,
) -> bool {
    &&& after.wf()
    &&& after.subs() == before.subs()
    &&& after.next_id() == before.next_id()
    &&& after.room_memory_id() == before.room_memory_id()
    &&& kind == SyncKind::Awareness ==> after.awareness() == payload
    &&& kind != SyncKind::Awareness ==> after.awareness() == before.awareness()
    &&& match kind {
        SyncKind::SyncStep1 => (res matches RoomAction::ReplyDiff { targets } && targets@
            == before.subs()),
        SyncKind::Update => (res matches RoomAction::ApplyAndForward { targets } && targets@
            == targets_except(before.subs(), Some(sender))),
        SyncKind::Awareness => (res matches RoomAction::Send { frame, targets } && frame@
            == payload && targets@ == targets_except(before.subs(), Some(sender))),
        SyncKind::AwarenessQuery => if before.awareness().len() > 0 {
            res matches RoomAction::Send { frame, targets } && frame@ == before.awareness()
                && targets@ == before.subs()
        } else {
            res is Nothing
        },
        _ => res is Nothing,
    }
}

impl RoomState {
    /// Subscriber identifiers, in order of joining.
    pub closed spec fn subs(&self) -> Seq<u64> {
        self.subscribers@
    }

    /// Identifier the next subscriber will get.
    pub closed spec fn next_id(&self) -> u64 {
        self.next_sub_id
    }

    /// The last awareness frame recorded (empty when none).
    pub closed spec fn awareness(&self) -> Seq<u8> {
        self.last_awareness@
    }

    /// The memory this room edits.
    pub closed spec fn room_memory_id(&self) -> Seq<char> {
        self.memory_id@
    }

    /// Well-formedness: subscriber identifiers are distinct, and every one
    /// was issued before the next identifier.
    pub open spec fn wf(&self) -> bool {
        &&& self.subs().no_duplicates()
        &&& 1 <= self.next_id()
        &&& forall|k: int| 0 <= k < self.subs().len() ==> 1 <= #[trigger] self.subs()[k] < self.next_id()
    }

    /// A new, empty room for a memory.
    pub fn new(memory_id: String) -> (res: Self)
        ensures
            res.wf(),
            res.subs() == Seq::<u64>::empty(),
            res.next_id() == 1,
            res.awareness() == Seq::<u8>::empty(),
            res.room_memory_id() == memory_id@,
    {
        RoomState {
            memory_id,
            subscribers: Vec::new(),
            next_sub_id: 1,
            last_awareness: Vec::new(),
        }
    }

    /// Whether another subscriber can still be given a fresh identifier.
    pub fn has_free_id(&self) -> (res: bool)
        ensures
            res == (self.next_id() < u64::MAX),
    {
        self.next_sub_id < u64::MAX
    }

    /// Register a subscriber; returns its unique identifier.
    pub fn add_subscriber(&mut self) -> (id: u64)
        requires
            old(self).wf(),
            old(self).next_id() < u64::MAX,
        ensures
            final(self).wf(),
            id == old(self).next_id(),
            !old(self).subs().contains(id),
            final(self).subs() == old(self).subs().push(id),
            final(self).next_id() == old(self).next_id() + 1,
            final(self).awareness() == old(self).awareness(),
            final(self).room_memory_id() == old(self).room_memory_id(),
    {
        let id = self.next_sub_id;
        self.next_sub_id = self.next_sub_id + 1;
        self.subscribers.push(id);
        proof {
            assert(self.subscribers@.drop_last() == old(self).subscribers@);
            assert forall|k: int| 0 <= k < self.subscribers@.len() implies 1
                <= #[trigger] self.subscribers@[k] < self.next_sub_id by {
                if k < old(self).subscribers@.len() {
                    assert(self.subscribers@[k] == old(self).subscribers@[k]);
                }
            }
            assert forall|a: int, b: int|
                0 <= a < b < self.subscribers@.len() implies self.subscribers@[a]
                != self.subscribers@[b] by {
                if b == self.subscribers@.len() - 1 {
                    assert(self.subscribers@[a] == old(self).subscribers@[a]);
                } else {
                    assert(self.subscribers@[a] == old(self).subscribers@[a]);
                    assert(self.subscribers@[b] == old(self).subscribers@[b]);
                }
            }
        }
        id
    }

    /// Remove a subscriber by identifier.
    pub fn remove_subscriber(&mut self, id: u64)
        requires
            old(self).wf(),
        ensures
            final(self).wf(),
            final(self).subs() == targets_except(old(self).subs(), Some(id)),
            final(self).next_id() == old(self).next_id(),
            final(self).awareness() == old(self).awareness(),
            final(self).room_memory_id() == old(self).room_memory_id(),
    {
        let kept = Self::collect_except(&self.subscribers, Some(id));
        proof {
            lemma_filter_keeps_wf(self.subscribers@, Some(id), self.next_sub_id);
        }
        self.subscribers = kept;
    }

    /// The subscribers of `subs` other than `exclude`, in order.
    fn collect_except(subs: &Vec<u64>, exclude: Option<u64>) -> (res: Vec<u64>)
        ensures
            res@ == targets_except(subs@, exclude),
    {
        let mut res: Vec<u64> = Vec::new();
        let mut i: usize = 0;
        while i < subs.len()
            invariant
                i <= subs@.len(),
                res@ == targets_except(subs@.take(i as int), exclude),
            decreases subs@.len() - i,
        {
            let id = subs[i];
            proof {
                assert(subs@.take(i + 1).drop_last() =~= subs@.take(i as int));
                reveal_with_fuel(Seq::<u64>::filter, 1);
            }
            let keep = match exclude {
                Some(e) => id != e,
                None => true,
            };
            if keep {
                res.push(id);
            }
            i = i + 1;
        }
        assert(subs@.take(subs@.len() as int) =~= subs@);
        res
    }

    /// The subscribers a broadcast reaches: all but `exclude`, in order.
    pub fn broadcast_targets(&self, exclude: Option<u64>) -> (res: Vec<u64>)
        ensures
            res@ == targets_except(self.subs(), exclude),
    {
        Self::collect_except(&self.subscribers, exclude)
    }

    /// Current number of subscribers.
    pub fn subscriber_count(&self) -> (res: usize)
        ensures
            res == self.subs().len(),
    {
        self.subscribers.len()
    }

    /// Record the latest awareness frame so new joiners can replay it.
    pub fn record_awareness(&mut self, payload: Vec<u8>)
        requires
            old(self).wf(),
        ensures
            final(self).wf(),
            final(self).awareness() == payload@,
            final(self).subs() == old(self).subs(),
            final(self).next_id() == old(self).next_id(),
            final(self).room_memory_id() == old(self).room_memory_id(),
    {
        self.last_awareness = payload;
    }

    /// The last awareness frame, if any was recorded.
    pub fn last_awareness(&self) -> (res: Option<&[u8]>)
        ensures
            self.awareness().len() == 0 ==> res is None,
            self.awareness().len() > 0 ==> (res matches Some(b) && b@ == self.awareness()),
    {
        if self.last_awareness.len() == 0 {
            None
        } else {
            Some(self.last_awareness.as_slice())
        }
    }

    /// The memory this room edits.
    pub fn memory_id(&self) -> (res: &str)
        ensures
            res@ == self.room_memory_id(),
    {
        self.memory_id.as_str()
    }

    /// Route a message that subscriber `sender` sent to the room, recording
    /// an awareness frame on the way.
    pub fn route_message(&mut self, kind: SyncKind, payload: Vec<u8>, sender: u64) -> (res:
        RoomAction)
        requires
            old(self).wf(),
        ensures
            routed(*old(self), *final(self), kind, payload@, sender, res),
    {
        match kind {
            SyncKind::SyncStep1 => {
                let targets = self.broadcast_targets(None);
                proof {
                    lemma_filter_none_keeps_all(self.subs());
                }
                RoomAction::ReplyDiff { targets }
            },
            SyncKind::SyncStep2 => RoomAction::Nothing,
            SyncKind::Update => {
                let targets = self.broadcast_targets(Some(sender));
                RoomAction::ApplyAndForward { targets }
            },
            SyncKind::AwarenessQuery => {
                if self.last_awareness.len() == 0 {
                    RoomAction::Nothing
                } else {
                    let frame = self.last_awareness.clone();
                    let targets = self.broadcast_targets(None);
                    proof {
                        lemma_filter_none_keeps_all(self.subs());
                    }
                    RoomAction::Send { frame, targets }
                }
            },
            SyncKind::Awareness => {
                let frame = payload.clone();
                self.record_awareness(payload);
                let targets = self.broadcast_targets(Some(sender));
                RoomAction::Send { frame, targets }
            },
            SyncKind::Auth => RoomAction::Nothing,
            SyncKind::Custom => RoomAction::Nothing,
        }
    }
}

impl RoomState {
    /// Decode a frame that subscriber `sender` sent and route it: a frame
    /// that is no yjs message is dropped and leaves the room as it was (a
    /// frame that announces more state-vector or awareness entries than it
    /// has bytes is such a frame, and is dropped before it is decoded);
    /// otherwise the whole frame is routed by its kind (an awareness frame
    /// is recorded and forwarded as it came), and the decoded payload comes
    /// with the action (the state vector to diff against, the update to
    /// apply).
    pub fn handle_frame(&mut self, frame: &[u8], sender: u64) -> (res: Option<(RoomAction, Vec<u8>)>)
        requires
            old(self).wf(),
        ensures
            final(self).wf(),
            frame_overlong(frame@) ==> res is None && *final(self) == *old(self),
            !frame_overlong(frame@) ==> match yjs_frame(frame@) {
                None => res is None && *final(self) == *old(self),
                Some((k, p)) => (res matches Some((a, q)) && q@ == p && routed(
                    *old(self),
                    *final(self),
                    k,
                    frame@,
                    sender,
                    a,
                )),
            },
    {
        if is_frame_overlong(frame) {
            return None;
        }
        match read_message(frame) {
            None => None,
            Some((kind, payload)) => {
                let mut copy: Vec<u8> = Vec::new();
                let mut i: usize = 0;
                while i < frame.len()
                    invariant
                        i <= frame@.len(),
                        copy@ == frame@.take(i as int),
                    decreases frame@.len() - i,
                {
                    copy.push(frame[i]);
                    i = i + 1;
                    assert(copy@ =~= frame@.take(i as int));
                }
                assert(copy@ =~= frame@);
                let action = self.route_message(kind, copy, sender);
                Some((action, payload))
            },
        }
    }
}

/// Whether a message of this many bytes is too large to process.
pub fn frame_too_large(len: usize) -> (res: bool)
    ensures
        res == (len > MAX_WS_MESSAGE_SIZE),
{
    len > MAX_WS_MESSAGE_SIZE
}

/// Excluding nobody keeps every subscriber.
proof fn lemma_filter_none_keeps_all(s: Seq<u64>)
    ensures
        targets_except(s, None) == s,
    decreases s.len(),
{
    reveal_with_fuel(Seq::<u64>::filter, 1);
    if s.len() > 0 {
        lemma_filter_none_keeps_all(s.drop_last());
        assert(s.drop_last().push(s.last()) =~= s);
    } else {
        assert(s.filter(|id: u64| Some(id) != None::<u64>) =~= s);
    }
}

/// Filtering keeps the identifiers distinct and in range.
proof fn lemma_filter_keeps_wf(s: Seq<u64>, exclude: Option<u64>, next: u64)
    requires
        s.no_duplicates(),
        forall|k: int| 0 <= k < s.len() ==> 1 <= #[trigger] s[k] < next,
    ensures
        targets_except(s, exclude).no_duplicates(),
        forall|k: int|
            0 <= k < targets_except(s, exclude).len() ==> 1 <= #[trigger] targets_except(
                s,
                exclude,
            )[k] < next,
    decreases s.len(),
{
    let f = targets_except(s, exclude);
    reveal_with_fuel(Seq::<u64>::filter, 1);
    if s.len() > 0 {
        let p = s.drop_last();
        assert forall|a: int, b: int| 0 <= a < b < p.len() implies p[a] != p[b] by {
            assert(p[a] == s[a] && p[b] == s[b]);
        }
        assert forall|k: int| 0 <= k < p.len() implies 1 <= #[trigger] p[k] < next by {
            assert(p[k] == s[k]);
        }
        lemma_filter_keeps_wf(p, exclude, next);
        let fp = targets_except(p, exclude);
        lemma_targets_in(p, exclude);
        if Some(s.last()) != exclude {
            assert(f == fp.push(s.last()));
            assert forall|k: int| 0 <= k < fp.len() implies #[trigger] fp[k] != s.last() by {
                assert(p.contains(fp[k]));
                let m = choose|m: int| 0 <= m < p.len() && p[m] == fp[k];
                assert(s[m] == p[m]);
            }
            assert forall|a: int, b: int| 0 <= a < b < f.len() implies f[a] != f[b] by {
                if b == f.len() - 1 {
                    assert(f[a] == fp[a]);
                } else {
                    assert(f[a] == fp[a] && f[b] == fp[b]);
                }
            }
            assert forall|k: int| 0 <= k < f.len() implies 1 <= #[trigger] f[k] < next by {
                if k < fp.len() {
                    assert(f[k] == fp[k]);
                }
            }
        } else {
            assert(f == fp);
        }
    }
}

/// Everything a filter keeps comes from the filtered sequence.
proof fn lemma_targets_in(s: Seq<u64>, exclude: Option<u64>)
    ensures
        forall|k: int|
            0 <= k < targets_except(s, exclude).len() ==> s.contains(
                #[trigger] targets_except(s, exclude)[k],
            ),
    decreases s.len(),
{
    reveal_with_fuel(Seq::<u64>::filter, 1);
    if s.len() > 0 {
        let p = s.drop_last();
        lemma_targets_in(p, exclude);
        let fp = targets_except(p, exclude);
        let f = targets_except(s, exclude);
        assert forall|k: int| 0 <= k < f.len() implies s.contains(#[trigger] f[k]) by {
            if k < fp.len() {
                assert(f[k] == fp[k]);
                assert(p.contains(fp[k]));
                let m = choose|m: int| 0 <= m < p.len() && p[m] == fp[k];
                assert(s[m] == p[m]);
            } else {
                assert(f[k] == s.last());
                assert(s[s.len() - 1] == s.last());
            }
        }
    }
}

/// Joining then leaving leaves the room's subscribers as they were.
pub proof fn lemma_join_leave_roundtrip(subs: Seq<u64>, id: u64)
    requires
        !subs.contains(id),
    ensures
        targets_except(subs.push(id), Some(id)) == subs,
    decreases subs.len(),
{
    reveal_with_fuel(Seq::<u64>::filter, 1);
    assert(subs.push(id).drop_last() =~= subs);
    lemma_filter_absent(subs, id);
}

/// Excluding an identifier that is absent keeps everything.
proof fn lemma_filter_absent(subs: Seq<u64>, id: u64)
    requires
        !subs.contains(id),
    ensures
        targets_except(subs, Some(id)) == subs,
    decreases subs.len(),
{
    reveal_with_fuel(Seq::<u64>::filter, 1);
    if subs.len() > 0 {
        assert(!subs.drop_last().contains(id)) by {
            if subs.drop_last().contains(id) {
                let m = choose|m: int| 0 <= m < subs.drop_last().len() && subs.drop_last()[m] == id;
                assert(subs[m] == id);
            }
        }
        lemma_filter_absent(subs.drop_last(), id);
        assert(subs[subs.len() - 1] != id);
        assert(subs.drop_last().push(subs.last()) =~= subs);
    } else {
        assert(subs.filter(|x: u64| Some(x) != Some(id)) =~= subs);
    }
}

/// A broadcast never reaches the excluded subscriber and reaches every
/// other one.
pub proof fn lemma_broadcast_targets(subs: Seq<u64>, exclude: u64, other: u64)
    ensures
        !targets_except(subs, Some(exclude)).contains(exclude),
        subs.contains(other) && other != exclude ==> targets_except(subs, Some(exclude)).contains(
            other,
        ),
{
    let f = targets_except(subs, Some(exclude));
    if f.contains(exclude) {
        let k = choose|k: int| 0 <= k < f.len() && f[k] == exclude;
        subs.lemma_filter_pred(|id: u64| Some(id) != Some(exclude), k);
    }
    if subs.contains(other) && other != exclude {
        let k = choose|k: int| 0 <= k < subs.len() && subs[k] == other;
        subs.lemma_filter_contains(|id: u64| Some(id) != Some(exclude), k);
    }
}

/// A broadcast reaches only subscribers.
proof fn lemma_targets_within(s: Seq<u64>, exclude: Option<u64>, id: u64)
    ensures
        targets_except(s, exclude).contains(id) ==> s.contains(id),
    decreases s.len(),
{
    reveal_with_fuel(Seq::<u64>::filter, 1);
    if s.len() > 0 {
        let rest = s.drop_last();
        lemma_targets_within(rest, exclude, id);
        let f = targets_except(s, exclude);
        let fr = targets_except(rest, exclude);
        if f.contains(id) {
            let k = choose|k: int| 0 <= k < f.len() && f[k] == id;
            if id == s.last() {
                assert(s[s.len() - 1] == id);
            } else {
                assert(f == fr || f == fr.push(s.last()));
                assert(fr[k] == id);
                let m = choose|m: int| 0 <= m < rest.len() && rest[m] == id;
                assert(s[m] == id);
            }
        }
    }
}

/// Who a routed message reaches, for any subscriber `id`: a sync step 1
/// asks for a diff sent to every subscriber, the sender included; an
/// awareness query replays the recorded awareness to every subscriber, the
/// sender included, or does nothing when none was recorded; an update is
/// applied and forwarded to every subscriber but the sender; an awareness
/// update is recorded and forwarded as it came to every subscriber but the
/// sender; anything else does nothing.
pub proof fn lemma_routing_reach(
    before: RoomState,
    after: RoomState,
    kind: SyncKind,
    payload: Seq<u8>,
    sender: u64,
    res: RoomAction,
    id: u64,
)
    requires
        routed(before, after, kind, payload, sender, res),
    ensures
        kind == SyncKind::SyncStep1 ==> (res matches RoomAction::ReplyDiff { targets }
            && (targets@.contains(id) <==> before.subs().contains(id))),
        kind == SyncKind::AwarenessQuery && before.awareness().len() > 0 ==> (
        res matches RoomAction::Send { frame, targets } && frame@ == before.awareness() && (
        targets@.contains(id) <==> before.subs().contains(id))),
        kind == SyncKind::AwarenessQuery && before.awareness().len() == 0 ==> res is Nothing,
        kind == SyncKind::Update ==> (res matches RoomAction::ApplyAndForward { targets } && (
        targets@.contains(id) <==> (before.subs().contains(id) && id != sender))),
        kind == SyncKind::Awareness ==> (res matches RoomAction::Send { frame, targets } && frame@
            == payload && after.awareness() == payload && (targets@.contains(id) <==> (
        before.subs().contains(id) && id != sender))),
        (kind == SyncKind::SyncStep2 || kind == SyncKind::Auth || kind == SyncKind::Custom)
            ==> res is Nothing,
        after.subs() == before.subs(),
{
    lemma_targets_within(before.subs(), Some(sender), id);
    lemma_broadcast_targets(before.subs(), sender, id);
}

} // verus!

//! The standard yjs sync protocol on the wire (y-websocket framing): what a
//! frame decodes to, and the frames the server sends.

use crate::collab::room::SyncKind;
use vstd::prelude::*;
use yrs::sync::protocol::{Message, SyncMessage};
use yrs::updates::decoder::{Decode, DecoderV1};
use yrs::updates::encoder::Encode;
use yrs::StateVector;

verus! {

/// What a yjs frame decodes to: its kind and payload (the encoded state
/// vector of a sync step 1, the update of a sync step 2 or update, the data
/// of a custom message; empty for an awareness update, an awareness query or
/// an auth message), or nothing when it is not a well-formed message.
pub uninterp spec fn yjs_frame(frame: Seq<u8>) -> Option<(SyncKind, Seq<u8>)>;

/// The sync step 1 frame of an encoded state vector, or nothing when the
/// bytes are not a state vector.
pub uninterp spec fn yjs_step1_frame(state_vector: Seq<u8>) -> Option<Seq<u8>>;

/// The lib0 variable-length encoding of a number: seven bits per byte,
/// low groups first, the high bit set on every byte but the last.
pub open spec fn var_bytes(v: nat) -> Seq<u8>
    decreases v,
{
    if v < 128 {
        seq![v as u8]
    } else {
        seq![(v % 128 + 128) as u8] + var_bytes(v / 128)
    }
}

/// A sync message frame: the sync tag 0, the message's own tag, then its
/// bytes with their length in front.
pub open spec fn sync_frame(tag: u8, body: Seq<u8>) -> Seq<u8> {
    seq![0u8, tag] + var_bytes(body.len()) + body
}

// ============================================================
// Variable-length integers (lib0 v1) and entry counts
// ============================================================

/// The `u32` a lib0 variable-length integer gives, read from byte `i` of
/// `b` without passing `end`, with `num` read so far and the next group at
/// bit `shift`: seven bits per byte, low groups first, a set high bit for
/// "more"; a group's shift wraps at 32 bits, and a number of more than 70
/// bits is refused. With the index after it, or nothing when it does not
/// end before `end` or is too long.
pub open spec fn var_u32_at(b: Seq<u8>, i: int, end: int, num: u32, shift: u32) -> Option<(u32, int)>
    decreases end - i,
{
    if i < 0 || i >= end || end > b.len() {
        None
    } else {
        let r = b[i];
        let n = num | (((r & 0x7fu8) as u32) << (shift % 32));
        if r < 0x80 {
            Some((n, i + 1))
        } else if shift + 7 > 70 {
            None
        } else {
            var_u32_at(b, i + 1, end, n, (shift + 7) as u32)
        }
    }
}

/// The same for a `u64`, whose group shift wraps at 64 bits.
pub open spec fn var_u64_at(b: Seq<u8>, i: int, end: int, num: u64, shift: u32) -> Option<(u64, int)>
    decreases end - i,
{
    if i < 0 || i >= end || end > b.len() {
        None
    } else {
        let r = b[i];
        let n = num | (((r & 0x7fu8) as u64) << (shift % 64));
        if r < 0x80 {
            Some((n, i + 1))
        } else if shift + 7 > 70 {
            None
        } else {
            var_u64_at(b, i + 1, end, n, (shift + 7) as u32)
        }
    }
}

/// A number read from byte `i` ends after `i` and not past `end`.
proof fn lemma_var_u32_bounds(b: Seq<u8>, i: int, end: int, num: u32, shift: u32)
    ensures
        var_u32_at(b, i, end, num, shift) matches Some((_, j)) ==> i < j <= end,
    decreases end - i,
{
    if 0 <= i < end <= b.len() {
        let r = b[i];
        let n = num | (((r & 0x7fu8) as u32) << (shift % 32));
        if r >= 0x80 && shift + 7 <= 70 {
            lemma_var_u32_bounds(b, i + 1, end, n, (shift + 7) as u32);
        }
    }
}

/// A number read from byte `i` ends after `i` and not past `end`.
proof fn lemma_var_u64_bounds(b: Seq<u8>, i: int, end: int, num: u64, shift: u32)
    ensures
        var_u64_at(b, i, end, num, shift) matches Some((_, j)) ==> i < j <= end,
    decreases end - i,
{
    if 0 <= i < end <= b.len() {
        let r = b[i];
        let n = num | (((r & 0x7fu8) as u64) << (shift % 64));
        if r >= 0x80 && shift + 7 <= 70 {
            lemma_var_u64_bounds(b, i + 1, end, n, (shift + 7) as u32);
        }
    }
}

/// Read a lib0 `u32` from byte `start` of `b`, not passing `end`.
fn read_var_u32(b: &[u8], start: usize, end: usize) -> (res: Option<(u32, usize)>)
    requires
        end <= b@.len(),
    ensures
        match res {
            Some((v, j)) => var_u32_at(b@, start as int, end as int, 0, 0) == Some((v, j as int))
                && start < j <= end,
            None => var_u32_at(b@, start as int, end as int, 0, 0) is None,
        },
{
    proof {
        lemma_var_u32_bounds(b@, start as int, end as int, 0, 0);
    }
    let mut i: usize = start;
    let mut num: u32 = 0;
    let mut shift: u32 = 0;
    while i < end
        invariant
            end <= b@.len(),
            start <= i,
            shift <= 70,
            var_u32_at(b@, start as int, end as int, 0, 0) == var_u32_at(b@, i as int, end as int, num, shift),
        decreases end - i,
    {
        let r = b[i];
        num = num | (((r & 0x7f) as u32) << (shift % 32));
        if r < 0x80 {
            return Some((num, i + 1));
        }
        if shift + 7 > 70 {
            return None;
        }
        shift = shift + 7;
        i = i + 1;
    }
    None
}

/// Read a lib0 `u64` from byte `start` of `b`, not passing `end`.
fn read_var_u64(b: &[u8], start: usize, end: usize) -> (res: Option<(u64, usize)>)
    requires
        end <= b@.len(),
    ensures
        match res {
            Some((v, j)) => var_u64_at(b@, start as int, end as int, 0, 0) == Some((v, j as int))
                && start < j <= end,
            None => var_u64_at(b@, start as int, end as int, 0, 0) is None,
        },
{
    proof {
        lemma_var_u64_bounds(b@, start as int, end as int, 0, 0);
    }
    let mut i: usize = start;
    let mut num: u64 = 0;
    let mut shift: u32 = 0;
    while i < end
        invariant
            end <= b@.len(),
            start <= i,
            shift <= 70,
            var_u64_at(b@, start as int, end as int, 0, 0) == var_u64_at(b@, i as int, end as int, num, shift),
        decreases end - i,
    {
        let r = b[i];
        num = num | (((r & 0x7f) as u64) << (shift % 64));
        if r < 0x80 {
            return Some((num, i + 1));
        }
        if shift + 7 > 70 {
            return None;
        }
        shift = shift + 7;
        i = i + 1;
    }
    None
}

/// Whether the length-prefixed buffer at byte `i` of `f` fits in `f` and
/// starts with an entry count (a `u32` when `wide` is false, else a `u64`)
/// larger than the buffer's length. Each entry takes at least one byte, so
/// such a buffer never decodes.
pub open spec fn buf_count_overlong(f: Seq<u8>, i: int, wide: bool) -> bool {
    match var_u32_at(f, i, f.len() as int, 0, 0) {
        Some((len, j)) => j + len <= f.len() && if wide {
            match var_u64_at(f, j, j + len, 0, 0) {
                Some((c, _)) => c > len,
                None => false,
            }
        } else {
            match var_u32_at(f, j, j + len, 0, 0) {
                Some((c, _)) => c > len,
                None => false,
            }
        },
        None => false,
    }
}

/// Whether a frame is a sync step 1 whose state vector, or an awareness
/// message whose update, announces more entries than it has bytes (the
/// message tag and sync tag are read as lib0 numbers; 0 is sync, then 0 is
/// step 1; 1 is awareness). Such a frame is never a well-formed message.
pub open spec fn frame_overlong(f: Seq<u8>) -> bool {
    match var_u32_at(f, 0, f.len() as int, 0, 0) {
        Some((t, i1)) => if t == 0 {
            match var_u32_at(f, i1, f.len() as int, 0, 0) {
                Some((st, i2)) => st == 0 && buf_count_overlong(f, i2, false),
                None => false,
            }
        } else {
            t == 1 && buf_count_overlong(f, i1, true)
        },
        None => false,
    }
}

/// Whether the buffer at byte `i` has an entry count beyond its length.
fn buf_overlong(f: &[u8], i: usize, wide: bool) -> (res: bool)
    requires
        i <= f@.len(),
    ensures
        res == buf_count_overlong(f@, i as int, wide),
{
    match read_var_u32(f, i, f.len()) {
        None => false,
        Some((len, j)) => {
            if len as usize > f.len() - j {
                return false;
            }
            let end = j + len as usize;
            if wide {
                match read_var_u64(f, j, end) {
                    Some((c, _)) => c > len as u64,
                    None => false,
                }
            } else {
                match read_var_u32(f, j, end) {
                    Some((c, _)) => c > len,
                    None => false,
                }
            }
        },
    }
}

/// Whether a frame announces more state-vector or awareness entries than
/// it has bytes (see `frame_overlong`).
pub fn is_frame_overlong(f: &[u8]) -> (res: bool)
    ensures
        res == frame_overlong(f@),
{
    match read_var_u32(f, 0, f.len()) {
        None => false,
        Some((t, i1)) => {
            if t == 0 {
                match read_var_u32(f, i1, f.len()) {
                    Some((st, i2)) => st == 0 && buf_overlong(f, i2, false),
                    None => false,
                }
            } else {
                t == 1 && buf_overlong(f, i1, true)
            }
        },
    }
}

/// Whether encoded state-vector bytes announce more entries than they have
/// bytes. Such bytes never decode.
pub open spec fn sv_overlong(sv: Seq<u8>) -> bool {
    match var_u32_at(sv, 0, sv.len() as int, 0, 0) {
        Some((c, _)) => c > sv.len(),
        None => false,
    }
}

/// Decode a standard yjs wire message from a raw frame.
///
/// Wraps `yrs::sync::protocol::Message::decode` with the v1 decoder and
/// gives each message variant its own kind, with the payload described at
/// `yjs_frame` (a state vector re-encoded with `encode_v1`, which writes its
/// entries in the order of a map with a fixed hasher); a decoding error
/// gives `None`. The result is named by `yjs_frame`. yrs reserves room for
/// every entry a state vector or an awareness update announces before
/// reading them, which for a huge count fails inside the allocator; such
/// frames (see `frame_overlong`) are not admitted.
#[verifier::external_body]
pub fn read_message(frame: &[u8]) -> (res: Option<(SyncKind, Vec<u8>)>)
    requires
        !frame_overlong(frame@),
    ensures
        match res {
            Some((k, p)) => yjs_frame(frame@) == Some((k, p@)),
            None => yjs_frame(frame@) is None,
        },
{
    Some(match Message::decode(&mut DecoderV1::from(frame)).ok()? {
        Message::Sync(SyncMessage::SyncStep1(sv)) => (SyncKind::SyncStep1, sv.encode_v1()),
        Message::Sync(SyncMessage::SyncStep2(u)) => (SyncKind::SyncStep2, u),
        Message::Sync(SyncMessage::Update(u)) => (SyncKind::Update, u),
        Message::Awareness(_) => (SyncKind::Awareness, Vec::new()),
        Message::AwarenessQuery => (SyncKind::AwarenessQuery, Vec::new()),
        Message::Auth(_) => (SyncKind::Auth, Vec::new()),
        Message::Custom(_, data) => (SyncKind::Custom, data),
    })
}

/// The sync step 1 frame of an encoded state vector.
///
/// Wraps `StateVector::decode_v1` and the encoding of
/// `Message::Sync(SyncMessage::SyncStep1(..))`; bytes that do not decode
/// give `None`. The one byte `0` is the empty state vector (a length of
/// zero, read as a variable-length integer), which always decodes. yrs
/// reserves room for every entry the bytes announce before reading them,
/// so bytes that announce more entries than they have are not admitted.
#[verifier::external_body]
fn encode_sync_step1(state_vector: &[u8]) -> (res: Option<Vec<u8>>)
    requires
        !sv_overlong(state_vector@),
    ensures
        match res {
            Some(f) => yjs_step1_frame(state_vector@) == Some(f@),
            None => yjs_step1_frame(state_vector@) is None,
        },
        state_vector@ == seq![0u8] ==> res is Some,
{
    match StateVector::decode_v1(state_vector) {
        Ok(sv) => Some(Message::Sync(SyncMessage::SyncStep1(sv)).encode_v1()),
        Err(_) => None,
    }
}

/// The sync step 1 frame the server sends for an encoded state vector;
/// bytes that are not a state vector (among them those that announce more
/// entries than they have bytes) stand for the empty one.
pub fn sync_step1(state_vector: &[u8]) -> (res: Vec<u8>)
    ensures
        res@ == if !sv_overlong(state_vector@) && yjs_step1_frame(state_vector@) is Some {
            yjs_step1_frame(state_vector@)->0
        } else {
            yjs_step1_frame(seq![0u8])->0
        },
{
    let overlong = match read_var_u32(state_vector, 0, state_vector.len()) {
        Some((c, _)) => c as usize > state_vector.len(),
        None => false,
    };
    if !overlong {
        if let Some(f) = encode_sync_step1(state_vector) {
            return f;
        }
    }
    let empty: Vec<u8> = vec![0u8];
    assert(empty@ =~= seq![0u8]);
    assert((0u32 | (((0u8 & 0x7fu8) as u32) << (0u32 % 32))) == 0u32) by (bit_vector);
    assert(var_u32_at(empty@, 0, 1, 0, 0) == Some((0u32, 1int)));
    match encode_sync_step1(empty.as_slice()) {
        Some(f) => f,
        None => Vec::new(),
    }
}

/// Encode a sync step 2 (diff update) message.
///
/// Wraps the encoding of `Message::Sync(SyncMessage::SyncStep2(update))`,
/// which writes the sync tag 0, the step 2 tag 1, and the update as a
/// length-prefixed buffer.
#[verifier::external_body]
pub fn sync_step2(update: Vec<u8>) -> (res: Vec<u8>)
    ensures
        res@ == sync_frame(1, update@),
{
    Message::Sync(SyncMessage::SyncStep2(update)).encode_v1()
}

/// Encode a sync update message.
///
/// Wraps the encoding of `Message::Sync(SyncMessage::Update(update))`,
/// which writes the sync tag 0, the update tag 2, and the update as a
/// length-prefixed buffer.
#[verifier::external_body]
pub fn sync_update(update: Vec<u8>) -> (res: Vec<u8>)
    ensures
        res@ == sync_frame(2, update@),
{
    Message::Sync(SyncMessage::Update(update)).encode_v1()
}

} // verus!

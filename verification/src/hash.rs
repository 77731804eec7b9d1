use vstd::prelude::*;
use crc::{Crc, CRC_32_ISO_HDLC};
use crate::engine::EngineView;
use crate::state::State;
use crate::types::{Piece, piece_code, rot_code};

verus! {

/// The eight little-endian bytes of `n`.
pub open spec fn le_u64(n: u64) -> Seq<u8> {
    Seq::new(8, |k: int| ((n >> ((8 * k) as u64)) & 0xff) as u8)
}

/// The four little-endian bytes of `n`.
pub open spec fn le_u32(n: u32) -> Seq<u8> {
    Seq::new(4, |k: int| ((n >> ((8 * k) as u32)) & 0xff) as u8)
}

/// The little-endian bytes of each row, in order.
pub open spec fn rows_bytes(rows: Seq<u64>) -> Seq<u8>
    decreases rows.len(),
{
    if rows.len() == 0 {
        Seq::empty()
    } else {
        rows_bytes(rows.drop_last()) + le_u64(rows.last())
    }
}

/// 1 for true, 0 for false.
pub open spec fn flag_byte(b: bool) -> u8 {
    if b {
        1
    } else {
        0
    }
}

/// The bytes of the active piece, its rotation and position, the hold
/// slot and the preview.
pub open spec fn piece_bytes<const W: usize, const H: usize>(st: State<W, H>) -> Seq<u8> {
    seq![
        piece_code(st.piece) as u8,
        rot_code(st.rot) as u8,
        #[verifier::truncate] (st.x as u8),
        #[verifier::truncate] (st.y as u8),
        piece_code(st.hold) as u8,
        flag_byte(st.hold_used),
        piece_code(st.next[0]) as u8,
        piece_code(st.next[1]) as u8,
        piece_code(st.next[2]) as u8,
        piece_code(st.next[3]) as u8,
        piece_code(st.next[4]) as u8,
    ]
}

/// The bytes of the back-to-back and last-move flags and of the bag.
pub open spec fn bag_bytes<const W: usize, const H: usize>(st: State<W, H>, bag: [Piece; 7]) -> Seq<u8> {
    seq![
        flag_byte(st.b2b),
        flag_byte(st.last_move_was_rotation),
        piece_code(bag[0]) as u8,
        piece_code(bag[1]) as u8,
        piece_code(bag[2]) as u8,
        piece_code(bag[3]) as u8,
        piece_code(bag[4]) as u8,
        piece_code(bag[5]) as u8,
        piece_code(bag[6]) as u8,
    ]
}

/// The bytes an engine's hash covers: the board rows, the active piece,
/// its rotation and position, hold, the preview, the random state, pending
/// garbage, combo, back-to-back and last-move flags, the bag and its
/// index, and the tick-counted lock delay; integers little-endian, pieces
/// and rotations by code, flags as 0 or 1.
pub open spec fn hash_bytes<const W: usize, const H: usize>(v: EngineView<W, H>) -> Seq<u8> {
    let st = v.state;
    rows_bytes(st.board.rows@) + piece_bytes(st) + le_u32(st.rng) + seq![st.pending_garbage] + le_u32(
        #[verifier::truncate] (st.combo as u32),
    ) + bag_bytes(st, v.bag) + le_u64(v.bag_idx as u64) + seq![
        flag_byte(v.lock_active),
        v.lock_ticks,
        v.lock_resets,
    ]
}

/// Appends `piece_bytes(st)`.
pub(crate) fn push_piece_bytes<const W: usize, const H: usize>(out: &mut Vec<u8>, st: &State<W, H>)
    ensures
        final(out)@ == old(out)@ + piece_bytes(*st),
{
    out.push(st.piece.to_u8());
    out.push(st.rot.to_u8());
    out.push(#[verifier::truncate] (st.x as u8));
    out.push(#[verifier::truncate] (st.y as u8));
    out.push(st.hold.to_u8());
    out.push(flag(st.hold_used));
    out.push(st.next[0].to_u8());
    out.push(st.next[1].to_u8());
    out.push(st.next[2].to_u8());
    out.push(st.next[3].to_u8());
    out.push(st.next[4].to_u8());
    assert(out@ =~= old(out)@ + piece_bytes(*st));
}

/// Appends `bag_bytes(st, bag)`.
pub(crate) fn push_bag_bytes<const W: usize, const H: usize>(out: &mut Vec<u8>, st: &State<W, H>, bag: &[Piece; 7])
    ensures
        final(out)@ == old(out)@ + bag_bytes(*st, *bag),
{
    out.push(flag(st.b2b));
    out.push(flag(st.last_move_was_rotation));
    out.push(bag[0].to_u8());
    out.push(bag[1].to_u8());
    out.push(bag[2].to_u8());
    out.push(bag[3].to_u8());
    out.push(bag[4].to_u8());
    out.push(bag[5].to_u8());
    out.push(bag[6].to_u8());
    assert(out@ =~= old(out)@ + bag_bytes(*st, *bag));
}

/// The CRC-32/ISO-HDLC checksum of `bytes`.
pub uninterp spec fn crc32_iso_hdlc(bytes: Seq<u8>) -> u32;

/// The CRC-32/ISO-HDLC checksum of `bytes`, from the `crc` crate:
/// `Crc::<u32>::new(&CRC_32_ISO_HDLC).checksum`. The contract names the
/// result and claims only that it is a function of the bytes.
#[verifier::external_body]
pub(crate) fn crc32_checksum(bytes: &[u8]) -> (r: u32)
    ensures
        r == crc32_iso_hdlc(bytes@),
{
    Crc::<u32>::new(&CRC_32_ISO_HDLC).checksum(bytes)
}

/// Appends the little-endian bytes of `n`.
pub(crate) fn push_u64(out: &mut Vec<u8>, n: u64)
    ensures
        final(out)@ == old(out)@ + le_u64(n),
{
    let mut k: u64 = 0;
    while k < 8
        invariant
            k <= 8,
            out@ == old(out)@ + le_u64(n).take(k as int),
        decreases 8 - k,
    {
        out.push(((n >> (8 * k)) & 0xff) as u8);
        assert(le_u64(n).take(k + 1) =~= le_u64(n).take(k as int).push(((n >> (8 * k)) & 0xff) as u8));
        k = k + 1;
    }
    assert(le_u64(n).take(8) =~= le_u64(n));
}

/// Appends the little-endian bytes of `n`.
pub(crate) fn push_u32(out: &mut Vec<u8>, n: u32)
    ensures
        final(out)@ == old(out)@ + le_u32(n),
{
    let mut k: u32 = 0;
    while k < 4
        invariant
            k <= 4,
            out@ == old(out)@ + le_u32(n).take(k as int),
        decreases 4 - k,
    {
        out.push(((n >> (8 * k)) & 0xff) as u8);
        assert(le_u32(n).take(k + 1) =~= le_u32(n).take(k as int).push(((n >> (8 * k)) & 0xff) as u8));
        k = k + 1;
    }
    assert(le_u32(n).take(4) =~= le_u32(n));
}

/// 1 for true, 0 for false.
pub(crate) fn flag(b: bool) -> (r: u8)
    ensures
        r == flag_byte(b),
{
    if b {
        1
    } else {
        0
    }
}

} // verus!

//! Rank masks: thirteen bits, one per rank, and the ten masks of the
//! straights.

use crate::domain::card::Rank;
use vstd::prelude::*;

verus! {

/// A set of ranks in thirteen bits: bit 0 is the deuce, bit 12 the ace.
pub type RankMask = u16;

/// The masks of the ten straights, by their top card: the wheel (A2345)
/// first, broadway (TJQKA) last.
pub const STRAIGHT_MASKS: [RankMask; 10] = [
    0x100F,
    0x001F,
    0x003E,
    0x007C,
    0x00F8,
    0x01F0,
    0x03E0,
    0x07C0,
    0x0F80,
    0x1F00,
];

/// Whether a mask holds the rank of strength `v` (2 to 14).
pub open spec fn mask_has(mask: RankMask, v: int) -> bool {
    2 <= v <= 14 && (mask >> ((v - 2) as u16)) & 1 == 1
}

/// The five ranks of a straight are in the mask; `top` is its highest
/// card, 5 for the wheel.
pub open spec fn run_in_mask(mask: RankMask, top: int) -> bool {
    if top == 5 {
        mask_has(mask, 14) && mask_has(mask, 2) && mask_has(mask, 3) && mask_has(mask, 4)
            && mask_has(mask, 5)
    } else {
        6 <= top <= 14 && mask_has(mask, top) && mask_has(mask, top - 1) && mask_has(
            mask,
            top - 2,
        ) && mask_has(mask, top - 3) && mask_has(mask, top - 4)
    }
}

/// The top card of the best straight in a mask among those whose top is
/// at most `top`.
pub open spec fn best_run(mask: RankMask, top: int) -> Option<Rank>
    decreases top,
{
    if top < 5 {
        None
    } else if run_in_mask(mask, top) {
        Some(Rank::of_val(top))
    } else {
        best_run(mask, top - 1)
    }
}

/// The mask of a list of ranks.
pub open spec fn mask_of(ranks: Seq<Rank>) -> RankMask
    decreases ranks.len(),
{
    if ranks.len() == 0 {
        0
    } else {
        mask_of(ranks.drop_last()) | (1u16 << ((ranks.last().val() - 2) as u16))
    }
}

/// The bit of one rank.
pub fn rank_to_bit(rank: Rank) -> (bit: RankMask)
    ensures
        bit == 1u16 << ((rank.val() - 2) as u16),
        forall|v: int| 2 <= v <= 14 ==> (mask_has(bit, v) <==> v == rank.val()),
{
    let idx: u16 = (rank.value() - 2) as u16;
    let bit: u16 = 1u16 << idx;
    proof {
        assert forall|v: int| 2 <= v <= 14 implies (mask_has(bit, v) <==> v == rank.val()) by {
            let k: u16 = (v - 2) as u16;
            assert(0 <= idx < 13 && 0 <= k < 13 ==> ((((1u16 << idx) >> k) & 1 == 1) <==> k == idx))
                by (bit_vector);
        }
    }
    bit
}

/// Adding a bit to a mask adds its rank and keeps the others.
pub proof fn mask_with_bit(mask: RankMask, rank: Rank, v: int)
    requires
        2 <= v <= 14,
    ensures
        mask_has(mask | (1u16 << ((rank.val() - 2) as u16)), v) <==> (mask_has(mask, v) || v
            == rank.val()),
{
    let idx: u16 = (rank.val() - 2) as u16;
    let k: u16 = (v - 2) as u16;
    assert(0 <= idx < 13 && 0 <= k < 13 ==> (((((mask | (1u16 << idx)) >> k) & 1 == 1) <==> (((mask
        >> k) & 1 == 1) || k == idx)))) by (bit_vector);
}

/// The mask of a list of ranks holds exactly the ranks of the list.
pub proof fn mask_of_has(ranks: Seq<Rank>, v: int)
    requires
        2 <= v <= 14,
    ensures
        mask_has(mask_of(ranks), v) <==> exists|i: int| 0 <= i < ranks.len() && ranks[i].val() == v,
    decreases ranks.len(),
{
    if ranks.len() == 0 {
        let k: u16 = (v - 2) as u16;
        assert((0u16 >> k) & 1 == 0) by (bit_vector);
    } else {
        let shorter = ranks.drop_last();
        mask_of_has(shorter, v);
        mask_with_bit(mask_of(shorter), ranks.last(), v);
        if mask_has(mask_of(ranks), v) {
            if v == ranks.last().val() {
                assert(ranks[ranks.len() - 1].val() == v);
            } else {
                let i = choose|i: int| 0 <= i < shorter.len() && shorter[i].val() == v;
                assert(ranks[i].val() == v);
            }
        }
        if exists|i: int| 0 <= i < ranks.len() && ranks[i].val() == v {
            let i = choose|i: int| 0 <= i < ranks.len() && ranks[i].val() == v;
            if i < shorter.len() {
                assert(shorter[i].val() == v);
            }
        }
    }
}

/// Builds the mask of a list of ranks.
pub fn mask_from_ranks(ranks: &[Rank]) -> (mask: RankMask)
    ensures
        mask == mask_of(ranks@),
        forall|v: int|
            2 <= v <= 14 ==> (mask_has(mask, v) <==> exists|i: int|
                0 <= i < ranks@.len() && ranks@[i].val() == v),
{
    let mut mask: RankMask = 0;
    let mut i: usize = 0;
    while i < ranks.len()
        invariant
            i <= ranks@.len(),
            mask == mask_of(ranks@.take(i as int)),
        decreases ranks@.len() - i,
    {
        proof {
            assert(ranks@.take(i + 1).drop_last() =~= ranks@.take(i as int));
        }
        let bit = rank_to_bit(ranks[i]);
        mask = mask | bit;
        i += 1;
    }
    proof {
        crate::seq_util::take_all(ranks@);
        assert forall|v: int| 2 <= v <= 14 implies (mask_has(mask, v) <==> exists|i: int|
            0 <= i < ranks@.len() && ranks@[i].val() == v) by {
            mask_of_has(ranks@, v);
        }
    }
    mask
}

/// What it means for a mask to cover one of the ten straight masks.
proof fn covers_straight(mask: RankMask, i: int)
    requires
        0 <= i < 10,
    ensures
        (mask & STRAIGHT_MASKS[i] == STRAIGHT_MASKS[i]) <==> run_in_mask(mask, i + 5),
{
    let m = mask;
    assert(((m & 0x100F == 0x100F) <==> ((m >> 12) & 1 == 1 && (m >> 0) & 1 == 1 && (m >> 1) & 1
        == 1 && (m >> 2) & 1 == 1 && (m >> 3) & 1 == 1))) by (bit_vector);
    assert(((m & 0x001F == 0x001F) <==> ((m >> 4) & 1 == 1 && (m >> 3) & 1 == 1 && (m >> 2) & 1
        == 1 && (m >> 1) & 1 == 1 && (m >> 0) & 1 == 1))) by (bit_vector);
    assert(((m & 0x003E == 0x003E) <==> ((m >> 5) & 1 == 1 && (m >> 4) & 1 == 1 && (m >> 3) & 1
        == 1 && (m >> 2) & 1 == 1 && (m >> 1) & 1 == 1))) by (bit_vector);
    assert(((m & 0x007C == 0x007C) <==> ((m >> 6) & 1 == 1 && (m >> 5) & 1 == 1 && (m >> 4) & 1
        == 1 && (m >> 3) & 1 == 1 && (m >> 2) & 1 == 1))) by (bit_vector);
    assert(((m & 0x00F8 == 0x00F8) <==> ((m >> 7) & 1 == 1 && (m >> 6) & 1 == 1 && (m >> 5) & 1
        == 1 && (m >> 4) & 1 == 1 && (m >> 3) & 1 == 1))) by (bit_vector);
    assert(((m & 0x01F0 == 0x01F0) <==> ((m >> 8) & 1 == 1 && (m >> 7) & 1 == 1 && (m >> 6) & 1
        == 1 && (m >> 5) & 1 == 1 && (m >> 4) & 1 == 1))) by (bit_vector);
    assert(((m & 0x03E0 == 0x03E0) <==> ((m >> 9) & 1 == 1 && (m >> 8) & 1 == 1 && (m >> 7) & 1
        == 1 && (m >> 6) & 1 == 1 && (m >> 5) & 1 == 1))) by (bit_vector);
    assert(((m & 0x07C0 == 0x07C0) <==> ((m >> 10) & 1 == 1 && (m >> 9) & 1 == 1 && (m >> 8) & 1
        == 1 && (m >> 7) & 1 == 1 && (m >> 6) & 1 == 1))) by (bit_vector);
    assert(((m & 0x0F80 == 0x0F80) <==> ((m >> 11) & 1 == 1 && (m >> 10) & 1 == 1 && (m >> 9) & 1
        == 1 && (m >> 8) & 1 == 1 && (m >> 7) & 1 == 1))) by (bit_vector);
    assert(((m & 0x1F00 == 0x1F00) <==> ((m >> 12) & 1 == 1 && (m >> 11) & 1 == 1 && (m >> 10) & 1
        == 1 && (m >> 9) & 1 == 1 && (m >> 8) & 1 == 1))) by (bit_vector);
}

/// Finds the best straight in a mask and returns its top card; the wheel
/// (A2345) counts as five-high.
pub fn detect_straight(rank_mask: RankMask) -> (top: Option<Rank>)
    ensures
        top == best_run(rank_mask, 14),
{
    let mut i: usize = 10;
    while i > 0
        invariant
            i <= 10,
            best_run(rank_mask, 14) == best_run(rank_mask, i + 4),
        decreases i,
    {
        i -= 1;
        let sm = STRAIGHT_MASKS[i];
        proof {
            covers_straight(rank_mask, i as int);
        }
        if rank_mask & sm == sm {
            return Some(Rank::from_value((i + 5) as u8));
        }
    }
    None
}

} // verus!

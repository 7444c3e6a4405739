//! A small deterministic generator (xorshift64*) for hosts without a
//! source of entropy. It is not fit for secrets: a seed decides all it
//! does.

use crate::engine::{arranged, as_it_is, RandomSource};
use vstd::prelude::*;

verus! {

/// Swaps two elements of a slice. Calls the standard library's
/// `<[T]>::swap`: the elements at the two places change places, the
/// others stay.
#[verifier::external_body]
fn swap_places<T>(slice: &mut [T], a: usize, b: usize)
    requires
        a < old(slice)@.len(),
        b < old(slice)@.len(),
    ensures
        final(slice)@ == old(slice)@.update(a as int, old(slice)@[b as int]).update(
            b as int,
            old(slice)@[a as int],
        ),
{
    slice.swap(a, b)
}

/// The generator: one word of state, never zero.
#[derive(Clone, Copy, Debug, PartialEq, Eq)]
pub struct XorShiftRng {
    state: u64,
}

/// The state that replaces a state of zero, in which the generator would
/// be stuck.
pub const FALLBACK_STATE: u64 = 0xCAFE_BABE_DEAD_BEEF;

/// The odd constant that the seed is mixed with.
pub const MIX: u64 = 0x9E37_79B9_7F4A_7C15;

/// The state that follows a state.
pub open spec fn stepped(x: u64) -> u64 {
    let a = x ^ (x >> 12);
    let b = a ^ (a << 25);
    b ^ (b >> 27)
}

/// The number that the generator gives out on entering a state.
pub open spec fn drawn(state: u64) -> u64 {
    vstd::wrapping::u64_specs::wrapping_mul(state, 0x2545_F491_4F6C_DD1D)
}

/// A word turned left by 27 bits.
pub open spec fn turned(x: u64) -> u64 {
    (x << 27) | (x >> 37)
}

/// The accumulator after one more word of the seed is mixed in.
pub open spec fn mixed(acc: u64, word: u64) -> u64 {
    turned(acc ^ vstd::wrapping::u64_specs::wrapping_mul(word, MIX))
}

/// The state of a seed: its four little-endian words mixed into one,
/// and the fallback state where that gives zero.
pub open spec fn folded(seed: Seq<u8>) -> u64 {
    let w0 = vstd::bytes::spec_u64_from_le_bytes(seed.subrange(0, 8));
    let w1 = vstd::bytes::spec_u64_from_le_bytes(seed.subrange(8, 16));
    let w2 = vstd::bytes::spec_u64_from_le_bytes(seed.subrange(16, 24));
    let w3 = vstd::bytes::spec_u64_from_le_bytes(seed.subrange(24, 32));
    let acc = mixed(mixed(mixed(mixed(MIX, w0), w1), w2), w3);
    if acc == 0 {
        FALLBACK_STATE
    } else {
        acc
    }
}

/// A sequence with two elements swapped.
pub open spec fn swapped<T>(s: Seq<T>, a: int, b: int) -> Seq<T> {
    s.update(a, s[b]).update(b, s[a])
}

/// The sequence after the places from `i - 1` down to 1 were shuffled:
/// each place in turn is swapped with a place at or below it, which the
/// next number of the generator picks.
pub open spec fn shuffled_from<T>(state: u64, s: Seq<T>, i: int) -> Seq<T>
    decreases i,
{
    if i <= 1 {
        s
    } else {
        let next = stepped(state);
        let j = drawn(next) as int % i;
        shuffled_from(next, swapped(s, i - 1, j), i - 1)
    }
}

/// The state after the places from `i - 1` down to 1 were shuffled.
pub open spec fn state_from(state: u64, i: int) -> u64
    decreases i,
{
    if i <= 1 {
        state
    } else {
        state_from(stepped(state), i - 1)
    }
}

impl XorShiftRng {
    /// The state of the generator.
    pub closed spec fn state(&self) -> u64 {
        self.state
    }

    /// Mixes the 32 bytes of a seed into one word.
    pub fn fold_seed(seed: [u8; 32]) -> (state: u64)
        ensures
            state == folded(seed@),
            state != 0,
    {
        let bytes = seed.as_slice();
        let mut acc: u64 = MIX;
        let mut k: usize = 0;
        while k < 4
            invariant
                k <= 4,
                bytes@ == seed@,
                bytes@.len() == 32,
                acc == if k == 0 {
                    MIX
                } else if k == 1 {
                    mixed(MIX, vstd::bytes::spec_u64_from_le_bytes(seed@.subrange(0, 8)))
                } else if k == 2 {
                    mixed(
                        mixed(MIX, vstd::bytes::spec_u64_from_le_bytes(seed@.subrange(0, 8))),
                        vstd::bytes::spec_u64_from_le_bytes(seed@.subrange(8, 16)),
                    )
                } else if k == 3 {
                    mixed(
                        mixed(
                            mixed(MIX, vstd::bytes::spec_u64_from_le_bytes(seed@.subrange(0, 8))),
                            vstd::bytes::spec_u64_from_le_bytes(seed@.subrange(8, 16)),
                        ),
                        vstd::bytes::spec_u64_from_le_bytes(seed@.subrange(16, 24)),
                    )
                } else {
                    mixed(
                        mixed(
                            mixed(
                                mixed(
                                    MIX,
                                    vstd::bytes::spec_u64_from_le_bytes(seed@.subrange(0, 8)),
                                ),
                                vstd::bytes::spec_u64_from_le_bytes(seed@.subrange(8, 16)),
                            ),
                            vstd::bytes::spec_u64_from_le_bytes(seed@.subrange(16, 24)),
                        ),
                        vstd::bytes::spec_u64_from_le_bytes(seed@.subrange(24, 32)),
                    )
                },
            decreases 4 - k,
        {
            let chunk = vstd::slice::slice_subrange(bytes, 8 * k, 8 * k + 8);
            let word = vstd::bytes::u64_from_le_bytes(chunk);
            let m = acc ^ word.wrapping_mul(MIX);
            acc = (m << 27) | (m >> 37);
            k += 1;
        }
        if acc == 0 {
            FALLBACK_STATE
        } else {
            acc
        }
    }

    /// The generator of a seed.
    pub fn from_seed(seed: [u8; 32]) -> (rng: XorShiftRng)
        ensures
            rng.state() == folded(seed@),
    {
        XorShiftRng { state: Self::fold_seed(seed) }
    }

    /// The generator whose state is the number, or the fallback state for
    /// zero.
    pub fn from_u64(seed: u64) -> (rng: XorShiftRng)
        ensures
            rng.state() == if seed == 0 {
                FALLBACK_STATE
            } else {
                seed
            },
    {
        XorShiftRng {
            state: if seed == 0 {
                FALLBACK_STATE
            } else {
                seed
            },
        }
    }

    /// Steps the generator and gives out the number of the new state.
    pub fn next_u64(&mut self) -> (n: u64)
        ensures
            final(self).state() == stepped(old(self).state()),
            n == drawn(final(self).state()),
    {
        let mut x = self.state;
        x = x ^ (x >> 12);
        x = x ^ (x << 25);
        x = x ^ (x >> 27);
        self.state = x;
        x.wrapping_mul(0x2545_F491_4F6C_DD1D)
    }
}

/// Swapping two elements leaves a sequence with the same elements.
pub proof fn swapped_same_elements<T>(s: Seq<T>, a: int, b: int)
    requires
        0 <= a < s.len(),
        0 <= b < s.len(),
    ensures
        swapped(s, a, b).to_multiset() == s.to_multiset(),
        swapped(s, a, b).len() == s.len(),
{
    vstd::seq_lib::to_multiset_update(s, a, s[b]);
    vstd::seq_lib::to_multiset_update(s.update(a, s[b]), b, s[a]);
    vstd::seq_lib::to_multiset_contains(s, s[b]);
    vstd::seq_lib::to_multiset_contains(s, s[a]);
    assert(s.contains(s[a]));
    assert(s.contains(s[b]));
    assert(swapped(s, a, b).to_multiset() =~= s.to_multiset()) by {
        broadcast use vstd::multiset::group_multiset_axioms;

    }
}

/// Whether every entry of an order names a place among `n`.
pub open spec fn within(order: Seq<int>, n: int) -> bool {
    forall|k: int| 0 <= k < order.len() ==> 0 <= #[trigger] order[k] < n
}

/// Shuffling a sequence that was put into an order is putting it into
/// the shuffled order: the shuffle never looks at the elements.
pub proof fn shuffle_arranges<T>(state: u64, s: Seq<T>, order: Seq<int>, i: int)
    requires
        order.len() == s.len(),
        0 <= i <= s.len(),
        within(order, s.len() as int),
    ensures
        shuffled_from(state, arranged(s, order), i) == arranged(
            s,
            shuffled_from(state, order, i),
        ),
        shuffled_from(state, order, i).len() == s.len(),
        within(shuffled_from(state, order, i), s.len() as int),
    decreases i,
{
    if i > 1 {
        let next = stepped(state);
        let j = drawn(next) as int % i;
        let moved = swapped(order, i - 1, j);
        assert(within(moved, s.len() as int));
        assert(swapped(arranged(s, order), i - 1, j) =~= arranged(s, moved));
        shuffle_arranges(next, s, moved, i - 1);
    }
}

impl RandomSource for XorShiftRng {
    /// The order that the Fisher-Yates shuffle gives from the state of
    /// the generator.
    open spec fn next_order(&self, n: nat) -> Seq<int> {
        shuffled_from(self.state(), as_it_is(n), n as int)
    }

    /// The Fisher-Yates shuffle: from the last place down, each place is
    /// swapped with a place at or below it that the generator picks. The
    /// state and the slice decide the outcome.
    fn shuffle<T>(&mut self, slice: &mut [T])
        ensures
            final(slice)@ == shuffled_from(old(self).state(), old(slice)@, old(slice)@.len() as int),
            final(self).state() == state_from(old(self).state(), old(slice)@.len() as int),
    {
        let ghost start = slice@;
        let ghost first = self.state;
        let mut i: usize = slice.len();
        while i > 1
            invariant
                i <= slice@.len(),
                slice@.len() == start.len(),
                slice@.to_multiset() == start.to_multiset(),
                shuffled_from(self.state, slice@, i as int) == shuffled_from(
                    first,
                    start,
                    start.len() as int,
                ),
                state_from(self.state, i as int) == state_from(first, start.len() as int),
            decreases i,
        {
            let ghost before = slice@;
            let n = self.next_u64();
            let j = (n % (i as u64)) as usize;
            i -= 1;
            swap_places(slice, i, j);
            proof {
                assert(slice@ == swapped(before, i as int, j as int));
                swapped_same_elements(before, i as int, j as int);
            }
        }
        proof {
            let order = as_it_is(start.len());
            assert(within(order, start.len() as int));
            assert(arranged(start, order) =~= start);
            shuffle_arranges(first, start, order, start.len() as int);
        }
    }
}

} // verus!

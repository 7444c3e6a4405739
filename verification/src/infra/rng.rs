//! The generators that shuffle the deck, and the seed pipeline: a base
//! seed is kept in the state, and the seed of each hand is derived from it
//! by a keyed hash.

use crate::engine::{arranged, RandomSource};
use crate::infra::hashing;
use crate::infra::hashing::{blake3_hash, build_hand_message, number_seed};
use rand::rngs::{OsRng, StdRng};
use rand::seq::SliceRandom;
use rand::{RngCore, SeedableRng};
use vstd::prelude::*;
use vstd::string::StringSliceAdditionalSpecFns;

verus! {

/// The standard generator of the `rand` crate. Nothing of its state is
/// seen here.
#[verifier::external_type_specification]
#[verifier::external_body]
pub struct ExStdRng(StdRng);

/// The generator that `StdRng::from_seed` makes of a seed.
pub uninterp spec fn seeded_std_rng(seed: Seq<u8>) -> StdRng;

/// The order into which a generator puts `n` elements when it shuffles
/// them: element `i` of the result is element `order[i]` of the input.
pub uninterp spec fn std_rng_order(rng: StdRng, n: nat) -> Seq<int>;

/// Makes a generator of a seed. Calls `StdRng::from_seed`; the contract
/// names the generator and claims nothing else: the same seed gives the
/// same generator.
#[verifier::external_body]
fn std_rng_from_seed(seed: [u8; 32]) -> (rng: StdRng)
    ensures
        rng == seeded_std_rng(seed@),
{
    StdRng::from_seed(seed)
}

/// Shuffles a slice. Calls `SliceRandom::shuffle`, which swaps elements
/// at places that the generator picks and never looks at the elements:
/// the slice holds the same elements afterwards, in an order that the
/// generator and the length alone decide.
#[verifier::external_body]
fn std_rng_shuffle<T>(rng: &mut StdRng, slice: &mut [T])
    ensures
        final(slice)@.len() == old(slice)@.len(),
        final(slice)@.to_multiset() == old(slice)@.to_multiset(),
        forall|i: int|
            0 <= i < old(slice)@.len() ==> 0 <= #[trigger] std_rng_order(
                *old(rng),
                old(slice)@.len(),
            )[i] < old(slice)@.len(),
        final(slice)@ == arranged(old(slice)@, std_rng_order(*old(rng), old(slice)@.len())),
{
    slice.shuffle(rng)
}

/// Copies a generator. Calls `StdRng::clone`, which the `rand` crate
/// derives: the copy holds the state of the generator, field by field.
#[verifier::external_body]
fn std_rng_clone(rng: &StdRng) -> (copy: StdRng)
    ensures
        copy == *rng,
{
    rng.clone()
}

/// Asks the operating system for 32 random bytes. Calls
/// `OsRng::try_fill_bytes`; `None` where the system gives no entropy.
/// Nothing is claimed of the bytes.
#[verifier::external_body]
fn os_entropy() -> (seed: Option<[u8; 32]>) {
    let mut seed = [0u8; 32];
    match OsRng.try_fill_bytes(&mut seed) {
        Ok(()) => Some(seed),
        Err(_) => None,
    }
}

/// A seed of 32 bytes that can be kept in the state and from which the
/// seed of each hand is derived.
#[derive(Clone, Copy, Debug, PartialEq, Eq)]
pub struct RngSeed(pub [u8; 32]);

impl RngSeed {
    /// The seed of a hand: the BLAKE3 digest of the domain tag, the seed
    /// before, and the identifiers of the hand.
    pub open spec fn derived(
        self,
        tag: Seq<u8>,
        table_id: u64,
        hand_id: u64,
        hand_index: u64,
    ) -> Seq<u8> {
        hashing::blake3_digest(hashing::hand_message(tag, self.0@, table_id, hand_id, hand_index))
    }

    pub fn from_bytes(bytes: [u8; 32]) -> (s: RngSeed)
        ensures
            s.0 == bytes,
    {
        RngSeed(bytes)
    }

    pub fn to_bytes(self) -> (bytes: [u8; 32])
        ensures
            bytes == self.0,
    {
        self.0
    }

    /// The seed of a number: its eight little-endian bytes, then zeros.
    pub fn from_u64(seed: u64) -> (s: RngSeed)
        ensures
            s.0@ == hashing::seed_of_number(seed),
    {
        RngSeed(number_seed(seed))
    }

    /// A seed from the entropy of the operating system; `None` where the
    /// system gives none.
    pub fn from_entropy() -> (s: Option<RngSeed>) {
        match os_entropy() {
            Some(bytes) => Some(RngSeed(bytes)),
            None => None,
        }
    }

    /// Derives the seed of a hand from this seed. The domain tag keeps
    /// this use of the hash apart from all others.
    pub fn derive_for_hand(&self, domain_tag: &str, table_id: u64, hand_id: u64, hand_index: u64)
        -> (s: RngSeed)
        ensures
            s.0@ == self.derived(domain_tag.spec_bytes(), table_id, hand_id, hand_index),
    {
        let message = build_hand_message(
            domain_tag.as_bytes(),
            &self.0,
            table_id,
            hand_id,
            hand_index,
        );
        RngSeed(blake3_hash(message.as_slice()))
    }

    /// The seed of a hand, with the tag `poker-hand-v1`, and a generator
    /// seeded with it.
    pub fn rng_for_hand(&self, table_id: u64, hand_id: u64, hand_index: u64) -> (r: (
        RngSeed,
        DeterministicRng,
    ))
        ensures
            r.0.0@ == self.derived("poker-hand-v1".spec_bytes(), table_id, hand_id, hand_index),
            r.1.seeded_with(r.0.0@),
    {
        let new_seed = self.derive_for_hand("poker-hand-v1", table_id, hand_id, hand_index);
        let rng = DeterministicRng::from_seed(new_seed.0);
        (new_seed, rng)
    }
}

/// The generator for ordinary play. It is seeded like the deterministic
/// one; the seed is expected to come from the system's entropy.
#[derive(Debug)]
pub struct SystemRng {
    inner: StdRng,
}

impl SystemRng {
    /// The generator is as the seed made it: nothing was drawn from it
    /// yet.
    pub closed spec fn seeded_with(&self, seed: Seq<u8>) -> bool {
        self.inner == seeded_std_rng(seed)
    }

    /// The generator is as some seed of 32 bytes made it.
    pub open spec fn freshly_seeded(&self) -> bool {
        exists|seed: Seq<u8>| seed.len() == 32 && #[trigger] self.seeded_with(seed)
    }

    /// A generator seeded from the entropy of the operating system;
    /// `None` where the system gives none. The generator is as a seed of
    /// 32 bytes made it; which seed, the system decides.
    pub fn from_entropy() -> (rng: Option<SystemRng>)
        ensures
            rng matches Some(made) ==> made.freshly_seeded(),
    {
        match os_entropy() {
            Some(seed) => {
                let made = SystemRng::from_seed(seed);
                assert(seed@.len() == 32);
                assert(made.seeded_with(seed@));
                Some(made)
            },
            None => None,
        }
    }

    /// The generator of a seed.
    pub fn from_seed(seed: [u8; 32]) -> (rng: SystemRng)
        ensures
            rng.seeded_with(seed@),
    {
        SystemRng { inner: std_rng_from_seed(seed) }
    }

    /// The generator of a number: the seed is the number's eight
    /// little-endian bytes, then zeros.
    pub fn from_u64(seed: u64) -> (rng: SystemRng)
        ensures
            rng.seeded_with(hashing::seed_of_number(seed)),
    {
        SystemRng::from_seed(number_seed(seed))
    }
}

impl Clone for SystemRng {
    /// A generator in the same state: it shuffles as this one does.
    fn clone(&self) -> (copy: SystemRng)
        ensures
            copy == *self,
    {
        SystemRng { inner: std_rng_clone(&self.inner) }
    }
}

impl RandomSource for SystemRng {
    /// The order that the standard generator produces next.
    closed spec fn next_order(&self, n: nat) -> Seq<int> {
        std_rng_order(self.inner, n)
    }

    fn shuffle<T>(&mut self, slice: &mut [T]) {
        std_rng_shuffle(&mut self.inner, slice)
    }
}

/// The generator for tests, replays and simulations: it is always made
/// of a seed, and the seed decides everything it does.
#[derive(Debug)]
pub struct DeterministicRng {
    inner: StdRng,
}

impl DeterministicRng {
    /// The generator is as the seed made it: nothing was drawn from it
    /// yet.
    pub closed spec fn seeded_with(&self, seed: Seq<u8>) -> bool {
        self.inner == seeded_std_rng(seed)
    }

    /// The generator of a seed.
    pub fn from_seed(seed: [u8; 32]) -> (rng: DeterministicRng)
        ensures
            rng.seeded_with(seed@),
    {
        DeterministicRng { inner: std_rng_from_seed(seed) }
    }

    /// The generator of a number: the seed is the number's eight
    /// little-endian bytes, then zeros.
    pub fn from_u64(seed: u64) -> (rng: DeterministicRng)
        ensures
            rng.seeded_with(hashing::seed_of_number(seed)),
    {
        DeterministicRng::from_seed(number_seed(seed))
    }

    /// Generators made of the same seed shuffle alike.
    pub proof fn same_seed_same_order(&self, other: &DeterministicRng, seed: Seq<u8>, n: nat)
        requires
            self.seeded_with(seed),
            other.seeded_with(seed),
        ensures
            self.next_order(n) == other.next_order(n),
    {
    }
}

impl Clone for DeterministicRng {
    /// A generator in the same state: it shuffles as this one does.
    fn clone(&self) -> (copy: DeterministicRng)
        ensures
            copy == *self,
    {
        DeterministicRng { inner: std_rng_clone(&self.inner) }
    }
}

impl RandomSource for DeterministicRng {
    /// The order that the standard generator produces next.
    closed spec fn next_order(&self, n: nat) -> Seq<int> {
        std_rng_order(self.inner, n)
    }

    fn shuffle<T>(&mut self, slice: &mut [T]) {
        std_rng_shuffle(&mut self.inner, slice)
    }
}

} // verus!

//! The seed of the shuffle, and how the seed of each hand is derived from
//! the seed before.

use crate::infra::hashing;
use crate::infra::hashing::{build_hand_message, number_seed, sha256_hash};
use crate::infra::rng::DeterministicRng;
use vstd::prelude::*;
use vstd::string::StringSliceAdditionalSpecFns;

verus! {

/// A seed of 32 bytes.
#[derive(Clone, Copy, Debug, PartialEq, Eq)]
pub struct RngSeed {
    pub bytes: [u8; 32],
}

impl RngSeed {
    /// The tag that sets the seeds of hands apart from every other use of
    /// the hash.
    pub open spec fn domain_tag() -> Seq<u8> {
        "poker-hand-v1".spec_bytes()
    }

    /// The seed of a hand: the SHA-256 digest of the domain tag, the seed
    /// before, and the identifiers of the hand.
    pub open spec fn derived(self, table_id: u64, hand_id: u64, hand_index: u64) -> Seq<u8> {
        hashing::sha256_digest(
            hashing::hand_message(Self::domain_tag(), self.bytes@, table_id, hand_id, hand_index),
        )
    }

    pub fn from_bytes(bytes: [u8; 32]) -> (s: RngSeed)
        ensures
            s.bytes == bytes,
    {
        RngSeed { bytes }
    }

    /// The seed of a number: its eight little-endian bytes, then zeros.
    pub fn from_u64(x: u64) -> (s: RngSeed)
        ensures
            s.bytes@ == hashing::seed_of_number(x),
    {
        RngSeed { bytes: number_seed(x) }
    }

    /// Derives the seed of a hand from this seed. The same seed and the
    /// same identifiers always give the same seed.
    pub fn derive(&self, table_id: u64, hand_id: u64, hand_index: u64) -> (s: RngSeed)
        ensures
            s.bytes@ == self.derived(table_id, hand_id, hand_index),
    {
        let message = build_hand_message(
            "poker-hand-v1".as_bytes(),
            &self.bytes,
            table_id,
            hand_id,
            hand_index,
        );
        RngSeed { bytes: sha256_hash(message.as_slice()) }
    }

    /// A deterministic generator seeded with this seed.
    pub fn to_rng(&self) -> (rng: DeterministicRng)
        ensures
            rng.seeded_with(self.bytes@),
    {
        DeterministicRng::from_seed(self.bytes)
    }
}

} // verus!

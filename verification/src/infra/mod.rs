//! What stands around the engine: identifiers, the generators that
//! shuffle, the seed pipeline, and the mapping to the views of the API.

pub mod hashing;
pub mod ids;
pub mod mapping;
pub mod persistence;
pub mod rng;
pub mod rng_seed;
pub mod xorshift;

pub use ids::{ExternalId, IdGenerator};
pub use mapping::{
    ante_type_from_api, ante_type_to_api, is_seat_active, map_table_to_dto, DefaultNameResolver,
    PlayerNameResolver,
};
pub use rng::{DeterministicRng, SystemRng};
pub use rng_seed::RngSeed;
pub use xorshift::XorShiftRng;

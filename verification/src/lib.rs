//! The Poseidon algebraic hash function: a permutation over a fixed-width
//! state of field elements, wrapped in a duplex sponge and a one-shot hashing
//! facade.

pub mod domain;
pub mod field;
pub mod hash;
pub mod permutation;
pub mod sample;
pub mod sponge;

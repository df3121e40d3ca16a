//! Systematic erasure coding for data availability: a payload is split into
//! `n` redundant chunks, one per validator, such that any `k` of them (the
//! recovery threshold, roughly a third of `n`) suffice to reconstruct the
//! payload. The polynomial arithmetic over GF(2^16) is done by the
//! `reed-solomon-novelpoly` crate; everything around it — parameter
//! derivation, validation of chunk sets, and the shape of the chunk stream —
//! is specified and verified here.

pub mod arith;
mod bytes;
pub mod decode;
pub mod encode;
pub mod engine;
pub mod errors;
pub mod params;

pub use decode::{reconstruct, reconstruct_indexed};
pub use encode::obtain_chunks;
pub use errors::Error;
pub use params::{code_params, recovery_threshold, CodeParams, FIELD_SIZE};

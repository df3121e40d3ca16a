use vstd::prelude::*;

verus! {

/// The ways in which erasure coding or reconstruction can fail.
#[derive(Debug, Clone, PartialEq, Eq, Structural)]
pub enum Error {
    /// The validator count exceeds the field size of the underlying code.
    TooManyValidators,
    /// Fewer than two validators were requested; no redundancy is possible.
    NotEnoughValidators,
    /// Chunks handed to reconstruction differ in length or are empty.
    NonUniformChunks,
    /// A chunk has an odd byte length, which a code over two-byte symbols
    /// cannot accept.
    UnevenLength,
    /// A chunk claims an index outside `0..n_validators`.
    ChunkIndexOutOfBounds { chunk_index: usize, n_validators: usize },
    /// The payload to encode was empty, or reconstruction could not recover
    /// valid data.
    BadPayload,
    /// Parameter derivation failed for a reason not otherwise classified.
    UnknownCodeParam,
}

/// The view of a byte-buffer result, for stating contracts.
pub open spec fn res_bytes(r: Result<Vec<u8>, Error>) -> Result<Seq<u8>, Error> {
    match r {
        Ok(v) => Ok(v@),
        Err(e) => Err(e),
    }
}

} // verus!

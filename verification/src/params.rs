//! Deriving coding parameters from a validator count.

use vstd::prelude::*;

use crate::engine::engine_derive_parameters;
use crate::errors::Error;

verus! {

/// The alphabet size of the engine's field, GF(2^16): the hard upper bound
/// on the number of validators.
pub const FIELD_SIZE: usize = 65536;

/// The recovery threshold for `n_validators` chunks: one more than a third
/// of the rest, so that up to a third of the chunks may be lost.
pub open spec fn threshold(n_validators: int) -> int {
    (n_validators - 1) / 3 + 1
}

/// The minimum number of distinct chunks that suffice to recover a payload
/// encoded for `n_validators` validators.
pub fn recovery_threshold(n_validators: usize) -> (r: Result<usize, Error>)
    ensures
        n_validators > FIELD_SIZE ==> r == Err::<usize, Error>(Error::TooManyValidators),
        n_validators <= 1 ==> r == Err::<usize, Error>(Error::NotEnoughValidators),
        2 <= n_validators <= FIELD_SIZE ==> r == Ok::<usize, Error>(
            threshold(n_validators as int) as usize,
        ),
        r matches Ok(k) ==> 1 <= k <= n_validators,
        r is Ok <==> 2 <= n_validators <= FIELD_SIZE,
{
    if n_validators > FIELD_SIZE {
        return Err(Error::TooManyValidators);
    }
    if n_validators <= 1 {
        return Err(Error::NotEnoughValidators);
    }
    let needed: usize = (n_validators - 1) / 3;
    Ok(needed + 1)
}

/// Coding parameters for one encode or reconstruct operation: `n_validators`
/// chunks in total, of which any `k` suffice to reconstruct.
#[derive(Debug, Clone, Copy, PartialEq, Eq, Structural)]
pub struct CodeParams {
    pub n_validators: usize,
    pub k: usize,
}

impl CodeParams {
    /// Both bounds that make the pair usable: a validator count within the
    /// field, and the recovery threshold derived from it.
    pub open spec fn wf(self) -> bool {
        &&& 2 <= self.n_validators <= FIELD_SIZE
        &&& self.k == threshold(self.n_validators as int)
    }
}

/// Validates a validator count against the field-size limit and derives the
/// coding parameters for it, consulting the engine's own derivation.
pub fn code_params(n_validators: usize) -> (r: Result<CodeParams, Error>)
    ensures
        r matches Ok(p) ==> p.wf() && p.n_validators == n_validators,
        n_validators > FIELD_SIZE ==> r == Err::<CodeParams, Error>(Error::TooManyValidators),
        n_validators <= 1 ==> r == Err::<CodeParams, Error>(Error::NotEnoughValidators),
        r is Ok <==> 2 <= n_validators <= FIELD_SIZE,
{
    let k = match recovery_threshold(n_validators) {
        Ok(k) => k,
        Err(e) => return Err(e),
    };
    if n_validators > FIELD_SIZE {
        return Err(Error::TooManyValidators);
    }
    match engine_derive_parameters(n_validators, k) {
        None => Ok(CodeParams { n_validators, k }),
        Some(e) => Err(e),
    }
}

} // verus!

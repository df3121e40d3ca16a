//! The boundary to the `reed-solomon-novelpoly` codec engine.
//!
//! The engine derives its internal shard counts by rounding: the wanted shard
//! count `n` up to a power of two, the wanted data-shard count `k` down to
//! one. Everything the rest of the crate relies on is stated here, over plain
//! byte sequences, in the contracts of three trusted wrappers.

use vstd::prelude::*;

use crate::arith::{higher_pow2, lower_pow2};
use crate::errors::Error;

verus! {

/// The shards the engine's encoder derives from a payload: a pure function
/// of the wanted shard count, the wanted data-shard count and the payload.
pub uninterp spec fn engine_shards(n_validators: int, k: int, payload: Seq<u8>) -> Seq<Seq<u8>>;

/// The bytes the engine's decoder recovers from a shard set: a pure function
/// of the wanted shard count, the wanted data-shard count and the set.
pub uninterp spec fn engine_recovered(
    n_validators: int,
    k: int,
    shards: Seq<Option<Seq<u8>>>,
) -> Seq<u8>;

/// The byte length of each shard the engine produces: the payload's two-byte
/// symbols, spread over `lower_pow2(k)` data shards, rounded up.
pub open spec fn engine_shard_len(k: nat, payload_len: nat) -> nat {
    2 * (((payload_len + 1) / 2 + lower_pow2(k) - 1) / lower_pow2(k) as int) as nat
}

/// The element-wise view of a sequence of byte vectors.
pub open spec fn vec_views(s: Seq<Vec<u8>>) -> Seq<Seq<u8>> {
    s.map_values(|v: Vec<u8>| v@)
}

/// The element-wise view of a sequence of optional byte vectors.
pub open spec fn opt_views(s: Seq<Option<Vec<u8>>>) -> Seq<Option<Seq<u8>>> {
    s.map_values(
        |o: Option<Vec<u8>>|
            match o {
                Some(v) => Some(v@),
                None => None,
            },
    )
}

/// How many entries of a shard set are present.
pub open spec fn count_present(s: Seq<Option<Seq<u8>>>) -> nat
    decreases s.len(),
{
    if s.len() == 0 {
        0
    } else {
        (if s[0] is Some {
            1nat
        } else {
            0nat
        }) + count_present(s.drop_first())
    }
}

/// Every present entry of the shard set has length `l`.
pub open spec fn present_len_is(s: Seq<Option<Seq<u8>>>, l: nat) -> bool {
    forall|i: int|
        0 <= i < s.len() ==> ((#[trigger] s[i]) matches Some(c) ==> c.len() == l)
}

/// Relies on `reed_solomon_novelpoly::CodeParams::derive_parameters`: for a
/// wanted shard count within the field and a data-shard count within it, it
/// fails exactly on a count below two (reported as too low) or a wanted
/// data-shard count of zero (an unclassified failure); the errors are mapped
/// to this crate's as the variants say.
#[verifier::external_body]
pub(crate) fn engine_derive_parameters(n_validators: usize, k: usize) -> (r: Option<Error>)
    requires
        n_validators <= 65536,
        k <= n_validators,
    ensures
        2 <= n_validators && 1 <= k ==> r is None,
        n_validators < 2 ==> r == Some(Error::NotEnoughValidators),
        2 <= n_validators && k < 1 ==> r == Some(Error::UnknownCodeParam),
{
    match reed_solomon_novelpoly::CodeParams::derive_parameters(n_validators, k) {
        Ok(_) => None,
        Err(reed_solomon_novelpoly::Error::WantedShardCountTooHigh(_)) => {
            Some(Error::TooManyValidators)
        },
        Err(reed_solomon_novelpoly::Error::WantedShardCountTooLow(_)) => {
            Some(Error::NotEnoughValidators)
        },
        Err(_) => Some(Error::UnknownCodeParam),
    }
}

/// Relies on `reed_solomon_novelpoly`: `CodeParams::derive_parameters`,
/// `CodeParams::make_encoder` and `ReedSolomon::encode`, which cut a
/// non-empty payload into `n_validators` shards of `engine_shard_len` bytes
/// each, whose contents depend on nothing but `n_validators`, `k` and the
/// payload (`engine_shards`).
#[verifier::external_body]
pub(crate) fn engine_encode(n_validators: usize, k: usize, payload: &[u8]) -> (r: Result<
    Vec<Vec<u8>>,
    Error,
>)
    requires
        2 <= n_validators <= 65536,
        1 <= k,
        2 * lower_pow2(k as nat) <= higher_pow2(n_validators as nat),
        payload@.len() >= 1,
    ensures
        r is Ok,
        r matches Ok(shards) ==> {
            &&& shards@.len() == n_validators
            &&& forall|i: int|
                0 <= i < shards@.len() ==> (#[trigger] shards@[i])@.len() == engine_shard_len(
                    k as nat,
                    payload@.len(),
                )
            &&& vec_views(shards@) == engine_shards(n_validators as int, k as int, payload@)
        },
{
    let params = match reed_solomon_novelpoly::CodeParams::derive_parameters(n_validators, k) {
        Ok(p) => p,
        Err(_) => return Err(Error::UnknownCodeParam),
    };
    match params.make_encoder().encode::<reed_solomon_novelpoly::WrappedShard>(payload) {
        Ok(shards) => Ok(shards.into_iter().map(|s| s.into_inner()).collect()),
        Err(_) => Err(Error::BadPayload),
    }
}

/// Relies on `reed_solomon_novelpoly`: `CodeParams::derive_parameters`,
/// `CodeParams::make_encoder` and `ReedSolomon::reconstruct`. Handed
/// `n_validators` slots whose present shards share one even, non-zero
/// length, it fails exactly when fewer than `lower_pow2(k)` shards are
/// present; what it recovers depends on nothing but `n_validators`, `k` and
/// the shard set (`engine_recovered`), `lower_pow2(k)` symbols per shard
/// symbol.
#[verifier::external_body]
pub(crate) fn engine_reconstruct(
    n_validators: usize,
    k: usize,
    shards: Vec<Option<Vec<u8>>>,
) -> (r: Result<Vec<u8>, Error>)
    requires
        2 <= n_validators <= 65536,
        1 <= k,
        2 * lower_pow2(k as nat) <= higher_pow2(n_validators as nat),
        shards@.len() == n_validators,
        exists|l: nat| l >= 1 && l % 2 == 0 && present_len_is(opt_views(shards@), l),
    ensures
        r is Err <==> count_present(opt_views(shards@)) < lower_pow2(k as nat),
        r matches Err(e) ==> e == Error::BadPayload,
        r matches Ok(p) ==> p@ == engine_recovered(
            n_validators as int,
            k as int,
            opt_views(shards@),
        ),
        r matches Ok(p) ==> forall|l: nat|
            present_len_is(opt_views(shards@), l) ==> p@.len() == l * lower_pow2(k as nat),
{
    let wrapped: Vec<Option<reed_solomon_novelpoly::WrappedShard>> = shards
        .into_iter()
        .map(|o| o.map(reed_solomon_novelpoly::WrappedShard::new))
        .collect();
    let params = match reed_solomon_novelpoly::CodeParams::derive_parameters(n_validators, k) {
        Ok(p) => p,
        Err(_) => return Err(Error::BadPayload),
    };
    params.make_encoder().reconstruct(wrapped).map_err(|_| Error::BadPayload)
}

} // verus!

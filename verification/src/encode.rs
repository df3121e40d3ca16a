//! Encoding a payload into one chunk per validator.

use vstd::prelude::*;

use crate::arith::lemma_threshold_fit;
use crate::bytes::copy_range;
use crate::engine::{engine_encode, engine_shard_len, engine_shards, vec_views};
use crate::errors::Error;
use crate::params::{code_params, threshold, FIELD_SIZE};

verus! {

/// All the sequences of `s`, laid back to back.
pub open spec fn concat_all(s: Seq<Seq<u8>>) -> Seq<u8>
    decreases s.len(),
{
    if s.len() == 0 {
        Seq::empty()
    } else {
        s[0] + concat_all(s.drop_first())
    }
}

pub proof fn lemma_concat_all_push(s: Seq<Seq<u8>>, x: Seq<u8>)
    ensures
        concat_all(s.push(x)) == concat_all(s) + x,
    decreases s.len(),
{
    if s.len() == 0 {
        assert(s.push(x)[0] == x);
        assert(s.push(x).drop_first() =~= Seq::<Seq<u8>>::empty());
        assert(concat_all(s.push(x)) == x + concat_all(Seq::<Seq<u8>>::empty()));
        assert(x + Seq::<u8>::empty() =~= x);
        assert(concat_all(s) + x =~= x);
    } else {
        assert(s.push(x)[0] == s[0]);
        assert(s.push(x).drop_first() =~= s.drop_first().push(x));
        lemma_concat_all_push(s.drop_first(), x);
        assert(concat_all(s.push(x)) == s[0] + (concat_all(s.drop_first()) + x));
        assert(s[0] + (concat_all(s.drop_first()) + x) =~= (s[0] + concat_all(s.drop_first()))
            + x);
    }
}

pub proof fn lemma_concat_all_uniform_len(s: Seq<Seq<u8>>, l: nat)
    requires
        forall|i: int| 0 <= i < s.len() ==> (#[trigger] s[i]).len() == l,
    ensures
        concat_all(s).len() == s.len() * l,
    decreases s.len(),
{
    if s.len() == 0 {
    } else {
        lemma_concat_all_uniform_len(s.drop_first(), l);
        assert(concat_all(s).len() == l + (s.len() - 1) * l);
        assert(l + (s.len() - 1) * l == s.len() * l) by (nonlinear_arith);
    }
}

pub proof fn lemma_concat_all_piece(s: Seq<Seq<u8>>, l: nat, i: int)
    requires
        forall|j: int| 0 <= j < s.len() ==> (#[trigger] s[j]).len() == l,
        0 <= i < s.len(),
    ensures
        concat_all(s).subrange(i * l, (i + 1) * l) == s[i],
    decreases i,
{
    lemma_concat_all_uniform_len(s, l);
    assert(i * l >= 0 && (i + 1) * l <= s.len() * l) by (nonlinear_arith)
        requires
            0 <= i < s.len(),
    ;
    if i == 0 {
        assert(i * l == 0 && (i + 1) * l == l) by (nonlinear_arith)
            requires
                i == 0,
        ;
        assert(concat_all(s).subrange(0, l as int) =~= s[0]);
    } else {
        let rest = s.drop_first();
        lemma_concat_all_piece(rest, l, i - 1);
        lemma_concat_all_uniform_len(rest, l);
        assert((i - 1) * l == i * l - l && i * l == (i + 1) * l - l) by (nonlinear_arith);
        assert(concat_all(s).subrange(i * l, (i + 1) * l) =~= concat_all(rest).subrange(
            (i - 1) * l,
            i * l,
        ));
        assert(rest[i - 1] == s[i]);
    }
}

/// What `obtain_chunks` returns, in full: the validator count is judged
/// before the payload is looked at, and on success the result is the
/// engine's shards for the derived threshold, flattened in index order.
pub open spec fn spec_obtain_chunks(n_validators: usize, data: Seq<u8>) -> Result<Seq<u8>, Error> {
    if n_validators > FIELD_SIZE {
        Err(Error::TooManyValidators)
    } else if n_validators <= 1 {
        Err(Error::NotEnoughValidators)
    } else if data.len() == 0 {
        Err(Error::BadPayload)
    } else {
        Ok(
            concat_all(
                engine_shards(n_validators as int, threshold(n_validators as int), data),
            ),
        )
    }
}

/// Encodes `data` into `n_validators` chunks of equal length, returned as
/// one flat buffer in index order; the chunk length is the buffer's length
/// divided by `n_validators`.
pub fn obtain_chunks(n_validators: usize, data: &[u8]) -> (r: Result<Vec<u8>, Error>)
    ensures
        crate::errors::res_bytes(r) == spec_obtain_chunks(n_validators, data@),
        r is Ok <==> data@.len() >= 1 && 2 <= n_validators <= FIELD_SIZE,
        r matches Ok(flat) ==> {
            let shards = engine_shards(
                n_validators as int,
                threshold(n_validators as int),
                data@,
            );
            &&& shards.len() == n_validators
            &&& forall|i: int|
                0 <= i < shards.len() ==> (#[trigger] shards[i]).len() == engine_shard_len(
                    threshold(n_validators as int) as nat,
                    data@.len(),
                )
            &&& flat@.len() == n_validators * engine_shard_len(
                threshold(n_validators as int) as nat,
                data@.len(),
            )
        },
{
    let params = match code_params(n_validators) {
        Ok(p) => p,
        Err(e) => return Err(e),
    };
    if data.len() == 0 {
        return Err(Error::BadPayload);
    }
    proof {
        lemma_threshold_fit(n_validators as nat);
    }
    let shards = match engine_encode(n_validators, params.k, data) {
        Ok(s) => s,
        Err(_) => return Err(Error::BadPayload),
    };
    let ghost shard_views = vec_views(shards@);
    let ghost piece_len = engine_shard_len(params.k as nat, data@.len());
    let mut flat: Vec<u8> = Vec::new();
    let mut i: usize = 0;
    while i < shards.len()
        invariant
            i <= shards@.len(),
            shard_views == vec_views(shards@),
            shard_views.len() == shards@.len(),
            forall|j: int|
                0 <= j < shards@.len() ==> (#[trigger] shard_views[j]) == shards@[j]@,
            forall|j: int| 0 <= j < shards@.len() ==> (#[trigger] shard_views[j]).len() == piece_len,
            flat@ == concat_all(shard_views.take(i as int)),
            flat@.len() == i * piece_len,
        decreases shards@.len() - i,
    {
        let ghost before = flat@;
        let shard = &shards[i];
        copy_range(&mut flat, shard.as_slice(), 0, shard.len());
        proof {
            assert(shard@.subrange(0, shard@.len() as int) =~= shard_views[i as int]);
            lemma_concat_all_push(shard_views.take(i as int), shard_views[i as int]);
            assert(shard_views.take(i + 1int) =~= shard_views.take(i as int).push(
                shard_views[i as int],
            ));
            assert(flat@ =~= concat_all(shard_views.take(i + 1int)));
            assert(flat@.len() == (i + 1) * piece_len) by (nonlinear_arith)
                requires
                    flat@.len() == before.len() + piece_len,
                    before.len() == i * piece_len,
            ;
        }
        i += 1;
    }
    proof {
        assert(shard_views.take(shards@.len() as int) =~= shard_views);
    }
    Ok(flat)
}

/// Encoding is deterministic: one validator count and one payload settle the
/// chunk stream, so encoding the same payload twice yields identical chunks.
pub proof fn lemma_obtain_chunks_deterministic(
    n1: usize,
    data1: Seq<u8>,
    n2: usize,
    data2: Seq<u8>,
)
    requires
        n1 == n2,
        data1 == data2,
    ensures
        spec_obtain_chunks(n1, data1) == spec_obtain_chunks(n2, data2),
{
}

} // verus!

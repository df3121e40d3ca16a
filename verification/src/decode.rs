//! Reconstructing a payload from indexed chunks.

use vstd::prelude::*;

use crate::arith::{lemma_threshold_fit, lower_pow2};
use crate::bytes::copy_range;
use crate::encode::concat_all;
use crate::engine::{
    count_present, engine_reconstruct, engine_recovered, opt_views, present_len_is,
};
use crate::errors::{res_bytes, Error};
use crate::params::{code_params, threshold, FIELD_SIZE};

verus! {

/// One validation step per chunk, exactly in the order the reconstructor
/// walks them: an index past the shard set fails first; the first chunk
/// establishes the expected length, which must be even and non-zero; every
/// later chunk must match it. A chunk that passes is recorded at its index,
/// a repeated index keeping the later chunk.
pub open spec fn scan_chunks(
    n_validators: usize,
    chunks: Seq<(Seq<u8>, usize)>,
    shards: Seq<Option<Seq<u8>>>,
    expected: Option<nat>,
) -> Result<Seq<Option<Seq<u8>>>, Error>
    decreases chunks.len(),
{
    if chunks.len() == 0 {
        Ok(shards)
    } else if chunks[0].1 >= n_validators {
        Err(
            Error::ChunkIndexOutOfBounds {
                chunk_index: chunks[0].1,
                n_validators: n_validators,
            },
        )
    } else {
        let l = match expected {
            Some(l) => l,
            None => chunks[0].0.len(),
        };
        if l % 2 != 0 {
            Err(Error::UnevenLength)
        } else if l != chunks[0].0.len() || l == 0 {
            Err(Error::NonUniformChunks)
        } else {
            scan_chunks(
                n_validators,
                chunks.drop_first(),
                shards.update(chunks[0].1 as int, Some(chunks[0].0)),
                Some(l),
            )
        }
    }
}

/// A shard set of `n_validators` slots, all absent.
pub open spec fn empty_shards(n_validators: usize) -> Seq<Option<Seq<u8>>> {
    Seq::new(n_validators as nat, |i: int| None)
}

/// The element-wise view of a sequence of indexed chunks.
pub open spec fn pair_views(s: Seq<(Vec<u8>, usize)>) -> Seq<(Seq<u8>, usize)> {
    s.map_values(|p: (Vec<u8>, usize)| (p.0@, p.1))
}

/// What `reconstruct_indexed` returns, in full: parameter errors first, then
/// the chunk scan's error if it fails, then the engine's recovery — which
/// needs at least `lower_pow2(threshold)` chunks present — or `BadPayload`.
pub open spec fn spec_reconstruct_indexed(
    n_validators: usize,
    chunks: Seq<(Seq<u8>, usize)>,
) -> Result<Seq<u8>, Error> {
    if n_validators > FIELD_SIZE {
        Err(Error::TooManyValidators)
    } else if n_validators <= 1 {
        Err(Error::NotEnoughValidators)
    } else {
        match scan_chunks(n_validators, chunks, empty_shards(n_validators), None) {
            Err(e) => Err(e),
            Ok(s) => {
                if count_present(s) < lower_pow2(threshold(n_validators as int) as nat) {
                    Err(Error::BadPayload)
                } else {
                    Ok(engine_recovered(n_validators as int, threshold(n_validators as int), s))
                }
            },
        }
    }
}

/// Rebuilds a payload from chunks carrying their own indices, in any order;
/// at least the derived recovery threshold of them must be present.
#[verifier::loop_isolation(false)]
pub fn reconstruct_indexed(n_validators: usize, chunks: &[(Vec<u8>, usize)]) -> (r: Result<
    Vec<u8>,
    Error,
>)
    ensures
        res_bytes(r) == spec_reconstruct_indexed(n_validators, pair_views(chunks@)),
        r matches Ok(v) ==> (scan_chunks(
            n_validators,
            pair_views(chunks@),
            empty_shards(n_validators),
            None,
        ) matches Ok(s) && (forall|l: nat|
            present_len_is(s, l) ==> v@.len() == l * lower_pow2(
                threshold(n_validators as int) as nat,
            ))),
{
    let params = match code_params(n_validators) {
        Ok(p) => p,
        Err(e) => return Err(e),
    };
    let n = n_validators;
    let mut shards: Vec<Option<Vec<u8>>> = Vec::new();
    let mut i: usize = 0;
    while i < n
        invariant
            shards@.len() == i,
            i <= n,
            forall|j: int| 0 <= j < i ==> shards@[j] is None,
        decreases n - i,
    {
        shards.push(None);
        i += 1;
    }
    proof {
        assert(opt_views(shards@) =~= empty_shards(n));
    }
    let ghost all_pairs = pair_views(chunks@);
    let ghost target = scan_chunks(n, all_pairs, empty_shards(n), None);
    proof {
        assert(all_pairs.skip(0) =~= all_pairs);
    }
    let mut expected: Option<usize> = None;
    let mut c: usize = 0;
    while c < chunks.len()
        invariant
            c <= chunks@.len(),
            n == n_validators,
            shards@.len() == n,
            all_pairs == pair_views(chunks@),
            all_pairs.len() == chunks@.len(),
            target == scan_chunks(
                n,
                all_pairs.skip(c as int),
                opt_views(shards@),
                match expected {
                    Some(l) => Some(l as nat),
                    None => None,
                },
            ),
            expected matches Some(l) ==> l >= 1 && l % 2 == 0,
            expected matches Some(l) ==> present_len_is(opt_views(shards@), l as nat),
            expected is None ==> forall|j: int|
                0 <= j < n ==> opt_views(shards@)[j] is None,
        decreases chunks@.len() - c,
    {
        proof {
            assert(all_pairs.skip(c as int)[0] == all_pairs[c as int]);
            assert(all_pairs.skip(c as int).drop_first() =~= all_pairs.skip(c + 1int));
            assert(all_pairs[c as int] == (chunks@[c as int].0@, chunks@[c as int].1));
        }
        let chunk_data = &chunks[c].0;
        let chunk_idx = chunks[c].1;
        if chunk_idx >= n {
            return Err(
                Error::ChunkIndexOutOfBounds { chunk_index: chunk_idx, n_validators: n },
            );
        }
        let l = match expected {
            Some(l) => l,
            None => chunk_data.len(),
        };
        if l % 2 != 0 {
            return Err(Error::UnevenLength);
        }
        if l != chunk_data.len() || l == 0 {
            return Err(Error::NonUniformChunks);
        }
        let mut cp: Vec<u8> = Vec::new();
        copy_range(&mut cp, chunk_data.as_slice(), 0, chunk_data.len());
        proof {
            assert(cp@ =~= chunk_data@);
        }
        let ghost prev = opt_views(shards@);
        shards.set(chunk_idx, Some(cp));
        proof {
            assert(opt_views(shards@) =~= prev.update(chunk_idx as int, Some(chunk_data@)));
        }
        expected = Some(l);
        c += 1;
    }
    proof {
        assert(all_pairs.skip(c as int) =~= Seq::<(Seq<u8>, usize)>::empty());
        assert(target == Ok::<Seq<Option<Seq<u8>>>, Error>(opt_views(shards@)));
        lemma_threshold_fit(n as nat);
        match expected {
            Some(l) => {
                assert(present_len_is(opt_views(shards@), l as nat));
            },
            None => {
                assert(present_len_is(opt_views(shards@), 2nat));
            },
        }
    }
    engine_reconstruct(n, params.k, shards)
}

/// How many `chunk_size`-sized pieces a buffer of `len` bytes falls into,
/// the last piece possibly short.
pub open spec fn chunk_count(len: int, chunk_size: int) -> int {
    (len + chunk_size - 1) / chunk_size
}

/// The first `n_validators` pieces of a flat buffer read as `chunk_size`-
/// sized chunks, each piece paired with its position; pieces beyond
/// `n_validators` are ignored.
pub open spec fn chunk_pairs(flat: Seq<u8>, chunk_size: usize, n_validators: usize) -> Seq<
    (Seq<u8>, usize),
> {
    let pieces = if chunk_count(flat.len() as int, chunk_size as int) < n_validators {
        chunk_count(flat.len() as int, chunk_size as int)
    } else {
        n_validators as int
    };
    Seq::new(
        pieces as nat,
        |i: int|
            (
                flat.subrange(
                    i * chunk_size,
                    if (i + 1) * chunk_size < flat.len() {
                        (i + 1) * chunk_size
                    } else {
                        flat.len() as int
                    },
                ),
                i as usize,
            ),
    )
}

/// What `reconstruct` returns: the flat buffer is split into its first
/// `n_validators` pieces, position standing for index, and handed to the
/// indexed reconstruction. A zero chunk size reads a non-empty buffer as
/// empty chunks, whose established length of zero the scan rejects; an
/// empty buffer yields no chunks at all either way.
pub open spec fn spec_reconstruct(
    n_validators: usize,
    flat: Seq<u8>,
    chunk_size: usize,
) -> Result<Seq<u8>, Error> {
    if chunk_size == 0 {
        if flat.len() == 0 {
            spec_reconstruct_indexed(n_validators, Seq::empty())
        } else {
            spec_reconstruct_indexed(n_validators, seq![(Seq::<u8>::empty(), 0usize)])
        }
    } else {
        spec_reconstruct_indexed(n_validators, chunk_pairs(flat, chunk_size, n_validators))
    }
}

/// Rebuilds a payload from a flat buffer of chunks laid back to back in
/// index order, each `chunk_size` bytes long.
#[verifier::loop_isolation(false)]
pub fn reconstruct(n_validators: usize, flattened_chunks: &[u8], chunk_size: usize) -> (r: Result<
    Vec<u8>,
    Error,
>)
    ensures
        res_bytes(r) == spec_reconstruct(n_validators, flattened_chunks@, chunk_size),
{
    if chunk_size == 0 {
        let mut degenerate: Vec<(Vec<u8>, usize)> = Vec::new();
        if flattened_chunks.len() > 0 {
            degenerate.push((Vec::new(), 0));
            proof {
                assert(pair_views(degenerate@) =~= seq![(Seq::<u8>::empty(), 0usize)]);
            }
        } else {
            proof {
                assert(pair_views(degenerate@) =~= Seq::<(Seq<u8>, usize)>::empty());
            }
        }
        return reconstruct_indexed(n_validators, degenerate.as_slice());
    }
    let len = flattened_chunks.len();
    let ghost target_pairs = chunk_pairs(flattened_chunks@, chunk_size, n_validators);
    let mut pairs: Vec<(Vec<u8>, usize)> = Vec::new();
    let mut start: usize = 0;
    let mut idx: usize = 0;
    while start < len && idx < n_validators
        invariant
            idx <= n_validators,
            pairs@.len() == idx,
            start == if idx * (chunk_size as int) <= len {
                idx * (chunk_size as int)
            } else {
                len as int
            },
            idx == 0 || (idx - 1) * (chunk_size as int) < len,
            idx <= target_pairs.len(),
            pair_views(pairs@) == target_pairs.take(idx as int),
        decreases len - start,
    {
        let end = if len - start < chunk_size {
            len
        } else {
            start + chunk_size
        };
        let mut piece: Vec<u8> = Vec::new();
        copy_range(&mut piece, flattened_chunks, start, end);
        let ghost prev_pairs = pairs@;
        pairs.push((piece, idx));
        proof {
            assert(idx * (chunk_size as int) <= len);
            assert((idx + 1) * (chunk_size as int) == idx * (chunk_size as int) + chunk_size)
                by (nonlinear_arith);
            assert(idx + 1 <= target_pairs.len()) by {
                if end < len {
                    assert((idx + 1) * (chunk_size as int) < len);
                    assert(idx + 1 <= chunk_count(len as int, chunk_size as int))
                        by (nonlinear_arith)
                        requires
                            chunk_size >= 1,
                            (idx + 1) * (chunk_size as int) < len,
                    ;
                } else {
                    assert(idx * (chunk_size as int) < len);
                    assert(idx + 1 <= chunk_count(len as int, chunk_size as int))
                        by (nonlinear_arith)
                        requires
                            chunk_size >= 1,
                            idx * (chunk_size as int) < len,
                    ;
                }
            }
            assert(target_pairs[idx as int] == (piece@, idx));
            assert(pair_views(pairs@) =~= pair_views(prev_pairs).push((piece@, idx)));
            assert(target_pairs.take(idx + 1int) =~= target_pairs.take(idx as int).push(
                target_pairs[idx as int],
            ));
            assert(pair_views(pairs@) =~= target_pairs.take(idx + 1int));
        }
        idx += 1;
        start = end;
    }
    proof {
        assert(idx == target_pairs.len()) by {
            if start < len {
                assert(idx == n_validators);
                assert(idx * (chunk_size as int) < len);
                assert(n_validators < chunk_count(len as int, chunk_size as int))
                    by (nonlinear_arith)
                    requires
                        chunk_size >= 1,
                        (n_validators as int) * (chunk_size as int) < len,
                ;
            } else {
                if len == 0 {
                    vstd::arithmetic::div_mod::lemma_basic_div(
                        chunk_size - 1,
                        chunk_size as int,
                    );
                    assert(chunk_count(len as int, chunk_size as int) == 0);
                } else {
                    assert(idx >= 1);
                    assert(idx * (chunk_size as int) >= len);
                    assert((idx - 1) * (chunk_size as int) < len);
                    assert(idx == chunk_count(len as int, chunk_size as int))
                        by (nonlinear_arith)
                        requires
                            chunk_size >= 1,
                            len >= 1,
                            idx >= 1,
                            idx * (chunk_size as int) >= len,
                            (idx - 1) * (chunk_size as int) < len,
                    ;
                }
            }
        }
        assert(pair_views(pairs@) =~= target_pairs);
    }
    reconstruct_indexed(n_validators, pairs.as_slice())
}

/// Each shard paired with its own position.
pub open spec fn with_indices(shards: Seq<Seq<u8>>) -> Seq<(Seq<u8>, usize)> {
    Seq::new(shards.len(), |i: int| (shards[i], i as usize))
}

/// The shard set that holds the first `c` shards and nothing else.
pub open spec fn lift_prefix(shards: Seq<Seq<u8>>, c: int) -> Seq<Option<Seq<u8>>> {
    Seq::new(
        shards.len(),
        |j: int|
            if j < c {
                Some(shards[j])
            } else {
                None
            },
    )
}

pub proof fn lemma_count_present_all(s: Seq<Option<Seq<u8>>>)
    requires
        forall|j: int| 0 <= j < s.len() ==> (#[trigger] s[j]) is Some,
    ensures
        count_present(s) == s.len(),
    decreases s.len(),
{
    if s.len() > 0 {
        lemma_count_present_all(s.drop_first());
    }
}

pub proof fn lemma_scan_intact(n_validators: usize, shards: Seq<Seq<u8>>, l: usize, c: int)
    requires
        1 <= n_validators <= FIELD_SIZE,
        shards.len() == n_validators,
        forall|i: int| 0 <= i < shards.len() ==> (#[trigger] shards[i]).len() == l,
        l >= 1,
        l % 2 == 0,
        0 <= c <= n_validators,
    ensures
        scan_chunks(
            n_validators,
            with_indices(shards).skip(c),
            lift_prefix(shards, c),
            if c == 0 {
                None
            } else {
                Some(l as nat)
            },
        ) == Ok::<Seq<Option<Seq<u8>>>, Error>(lift_prefix(shards, n_validators as int)),
    decreases n_validators - c,
{
    let pairs = with_indices(shards).skip(c);
    if c == n_validators {
        assert(pairs =~= Seq::<(Seq<u8>, usize)>::empty());
        assert(lift_prefix(shards, c) =~= lift_prefix(shards, n_validators as int));
    } else {
        assert(pairs[0] == (shards[c], c as usize));
        assert(pairs.drop_first() =~= with_indices(shards).skip(c + 1));
        assert(lift_prefix(shards, c).update(c, Some(shards[c])) =~= lift_prefix(
            shards,
            c + 1,
        ));
        lemma_scan_intact(n_validators, shards, l, c + 1);
    }
}

/// The provable half of the round trip: the intact output of an encode —
/// `n_validators` equal, even, non-empty chunks laid back to back — always
/// passes validation, and reconstruction hands the engine exactly those
/// chunks, every one present.
pub proof fn lemma_reconstruct_intact(n_validators: usize, shards: Seq<Seq<u8>>, l: usize)
    requires
        2 <= n_validators <= FIELD_SIZE,
        shards.len() == n_validators,
        forall|i: int| 0 <= i < shards.len() ==> (#[trigger] shards[i]).len() == l,
        l >= 1,
        l % 2 == 0,
    ensures
        spec_reconstruct(n_validators, concat_all(shards), l) == Ok::<Seq<u8>, Error>(
            engine_recovered(
                n_validators as int,
                threshold(n_validators as int),
                lift_prefix(shards, n_validators as int),
            ),
        ),
{
    let n = n_validators;
    let flat = concat_all(shards);
    crate::encode::lemma_concat_all_uniform_len(shards, l as nat);
    assert(chunk_count(flat.len() as int, l as int) == n) by (nonlinear_arith)
        requires
            l >= 1,
            flat.len() == n * l,
    ;
    assert(chunk_pairs(flat, l, n) =~= with_indices(shards)) by {
        assert forall|i: int| 0 <= i < n implies chunk_pairs(flat, l, n)[i] == with_indices(
            shards,
        )[i] by {
            assert((i + 1) * (l as int) <= n * l && 0 <= i * l) by (nonlinear_arith)
                requires
                    0 <= i < n,
            ;
            crate::encode::lemma_concat_all_piece(shards, l as nat, i);
            if (i + 1) * (l as int) < flat.len() {
            } else {
                assert((i + 1) * (l as int) == flat.len());
            }
        }
    }
    lemma_scan_intact(n, shards, l, 0);
    assert(with_indices(shards).skip(0) =~= with_indices(shards));
    assert(lift_prefix(shards, 0) =~= empty_shards(n));
    let full = lift_prefix(shards, n as int);
    assert(forall|j: int| 0 <= j < full.len() ==> (#[trigger] full[j]) is Some);
    lemma_count_present_all(full);
    lemma_threshold_fit(n as nat);
}

} // verus!

use erasure_coding::{
    code_params, obtain_chunks, reconstruct, reconstruct_indexed, recovery_threshold, Error,
    FIELD_SIZE,
};

fn sample_payload(len: usize) -> Vec<u8> {
    let mut payload = Vec::new();
    let mut i: usize = 0;
    while i < len {
        payload.push((i % 251) as u8 ^ (i / 7) as u8);
        i += 1;
    }
    payload
}

fn split(flat: &[u8], chunk_size: usize) -> Vec<Vec<u8>> {
    flat.chunks(chunk_size).map(|c| c.to_vec()).collect()
}

#[test]
fn threshold_formula() {
    for n in 2..=200usize {
        let k = recovery_threshold(n).unwrap();
        assert_eq!(k, (n - 1) / 3 + 1);
        assert!(1 <= k && k <= n);
    }
    assert_eq!(recovery_threshold(10), Ok(4));
    assert_eq!(recovery_threshold(FIELD_SIZE), Ok(21846));
}

#[test]
fn threshold_not_enough_validators() {
    assert_eq!(recovery_threshold(0), Err(Error::NotEnoughValidators));
    assert_eq!(recovery_threshold(1), Err(Error::NotEnoughValidators));
}

#[test]
fn threshold_too_many_validators() {
    assert_eq!(recovery_threshold(FIELD_SIZE + 1), Err(Error::TooManyValidators));
    assert_eq!(recovery_threshold(usize::MAX), Err(Error::TooManyValidators));
}

#[test]
fn code_params_bounds() {
    let p = code_params(10).unwrap();
    assert_eq!(p.n_validators, 10);
    assert_eq!(p.k, 4);
    assert_eq!(code_params(0), Err(Error::NotEnoughValidators));
    assert_eq!(code_params(FIELD_SIZE + 1), Err(Error::TooManyValidators));
}

#[test]
fn encode_shape() {
    let payload = sample_payload(100);
    let flat = obtain_chunks(10, &payload).unwrap();
    assert_eq!(flat.len() % 10, 0);
    let chunk_size = flat.len() / 10;
    assert_eq!(chunk_size, 26);
    let chunks = split(&flat, chunk_size);
    assert_eq!(chunks.len(), 10);
    for c in &chunks {
        assert_eq!(c.len(), chunk_size);
    }
}

#[test]
fn encode_idempotent() {
    let payload = sample_payload(333);
    let first = obtain_chunks(7, &payload).unwrap();
    let second = obtain_chunks(7, &payload).unwrap();
    assert_eq!(first, second);
}

#[test]
fn encode_empty_payload() {
    let empty: Vec<u8> = Vec::new();
    assert_eq!(obtain_chunks(10, &empty), Err(Error::BadPayload));
}

#[test]
fn encode_rejects_bad_counts_before_payload() {
    let payload = sample_payload(16);
    assert_eq!(obtain_chunks(0, &payload), Err(Error::NotEnoughValidators));
    assert_eq!(obtain_chunks(1, &payload), Err(Error::NotEnoughValidators));
    assert_eq!(obtain_chunks(FIELD_SIZE + 1, &payload), Err(Error::TooManyValidators));
    // The count is judged before the payload is looked at, even when empty.
    let empty: Vec<u8> = Vec::new();
    assert_eq!(obtain_chunks(0, &empty), Err(Error::NotEnoughValidators));
    assert_eq!(obtain_chunks(1, &empty), Err(Error::NotEnoughValidators));
    assert_eq!(obtain_chunks(FIELD_SIZE + 1, &empty), Err(Error::TooManyValidators));
}

#[test]
fn encode_at_field_size() {
    let payload = sample_payload(8);
    let flat = obtain_chunks(FIELD_SIZE, &payload).unwrap();
    assert_eq!(flat.len() % FIELD_SIZE, 0);
}

#[test]
fn roundtrip_flat_buffer() {
    let payload = sample_payload(100);
    let flat = obtain_chunks(10, &payload).unwrap();
    let chunk_size = flat.len() / 10;
    let recovered = reconstruct(10, &flat, chunk_size).unwrap();
    assert!(recovered.len() >= payload.len());
    assert_eq!(&recovered[..payload.len()], &payload[..]);
    for b in &recovered[payload.len()..] {
        assert_eq!(*b, 0);
    }
}

#[test]
fn roundtrip_exact_when_aligned() {
    // 96 bytes spread over 4 data shards of two-byte symbols: no padding.
    let payload = sample_payload(96);
    let flat = obtain_chunks(10, &payload).unwrap();
    let chunk_size = flat.len() / 10;
    let recovered = reconstruct(10, &flat, chunk_size).unwrap();
    assert_eq!(recovered, payload);
}

#[test]
fn roundtrip_any_threshold_subset_any_order() {
    let payload = sample_payload(100);
    let flat = obtain_chunks(10, &payload).unwrap();
    let chunks = split(&flat, flat.len() / 10);
    for subset in [[3usize, 1, 0, 2], [5, 6, 7, 8], [9, 0, 4, 7]] {
        let indexed: Vec<(Vec<u8>, usize)> =
            subset.iter().map(|&i| (chunks[i].clone(), i)).collect();
        let recovered = reconstruct_indexed(10, &indexed).unwrap();
        assert_eq!(&recovered[..payload.len()], &payload[..]);
    }
}

#[test]
fn scenario_ten_validators() {
    // n = 10 gives k = 4; exactly k chunks recover, k - 1 must fail.
    assert_eq!(recovery_threshold(10), Ok(4));
    let payload = sample_payload(100);
    let flat = obtain_chunks(10, &payload).unwrap();
    let chunks = split(&flat, flat.len() / 10);

    let exactly_k: Vec<(Vec<u8>, usize)> =
        (0..4).map(|i| (chunks[i].clone(), i)).collect();
    let recovered = reconstruct_indexed(10, &exactly_k).unwrap();
    assert_eq!(&recovered[..payload.len()], &payload[..]);

    let one_short: Vec<(Vec<u8>, usize)> =
        (0..3).map(|i| (chunks[i].clone(), i)).collect();
    assert!(reconstruct_indexed(10, &one_short).is_err());
}

#[test]
fn reconstruct_rejects_bad_counts_before_chunks() {
    let junk = vec![0u8; 12];
    assert_eq!(reconstruct(0, &junk, 2), Err(Error::NotEnoughValidators));
    assert_eq!(reconstruct(1, &junk, 2), Err(Error::NotEnoughValidators));
    assert_eq!(reconstruct(FIELD_SIZE + 1, &junk, 2), Err(Error::TooManyValidators));
}

#[test]
fn reconstruct_index_out_of_bounds() {
    let chunk = vec![1u8, 2, 3, 4];
    let r = reconstruct_indexed(10, &[(chunk, 10)]);
    assert_eq!(
        r,
        Err(Error::ChunkIndexOutOfBounds { chunk_index: 10, n_validators: 10 })
    );
}

#[test]
fn reconstruct_uneven_length() {
    let r = reconstruct_indexed(10, &[(vec![1u8, 2, 3], 0)]);
    assert_eq!(r, Err(Error::UnevenLength));
}

#[test]
fn reconstruct_non_uniform_chunks() {
    let a = (vec![1u8, 2, 3, 4], 0usize);
    let b = (vec![5u8, 6], 1usize);
    assert_eq!(reconstruct_indexed(10, &[a, b]), Err(Error::NonUniformChunks));

    let empty_chunk = (Vec::new(), 0usize);
    assert_eq!(reconstruct_indexed(10, &[empty_chunk]), Err(Error::NonUniformChunks));
}

#[test]
fn reconstruct_zero_chunk_size() {
    let junk = vec![1u8, 2, 3, 4];
    assert_eq!(reconstruct(10, &junk, 0), Err(Error::NonUniformChunks));
    let empty: Vec<u8> = Vec::new();
    assert_eq!(reconstruct(10, &empty, 0), Err(Error::BadPayload));
    assert_eq!(reconstruct(0, &junk, 0), Err(Error::NotEnoughValidators));
    assert_eq!(reconstruct(FIELD_SIZE + 1, &junk, 0), Err(Error::TooManyValidators));
}

#[test]
fn reconstruct_ragged_flat_buffer() {
    let payload = sample_payload(100);
    let flat = obtain_chunks(10, &payload).unwrap();
    let chunk_size = flat.len() / 10;
    // One byte short: the last piece no longer matches the first one's length.
    let r = reconstruct(10, &flat[..flat.len() - 1], chunk_size);
    assert_eq!(r, Err(Error::NonUniformChunks));
}

#[test]
fn reconstruct_too_few_present_fails_cleanly() {
    let payload = sample_payload(40);
    let flat = obtain_chunks(10, &payload).unwrap();
    let chunks = split(&flat, flat.len() / 10);
    let only_two: Vec<(Vec<u8>, usize)> =
        (0..2).map(|i| (chunks[i].clone(), i)).collect();
    assert_eq!(reconstruct_indexed(10, &only_two), Err(Error::BadPayload));
}

#[test]
fn reconstruct_duplicate_index_keeps_last() {
    let payload = sample_payload(64);
    let flat = obtain_chunks(4, &payload).unwrap();
    let chunks = split(&flat, flat.len() / 4);
    // k = 2 for n = 4; chunk 1 appears twice, the garbled copy first.
    let mut garbled = chunks[1].clone();
    for b in garbled.iter_mut() {
        *b ^= 0xff;
    }
    let indexed = vec![
        (garbled, 1usize),
        (chunks[1].clone(), 1usize),
        (chunks[0].clone(), 0usize),
    ];
    let recovered = reconstruct_indexed(4, &indexed).unwrap();
    assert_eq!(&recovered[..payload.len()], &payload[..]);
}

#[test]
fn smallest_payload_roundtrip() {
    let payload = vec![0xabu8];
    let flat = obtain_chunks(2, &payload).unwrap();
    let chunk_size = flat.len() / 2;
    let recovered = reconstruct(2, &flat, chunk_size).unwrap();
    assert_eq!(recovered[0], 0xab);
}

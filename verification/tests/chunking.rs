use lich::chunks::{chunk_payload, get_vec_with_batched_data};

#[test]
fn batched_data_splits_with_short_tail() {
    let v: Vec<u64> = vec![1, 2, 3, 4, 5];
    let batches = get_vec_with_batched_data(2, &v);
    assert_eq!(batches, vec![vec![1, 2], vec![3, 4], vec![5]]);
}

#[test]
fn batched_data_empty_input_gives_no_batches() {
    let v: Vec<u64> = Vec::new();
    let batches = get_vec_with_batched_data(3, &v);
    assert!(batches.is_empty());
}

#[test]
fn batched_data_exact_multiple() {
    let v: Vec<u8> = vec![9, 8, 7, 6, 5, 4];
    let batches = get_vec_with_batched_data(3, &v);
    assert_eq!(batches, vec![vec![9, 8, 7], vec![6, 5, 4]]);
}

#[test]
fn batched_data_never_exceeds_ceiling() {
    // The batching invariant, sampled: whatever the input length, no batch
    // is larger than the ceiling and none is empty.
    let ceiling = 250;
    for len in [0usize, 1, 249, 250, 251, 499, 500, 501, 600] {
        let v: Vec<u64> = (0..len as u64).collect();
        let batches = get_vec_with_batched_data(ceiling, &v);
        let expected_count = len.div_ceil(ceiling);
        assert_eq!(batches.len(), expected_count, "length {len}");
        for b in &batches {
            assert!(!b.is_empty());
            assert!(b.len() <= ceiling);
        }
        let flat: Vec<u64> = batches.into_iter().flatten().collect();
        assert_eq!(flat, v);
    }
}

#[test]
fn chunker_count_is_ceiling_and_concat_reconstructs() {
    // ceil(len / size) chunks for a few lengths, and concatenation in offset
    // order gives back the payload exactly.
    for (len, size) in [(1usize, 1u32), (10, 3), (1000, 1000), (1001, 1000), (999, 1000)] {
        let payload: Vec<u8> = (0..len).map(|i| (i % 251) as u8).collect();
        let chunks = chunk_payload(&payload, size);
        assert_eq!(chunks.len(), len.div_ceil(size as usize));
        let mut rebuilt: Vec<u8> = Vec::new();
        for (i, c) in chunks.iter().enumerate() {
            assert_eq!(c.offset as usize, i * size as usize);
            rebuilt.extend_from_slice(&c.bytes);
        }
        assert_eq!(rebuilt, payload);
    }
}

#[test]
fn chunker_ten_thousand_bytes_at_one_thousand() {
    let payload: Vec<u8> = (0..10_000).map(|i| (i % 256) as u8).collect();
    let chunks = chunk_payload(&payload, 1000);
    assert_eq!(chunks.len(), 10);
    let offsets: Vec<u32> = chunks.iter().map(|c| c.offset).collect();
    assert_eq!(offsets, vec![0, 1000, 2000, 3000, 4000, 5000, 6000, 7000, 8000, 9000]);
    for c in &chunks {
        assert_eq!(c.bytes.len(), 1000);
        assert_eq!(c.bytes[..], payload[c.offset as usize..c.offset as usize + 1000]);
    }
}

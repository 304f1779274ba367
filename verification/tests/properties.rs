use fastcdc::{Chunk, FastCDC, Normal, Step};

const MIN_SIZE: usize = 4_069;
const AVG_SIZE: usize = 8_192;
const MAX_SIZE: usize = 16_384;

fn generate_patterned_data(len: usize) -> Vec<u8> {
    const BLOCKS: [&[u8]; 3] = [b"LOREM", b"IPSUM", b"DOLOR"];

    let mut data = Vec::with_capacity(len);
    let mut idx = 0;

    while data.len() < len {
        data.extend_from_slice(BLOCKS[idx % BLOCKS.len()]);
        idx += 1;
    }

    data.truncate(len);
    data
}

fn generate_mixed_data(len: usize, seed: u64) -> Vec<u8> {
    let mut x = seed;
    let mut data = Vec::with_capacity(len);
    for _ in 0..len {
        x = x.wrapping_mul(6364136223846793005).wrapping_add(1442695040888963407);
        data.push((x >> 33) as u8);
    }
    data
}

/// The chunks of `data` from the blocking driver, read in pieces of at most
/// `piece` bytes.
fn collect_blocking(chunker: &FastCDC, data: &[u8], piece: usize) -> Vec<Chunk> {
    let mut state = chunker.chunks();
    let mut rest = data;
    let mut out = Vec::new();
    loop {
        match state.advance() {
            Step::Done => return out,
            Step::Emit(chunk) => out.push(chunk),
            Step::Read(n) => {
                let n = n.min(piece).min(rest.len());
                if n == 0 {
                    state.close();
                } else {
                    state.feed(&rest[..n]);
                    rest = &rest[n..];
                }
            }
        }
    }
}

/// The chunks of `data` from the other driver, read in pieces of at most
/// `piece` bytes.
fn collect_stream(chunker: &FastCDC, data: &[u8], piece: usize) -> Vec<Chunk> {
    let mut state = chunker.as_stream();
    let mut rest = data;
    let mut out = Vec::new();
    loop {
        match state.advance() {
            Step::Done => return out,
            Step::Emit(chunk) => out.push(chunk),
            Step::Read(n) => {
                let n = n.min(piece).min(rest.len());
                if n == 0 {
                    state.close();
                } else {
                    state.feed(&rest[..n]);
                    rest = &rest[n..];
                }
            }
        }
    }
}

fn configurations() -> Vec<FastCDC> {
    vec![
        FastCDC::new(MIN_SIZE, AVG_SIZE, MAX_SIZE, Normal::Level2),
        FastCDC::new(MIN_SIZE, AVG_SIZE, MAX_SIZE, Normal::Level0),
        FastCDC::new(64, 256, 1024, Normal::Level0),
        FastCDC::new(65, 256, 1024, Normal::Level3),
        FastCDC::new(101, 300, 2_000, Normal::Level1),
    ]
}

fn inputs() -> Vec<Vec<u8>> {
    vec![
        Vec::new(),
        vec![0u8; 1],
        generate_patterned_data(MIN_SIZE / 2),
        generate_patterned_data(50_000),
        generate_mixed_data(64, 3),
        generate_mixed_data(65, 4),
        generate_mixed_data(MAX_SIZE, 5),
        generate_mixed_data(MAX_SIZE + 1, 6),
        generate_mixed_data(200_000, 12345),
        vec![0u8; 40_000],
    ]
}

#[test]
fn concatenated_chunks_are_the_input() {
    for chunker in configurations() {
        for data in inputs() {
            let chunks = collect_blocking(&chunker, &data, usize::MAX);
            let mut reconstructed = Vec::with_capacity(data.len());
            for chunk in &chunks {
                reconstructed.extend_from_slice(&chunk.data);
            }
            assert_eq!(reconstructed, data);
            assert_eq!(chunks.iter().map(|c| c.length).sum::<usize>(), data.len());
        }
    }
}

#[test]
fn offsets_increase_and_partition_the_input() {
    for chunker in configurations() {
        for data in inputs() {
            let chunks = collect_blocking(&chunker, &data, usize::MAX);
            assert_eq!(chunks.is_empty(), data.is_empty());
            let mut expected_offset = 0u64;
            for chunk in &chunks {
                assert_eq!(chunk.offset, expected_offset);
                assert_eq!(chunk.length, chunk.data.len());
                assert!(chunk.length >= 1);
                expected_offset += chunk.length as u64;
            }
            assert_eq!(expected_offset, data.len() as u64);
            for pair in chunks.windows(2) {
                assert!(pair[0].offset < pair[1].offset);
                assert_eq!(pair[0].offset + pair[0].length as u64, pair[1].offset);
            }
        }
    }
}

#[test]
fn lengths_lie_between_min_size_and_max_size() {
    for chunker in configurations() {
        for data in inputs() {
            let chunks = collect_blocking(&chunker, &data, usize::MAX);
            for (i, chunk) in chunks.iter().enumerate() {
                assert!(chunk.length <= chunker.max_size());
                if i + 1 < chunks.len() {
                    assert!(chunk.length >= chunker.min_size());
                }
            }
        }
    }
    // With an odd `min_size` the shortest chunk of this input has just `min_size` bytes.
    let odd = FastCDC::new(65, 256, 1024, Normal::Level0);
    let chunks = collect_blocking(&odd, &generate_mixed_data(200_000, 12345), usize::MAX);
    assert_eq!(chunks.len(), 660);
    assert_eq!(chunks[..659].iter().map(|c| c.length).min(), Some(65));
    assert_eq!(chunks.iter().map(|c| c.length).max(), Some(1024));
}

#[test]
fn same_input_gives_the_same_chunks() {
    let data = generate_mixed_data(200_000, 12345);
    let one = FastCDC::new(MIN_SIZE, AVG_SIZE, MAX_SIZE, Normal::Level2);
    let other = FastCDC::new(MIN_SIZE, AVG_SIZE, MAX_SIZE, Normal::Level2);
    let a = collect_blocking(&one, &data, usize::MAX);
    let b = collect_blocking(&other, &data, usize::MAX);
    let c = collect_blocking(&one, &data, 1_000);
    assert_eq!(a.len(), 21);
    for ((x, y), z) in a.iter().zip(b.iter()).zip(c.iter()) {
        assert_eq!((x.fp_hash, x.offset, x.length), (y.fp_hash, y.offset, y.length));
        assert_eq!((x.fp_hash, x.offset, x.length), (z.fp_hash, z.offset, z.length));
        assert_eq!(x.data, y.data);
        assert_eq!(x.data, z.data);
    }
}

#[test]
fn drivers_emit_the_same_chunks_for_every_configuration() {
    for chunker in configurations() {
        for data in inputs() {
            let blocking = collect_blocking(&chunker, &data, usize::MAX);
            for piece in [1usize, 7, 4096, usize::MAX] {
                let streamed = collect_stream(&chunker, &data, piece);
                assert_eq!(blocking.len(), streamed.len());
                for (x, y) in blocking.iter().zip(streamed.iter()) {
                    assert_eq!((x.fp_hash, x.offset, x.length), (y.fp_hash, y.offset, y.length));
                    assert_eq!(x.data, y.data);
                }
            }
        }
    }
}

#[test]
fn normalization_level_changes_the_boundaries() {
    let data = generate_mixed_data(200_000, 12345);
    let level2 = FastCDC::new(MIN_SIZE, AVG_SIZE, MAX_SIZE, Normal::Level2);
    let level0 = FastCDC::new(MIN_SIZE, AVG_SIZE, MAX_SIZE, Normal::Level0);
    let a = collect_blocking(&level2, &data, usize::MAX);
    let b = collect_blocking(&level0, &data, usize::MAX);
    assert_eq!(a.len(), 21);
    assert_eq!(b.len(), 19);
    assert_eq!(b.iter().map(|c| c.length).min(), Some(4_436));
}

#[test]
fn an_edit_moves_the_chunk_it_falls_in_and_no_other() {
    let data = generate_mixed_data(200_000, 12345);
    let chunker = FastCDC::new(MIN_SIZE, AVG_SIZE, MAX_SIZE, Normal::Level2);
    let before = collect_blocking(&chunker, &data, usize::MAX);

    // Ten bytes more in the first chunk.
    let mut inserted = data[..1_000].to_vec();
    inserted.extend_from_slice(&[0, 1, 2, 3, 4, 5, 6, 7, 8, 9]);
    inserted.extend_from_slice(&data[1_000..]);
    let after = collect_blocking(&chunker, &inserted, usize::MAX);
    assert_eq!(after.len(), before.len());
    assert_eq!(after[0].length, before[0].length + 10);
    for (x, y) in before.iter().zip(after.iter()).skip(1) {
        assert_eq!(x.data, y.data);
        assert_eq!(x.fp_hash, y.fp_hash);
        assert_eq!(x.offset + 10, y.offset);
    }

    // Five bytes fewer in the tenth chunk.
    let mut deleted = data[..100_000].to_vec();
    deleted.extend_from_slice(&data[100_005..]);
    let after = collect_blocking(&chunker, &deleted, usize::MAX);
    assert_eq!(after.len(), before.len());
    for (i, (x, y)) in before.iter().zip(after.iter()).enumerate() {
        if i == 9 {
            assert_eq!(x.length, y.length + 5);
        } else {
            assert_eq!(x.data, y.data);
            assert_eq!(x.fp_hash, y.fp_hash);
        }
    }
}

use fastcdc::{Chunk, FastCDC, FastCDCIter, Normal, Step};
use std::io::{self, Read};

const MIN_SIZE: usize = 4_069;
const AVG_SIZE: usize = 8_192;
const MAX_SIZE: usize = 16_384;

fn generate_patterned_data(len: usize) -> Vec<u8> {
    const BLOCKS: [&[u8]; 3] = [b"LOREM", b"IPSUM", b"DOLOR"];

    let mut data = Vec::with_capacity(len);
    let mut idx = 0;

    while data.len() < len {
        data.extend_from_slice(BLOCKS[idx % BLOCKS.len()]);
        idx += 1;
    }

    data.truncate(len);
    data
}

/// Drives a blocking session from a reader, as an iterator over its chunks.
struct Chunks<'a, R: Read> {
    state: FastCDCIter<'a>,
    reader: R,
    scratch: Vec<u8>,
}

fn chunks<'a, R: Read>(chunker: &'a FastCDC, reader: R) -> Chunks<'a, R> {
    Chunks { state: chunker.chunks(), reader, scratch: vec![0; chunker.max_size()] }
}

impl<'a, R: Read> Iterator for Chunks<'a, R> {
    type Item = io::Result<Chunk>;

    fn next(&mut self) -> Option<Self::Item> {
        loop {
            match self.state.advance() {
                Step::Done => return None,
                Step::Emit(chunk) => return Some(Ok(chunk)),
                Step::Read(n) => match self.reader.read(&mut self.scratch[..n]) {
                    Ok(0) => self.state.close(),
                    Ok(got) => self.state.feed(&self.scratch[..got]),
                    Err(e) => return Some(Err(e)),
                },
            }
        }
    }
}

struct FailingReader;

impl Read for FailingReader {
    fn read(&mut self, _buf: &mut [u8]) -> io::Result<usize> {
        Err(io::Error::new(io::ErrorKind::Other, "simulated read error"))
    }
}

/// Fails on the first read and serves the data from then on.
struct FlakyReader<'a> {
    data: &'a [u8],
    failed: bool,
}

impl<'a> Read for FlakyReader<'a> {
    fn read(&mut self, buf: &mut [u8]) -> io::Result<usize> {
        if !self.failed {
            self.failed = true;
            return Err(io::Error::new(io::ErrorKind::Other, "simulated read error"));
        }
        self.data.read(buf)
    }
}

#[test]
fn core_test_empty_input() {
    let data: [u8; 0] = [];
    let chunker = FastCDC::new(MIN_SIZE, AVG_SIZE, MAX_SIZE, Normal::Level2);

    let mut iter = chunks(&chunker, &data[..]);

    assert!(iter.next().is_none(), "Empty input should not yield any chunks");
}

#[test]
fn core_test_small_input() {
    let data = generate_patterned_data(MIN_SIZE / 2);
    let chunker = FastCDC::new(MIN_SIZE, AVG_SIZE, MAX_SIZE, Normal::Level2);
    let chunks = chunks(&chunker, &data[..])
        .collect::<io::Result<Vec<_>>>()
        .expect("Failed to chunk small input");

    assert_eq!(chunks.len(), 1, "Small input must produce exactly one chunk");
    assert_eq!(chunks[0].length, data.len());
    assert_eq!(chunks[0].data.as_ref(), &data[..]);
}

#[test]
fn core_test_round_trip_chunking() {
    let data = generate_patterned_data(50_000);
    let chunker = FastCDC::new(MIN_SIZE, AVG_SIZE, MAX_SIZE, Normal::Level2);

    let mut reconstructed = Vec::with_capacity(data.len());
    let mut chunk_count = 0;

    for chunk in chunks(&chunker, &data[..]) {
        let chunk = chunk.expect("Failed to read chunk");

        reconstructed.extend_from_slice(chunk.data.as_ref());
        chunk_count += 1;
    }

    assert!(chunk_count > 0, "Input data should yield at least one chunk");
    assert_eq!(reconstructed, data, "Reconstructed data does not match original");
}

#[test]
fn core_test_reader_error() {
    let chunker = FastCDC::new(MIN_SIZE, AVG_SIZE, MAX_SIZE, Normal::Level2);
    let reader = FailingReader;

    let mut iter = chunks(&chunker, reader);
    let result = iter.next().expect("Iterator expected to yield a result");

    assert!(result.is_err(), "Iterator failed to propagate the read error immediately");
}

#[test]
fn core_tests_test_empty_input() {
    let data: [u8; 0] = [];
    let chunker = FastCDC::new(MIN_SIZE, AVG_SIZE, MAX_SIZE, Normal::Level2);

    let mut state = chunker.chunks();
    assert!(matches!(state.advance(), Step::Read(MAX_SIZE)));
    assert_eq!(data.len(), 0);
    state.close();

    assert!(matches!(state.advance(), Step::Done), "Empty input should not yield any chunks");
    assert!(matches!(state.advance(), Step::Done));
}

#[test]
fn core_tests_test_small_input() {
    let data = generate_patterned_data(MIN_SIZE / 2);
    let chunker = FastCDC::new(MIN_SIZE, AVG_SIZE, MAX_SIZE, Normal::Level2);

    let mut state = chunker.chunks();
    assert!(matches!(state.advance(), Step::Read(MAX_SIZE)));
    state.feed(&data);
    assert!(matches!(state.advance(), Step::Read(n) if n == MAX_SIZE - data.len()));
    state.close();

    let mut chunks = Vec::new();
    loop {
        match state.advance() {
            Step::Emit(chunk) => chunks.push(chunk),
            Step::Done => break,
            Step::Read(_) => panic!("Failed to chunk small input"),
        }
    }

    assert_eq!(chunks.len(), 1, "Small input must produce exactly one chunk");
    assert_eq!(chunks[0].length, data.len());
    assert_eq!(chunks[0].data.as_ref(), &data[..]);
    assert_eq!(chunks[0].fp_hash, 0);
    assert_eq!(chunks[0].offset, 0);
}

#[test]
fn core_tests_test_round_trip_chunking() {
    let data = generate_patterned_data(50_000);
    let chunker = FastCDC::new(MIN_SIZE, AVG_SIZE, MAX_SIZE, Normal::Level2);

    let mut reconstructed = Vec::with_capacity(data.len());
    let mut chunk_count = 0;
    let mut lengths = Vec::new();
    let mut hashes = Vec::new();

    // A reader that hands out 1000 bytes at a time.
    for chunk in chunks(&chunker, io::BufReader::with_capacity(1000, &data[..])) {
        let chunk = chunk.expect("Failed to read chunk");

        reconstructed.extend_from_slice(chunk.data.as_ref());
        chunk_count += 1;
        lengths.push(chunk.length);
        hashes.push(chunk.fp_hash);
    }

    assert!(chunk_count > 0, "Input data should yield at least one chunk");
    assert_eq!(reconstructed, data, "Reconstructed data does not match original");
    assert_eq!(lengths, vec![16_384, 16_384, 16_384, 848]);
    assert_eq!(
        hashes,
        vec![16989385114050923962, 5033975583195230409, 6349660443374149589, 0]
    );
}

#[test]
fn core_tests_test_reader_error() {
    let chunker = FastCDC::new(MIN_SIZE, AVG_SIZE, MAX_SIZE, Normal::Level2);
    let reader = FailingReader;

    let mut iter = chunks(&chunker, reader);
    let result = iter.next().expect("Iterator expected to yield a result");

    assert!(result.is_err(), "Iterator failed to propagate the read error immediately");
    assert_eq!(iter.state.processed(), 0);
    assert_eq!(iter.state.buffered_len(), 0);
}

#[test]
fn reader_error_yields_one_error_and_no_chunk() {
    let chunker = FastCDC::new(MIN_SIZE, AVG_SIZE, MAX_SIZE, Normal::Level2);
    let mut iter = chunks(&chunker, FailingReader);

    let first = iter.next().expect("a failing read is reported");
    assert!(first.is_err());
    assert!(matches!(iter.state.advance(), Step::Read(MAX_SIZE)));
}

#[test]
fn retry_after_a_failed_read_loses_nothing() {
    let data = generate_patterned_data(50_000);
    let chunker = FastCDC::new(MIN_SIZE, AVG_SIZE, MAX_SIZE, Normal::Level2);
    let mut iter = chunks(&chunker, FlakyReader { data: &data, failed: false });

    assert!(iter.next().expect("a failing read is reported").is_err());

    let mut reconstructed = Vec::new();
    let mut offsets = Vec::new();
    for chunk in iter {
        let chunk = chunk.expect("the source has recovered");
        offsets.push(chunk.offset);
        reconstructed.extend_from_slice(&chunk.data);
    }
    assert_eq!(offsets, vec![0, 16_384, 32_768, 49_152]);
    assert_eq!(reconstructed, data);
}

#[test]
fn full_buffer_is_cut_before_more_is_read() {
    let data = vec![0u8; 40_000];
    let chunker = FastCDC::new(MIN_SIZE, AVG_SIZE, MAX_SIZE, Normal::Level2);
    let mut state = chunker.chunks();

    state.feed(&data[..MAX_SIZE]);
    assert_eq!(state.buffered_len(), MAX_SIZE);
    match state.advance() {
        Step::Emit(chunk) => {
            assert_eq!(chunk.length, MAX_SIZE);
            assert_eq!(chunk.offset, 0);
            assert_eq!(chunk.fp_hash, 0x917d057888a5bc29);
        }
        _ => panic!("a full buffer gives up a chunk"),
    }
    assert_eq!(state.processed(), MAX_SIZE as u64);
    assert_eq!(state.buffered_len(), 0);
    assert!(matches!(state.advance(), Step::Read(MAX_SIZE)));
}

use fastcdc::cut::find_cutpoint_inner;
use fastcdc::gear::{roll_first, roll_second, GEAR, GEAR_LS};
use fastcdc::{find_cutpoint, FastCDC, Masks, Normal};

const MIN_SIZE: usize = 4_069;
const AVG_SIZE: usize = 8_192;
const MAX_SIZE: usize = 16_384;

fn generate_mixed_data(len: usize, seed: u64) -> Vec<u8> {
    let mut x = seed;
    let mut data = Vec::with_capacity(len);
    for _ in 0..len {
        x = x.wrapping_mul(6364136223846793005).wrapping_add(1442695040888963407);
        data.push((x >> 33) as u8);
    }
    data
}

fn cut(source: &[u8]) -> (u64, usize) {
    let m = Masks::new(AVG_SIZE, Normal::Level2);
    find_cutpoint(source, MIN_SIZE, AVG_SIZE, MAX_SIZE, m.mask_s, m.mask_s_ls, m.mask_l, m.mask_l_ls)
}

fn cut_from(source: &[u8], offset: usize, prev_hash: u64) -> (u64, usize) {
    let m = Masks::new(AVG_SIZE, Normal::Level2);
    find_cutpoint_inner(
        source,
        offset,
        prev_hash,
        MIN_SIZE,
        AVG_SIZE,
        MAX_SIZE,
        m.mask_s,
        m.mask_s_ls,
        m.mask_l,
        m.mask_l_ls,
    )
}

/// The search one byte at a time, with the plain gear hash and the plain
/// masks.
fn cut_byte_by_byte(
    source: &[u8],
    min_size: usize,
    avg_size: usize,
    max_size: usize,
    m: Masks,
) -> (u64, usize) {
    let n = source.len().min(max_size);
    if n <= min_size {
        return (0, n);
    }
    let mut h: u64 = 0;
    for c in (2 * (min_size / 2))..(2 * (n / 2)) {
        h = (h << 1).wrapping_add(GEAR[source[c] as usize]);
        let mask = if c / 2 < avg_size / 2 { m.mask_s } else { m.mask_l };
        if h & mask == 0 {
            return (if c % 2 == 0 { h << 1 } else { h }, c);
        }
    }
    (h, n)
}

#[test]
fn empty_window_is_cut_at_zero() {
    assert_eq!(cut(&[]), (0, 0));
}

#[test]
fn window_below_min_size_is_one_chunk_without_hash() {
    let data = generate_mixed_data(MIN_SIZE - 1, 1);
    assert_eq!(cut(&data), (0, MIN_SIZE - 1));
    assert_eq!(cut(&data[..1]), (0, 1));
}

#[test]
fn window_of_exactly_min_size_is_one_chunk_without_hash() {
    let data = generate_mixed_data(200_000, 12345);
    assert_eq!(cut(&data[..MIN_SIZE]), (0, MIN_SIZE));
}

#[test]
fn window_just_above_min_size_is_hashed() {
    let data = generate_mixed_data(200_000, 12345);
    assert_eq!(cut(&data[..MIN_SIZE + 1]), (11811840766675310600, MIN_SIZE + 1));
}

#[test]
fn first_boundary_of_mixed_data() {
    let data = generate_mixed_data(200_000, 12345);
    assert_eq!(cut(&data), (8087063140299474404, 9_203));
    assert_eq!(cut(&data[..MAX_SIZE]), (8087063140299474404, 9_203));
    assert_eq!(cut(&data[..9_204]), (8087063140299474404, 9_203));
}

#[test]
fn window_without_boundary_is_cut_at_its_end() {
    let data = generate_mixed_data(200_000, 12345);
    assert_eq!(cut(&data[..5_000]), (9256725088975399867, 5_000));
    assert_eq!(cut(&data[..9_000]), (4442831025215899448, 9_000));
    assert_eq!(cut(&data[..9_203]), cut_byte_by_byte(&data[..9_203], MIN_SIZE, AVG_SIZE, MAX_SIZE, Masks::new(AVG_SIZE, Normal::Level2)));
    assert_eq!(cut(&data[..9_203]).1, 9_203);
}

#[test]
fn cut_is_forced_at_max_size() {
    let zeros = vec![0u8; 40_000];
    assert_eq!(cut(&zeros), (0x917d057888a5bc29, MAX_SIZE));
    assert_eq!(cut(&zeros[..MAX_SIZE]), (0x917d057888a5bc29, MAX_SIZE));
    assert_eq!(cut(&zeros[..MAX_SIZE + 1]), (0x917d057888a5bc29, MAX_SIZE));
}

#[test]
fn odd_trailing_byte_is_not_hashed() {
    let zeros = vec![0u8; 40_000];
    let even = cut(&zeros[..7_000]);
    let odd = cut(&zeros[..7_001]);
    assert_eq!(even.1, 7_000);
    assert_eq!(odd.1, 7_001);
    assert_eq!(even.0, odd.0);
}

#[test]
fn resumable_search_hands_back_the_hash_it_was_given_below_min_size() {
    let data = generate_mixed_data(200_000, 12345);
    assert_eq!(cut_from(&data[..MIN_SIZE], MIN_SIZE, 77), (77, MIN_SIZE));
    assert_eq!(cut_from(&data[..100], 0, 5), (5, 100));
    assert_eq!(cut_from(&[], 0, 9), (9, 0));
}

#[test]
fn resumable_search_from_a_checkpoint_is_the_search_from_the_start() {
    let data = generate_mixed_data(200_000, 12345);
    let (carried, missed) = cut_from(&data[..9_000], 0, 0);
    assert_eq!((carried, missed), (0x3da81b473f140738, 9_000));
    assert_eq!(cut_from(&data[..12_000], 9_000, carried), (8087063140299474404, 9_203));
    assert_eq!(cut_from(&data[..12_000], 9_000, carried), cut(&data[..12_000]));
    // An odd offset goes on at the pair it lies in.
    assert_eq!(cut_from(&data[..12_000], 9_001, carried), (8087063140299474404, 9_203));
}

#[test]
fn resumable_search_beyond_the_window_finds_nothing() {
    let data = generate_mixed_data(200_000, 12345);
    assert_eq!(cut_from(&data[..12_000], 12_000, 42), (42, 12_000));
    assert_eq!(cut_from(&data[..12_000], 1_000_000, 42), (42, 12_000));
}

#[test]
fn checkpoints_through_any_pieces_give_the_same_cut() {
    let data = generate_mixed_data(200_000, 12345);
    for step in [1usize, 2, 3, 7, 64, 1000, 4096] {
        let mut scanned = 0;
        let mut carried = 0;
        let mut len = MIN_SIZE;
        let found = loop {
            let scan_len = len.min(MAX_SIZE);
            let (h, c) = cut_from(&data[..len], scanned, carried);
            if c < scan_len || len >= MAX_SIZE {
                break (h, c);
            }
            scanned = ((scan_len / 2) * 2).max(MIN_SIZE);
            carried = h;
            len += step;
        };
        assert_eq!(found, (8087063140299474404, 9_203));
    }
}

#[test]
fn paired_search_is_the_search_byte_by_byte() {
    let configs: [(usize, usize, usize, Normal); 5] = [
        (64, 256, 1024, Normal::Level0),
        (64, 256, 1024, Normal::Level3),
        (65, 257, 1025, Normal::Level1),
        (1_000, 4_096, 8_000, Normal::Level2),
        (MIN_SIZE, AVG_SIZE, MAX_SIZE, Normal::Level2),
    ];
    for seed in 0..20u64 {
        let data = generate_mixed_data(20_000, seed);
        for (min_size, avg_size, max_size, normal) in configs {
            let m = Masks::new(avg_size, normal);
            for start in [0usize, 1, 777, 5_000] {
                let window = &data[start..];
                assert_eq!(
                    find_cutpoint(
                        window, min_size, avg_size, max_size, m.mask_s, m.mask_s_ls, m.mask_l,
                        m.mask_l_ls
                    ),
                    cut_byte_by_byte(window, min_size, avg_size, max_size, m)
                );
            }
        }
    }
}

#[test]
fn first_chunks_under_a_small_configuration() {
    let data = generate_mixed_data(3_000, 12345);
    let m = Masks::new(256, Normal::Level1);
    let mut at = 0;
    let mut found = Vec::new();
    while at < data.len() {
        let (h, c) =
            find_cutpoint(&data[at..], 64, 256, 1024, m.mask_s, m.mask_s_ls, m.mask_l, m.mask_l_ls);
        found.push((h, at, c));
        at += c;
    }
    assert_eq!(
        found,
        vec![
            (0x514ed51ec7fcc268, 0, 299),
            (0xe45e3a29b4310de0, 299, 260),
            (0xab3e0b00eb580710, 559, 73),
            (0x197733923eb53484, 632, 647),
            (0xac64851a1a859322, 1279, 357),
            (0x2622360cf65d9372, 1636, 377),
            (0x1016863c8c7a4d00, 2013, 298),
            (0x3aa79e2961cb2d88, 2311, 142),
            (0xa24e5c086519e99c, 2453, 136),
            (0xba46fa658d04a0b1, 2589, 411),
        ]
    );
}

#[test]
fn chunker_searches_with_its_own_sizes_and_masks() {
    let data = generate_mixed_data(200_000, 12345);
    let chunker = FastCDC::new(MIN_SIZE, AVG_SIZE, MAX_SIZE, Normal::Level2);
    assert_eq!(chunker.find_cutpoint_from(&data, 0, 0), (8087063140299474404, 9_203));
    assert_eq!(chunker.find_cutpoint_from(&data[..9_000], 0, 0), (0x3da81b473f140738, 9_000));
    assert_eq!(
        chunker.find_cutpoint_from(&data[..12_000], 9_000, 0x3da81b473f140738),
        (8087063140299474404, 9_203)
    );
    assert_eq!(chunker.find_cutpoint_from(&data[..100], 0, 3), (3, 100));
}

#[test]
fn shifted_gear_table_is_the_gear_table_shifted() {
    for b in 0..256 {
        assert_eq!(GEAR_LS[b], GEAR[b] << 1);
    }
    assert_eq!(GEAR[0], 0x6e82fa87775a43d7);
    assert_eq!(GEAR[1], 0x2aa5b283c52c6ea2);
    assert_eq!(GEAR[255], 0x6d95e6251836b350);
    assert_eq!(GEAR_LS[0], 0xdd05f50eeeb487ae);
}

#[test]
fn rolling_two_bytes_is_two_steps_of_the_gear_hash() {
    let step = |h: u64, b: u8| (h << 1).wrapping_add(GEAR[b as usize]);
    for h in [0u64, 1, 0x8000_0000_0000_0000, 0xffff_ffff_ffff_ffff, 0x703b_0514_39b4_85e4] {
        for b0 in [0u8, 1, 76, 255] {
            let held = roll_first(h, b0);
            assert_eq!(held, step(h, b0) << 1);
            for b1 in [0u8, 79, 200] {
                assert_eq!(roll_second(held, b1), step(step(h, b0), b1));
            }
        }
    }
    assert_eq!(roll_first(0, 0), 0xdd05f50eeeb487ae);
    assert_eq!(roll_second(0xdd05f50eeeb487ae, 1), 0x07aba792b3e0f650);
}

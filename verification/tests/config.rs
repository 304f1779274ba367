use fastcdc::chunker::{
    AVG_CHUNK_SIZE_MAX, AVG_CHUNK_SIZE_MIN, MAX_CHUNK_SIZE_MAX, MAX_CHUNK_SIZE_MIN,
    MIN_CHUNK_SIZE_MAX, MIN_CHUNK_SIZE_MIN,
};
use fastcdc::gear::GEAR;
use fastcdc::mask::{floor_log2, MASK_TABLE};
use fastcdc::{ConfigError, FastCDC, Masks, Normal};

#[test]
fn limits_of_the_sizes() {
    assert_eq!(MIN_CHUNK_SIZE_MIN, 64);
    assert_eq!(MIN_CHUNK_SIZE_MAX, 1_048_576);
    assert_eq!(AVG_CHUNK_SIZE_MIN, 256);
    assert_eq!(AVG_CHUNK_SIZE_MAX, 4_194_304);
    assert_eq!(MAX_CHUNK_SIZE_MIN, 1024);
    assert_eq!(MAX_CHUNK_SIZE_MAX, 16_777_216);
}

#[test]
fn acceptable_sizes_make_a_chunker() {
    let chunker = FastCDC::try_new(4_069, 8_192, 16_384, Normal::Level2).expect("valid sizes");
    assert_eq!(chunker.min_size(), 4_069);
    assert_eq!(chunker.avg_size(), 8_192);
    assert_eq!(chunker.max_size(), 16_384);
    assert_eq!(chunker.masks().mask_s, MASK_TABLE[15]);
    assert_eq!(chunker.masks().mask_l, MASK_TABLE[11]);

    let smallest = FastCDC::new(64, 256, 1024, Normal::Level3);
    assert_eq!(smallest.masks().mask_s, MASK_TABLE[11]);
    assert_eq!(smallest.masks().mask_l, MASK_TABLE[5]);

    let largest = FastCDC::new(1_048_576, 4_194_304, 16_777_216, Normal::Level3);
    assert_eq!(largest.masks().mask_s, MASK_TABLE[25]);
    assert_eq!(largest.masks().mask_l, MASK_TABLE[19]);
}

#[test]
fn min_size_outside_its_limits_is_refused() {
    for min_size in [0, 63, 1_048_577, usize::MAX] {
        let e = FastCDC::try_new(min_size, 8_192, 16_384, Normal::Level2).err();
        assert_eq!(e, Some(ConfigError::MinSize));
    }
    assert_eq!(ConfigError::MinSize.message(), "min_size must be between 64 and 1048576");
}

#[test]
fn avg_size_outside_its_limits_is_refused() {
    for avg_size in [0, 255, 4_194_305] {
        let e = FastCDC::try_new(64, avg_size, 16_384, Normal::Level2).err();
        assert_eq!(e, Some(ConfigError::AvgSize));
    }
    assert_eq!(ConfigError::AvgSize.message(), "avg_size must be between 256 and 4194304");
}

#[test]
fn max_size_outside_its_limits_is_refused() {
    for max_size in [0, 1023, 16_777_217] {
        let e = FastCDC::try_new(64, 256, max_size, Normal::Level2).err();
        assert_eq!(e, Some(ConfigError::MaxSize));
    }
    assert_eq!(ConfigError::MaxSize.message(), "max_size must be between 1024 and 16777216");
}

#[test]
fn sizes_out_of_order_are_refused() {
    for (min_size, avg_size, max_size) in
        [(8_192, 8_192, 16_384), (9_000, 8_192, 16_384), (64, 2_048, 2_048), (64, 4_096, 2_048)]
    {
        let e = FastCDC::try_new(min_size, avg_size, max_size, Normal::Level2).err();
        assert_eq!(e, Some(ConfigError::Order));
    }
    assert_eq!(
        ConfigError::Order.message(),
        "must satisfy the condition: min_size < avg_size < max_size"
    );
}

#[test]
fn the_first_test_that_fails_names_the_error() {
    assert_eq!(FastCDC::try_new(1, 1, 1, Normal::Level0).err(), Some(ConfigError::MinSize));
    assert_eq!(FastCDC::try_new(64, 1, 1, Normal::Level0).err(), Some(ConfigError::AvgSize));
    assert_eq!(FastCDC::try_new(64, 256, 1, Normal::Level0).err(), Some(ConfigError::MaxSize));
    assert_eq!(FastCDC::try_new(300, 256, 1024, Normal::Level0).err(), Some(ConfigError::Order));
}

#[test]
fn normalization_levels() {
    assert_eq!(Normal::Level0.offset(), 0);
    assert_eq!(Normal::Level1.offset(), 1);
    assert_eq!(Normal::Level2.offset(), 2);
    assert_eq!(Normal::Level3.offset(), 3);
}

#[test]
fn logarithm_rounds_down() {
    assert_eq!(floor_log2(1), 0);
    assert_eq!(floor_log2(2), 1);
    assert_eq!(floor_log2(3), 1);
    assert_eq!(floor_log2(255), 7);
    assert_eq!(floor_log2(256), 8);
    assert_eq!(floor_log2(8_191), 12);
    assert_eq!(floor_log2(8_192), 13);
    assert_eq!(floor_log2(4_194_304), 22);
    assert_eq!(floor_log2(usize::MAX), usize::BITS - 1);
    for x in 1..5_000usize {
        assert_eq!(floor_log2(x), x.ilog2());
    }
}

#[test]
fn masks_for_an_average_size_and_a_level() {
    let m = Masks::new(8_192, Normal::Level2);
    assert_eq!(m.mask_s, 0x0081_14e1_c002_4821);
    assert_eq!(m.mask_s_ls, 0x0102_29c3_8004_9042);
    assert_eq!(m.mask_l, 0x0080_10e1_c002_0801);
    assert_eq!(m.mask_l_ls, 0x0100_21c3_8004_1002);
    assert_eq!(m.mask_s.count_ones(), 15);
    assert_eq!(m.mask_l.count_ones(), 11);

    let plain = Masks::new(8_192, Normal::Level0);
    assert_eq!(plain.mask_s, plain.mask_l);
    assert_eq!(plain.mask_s, MASK_TABLE[13]);

    // An average size between two powers of two takes the masks of the lower.
    let between = Masks::new(10_000, Normal::Level1);
    assert_eq!(between.mask_s, MASK_TABLE[14]);
    assert_eq!(between.mask_l, MASK_TABLE[12]);
}

#[test]
fn mask_table_holds_one_mask_for_each_number_of_bits() {
    assert_eq!(MASK_TABLE.len(), 26);
    for (k, mask) in MASK_TABLE.iter().enumerate() {
        if k < 5 {
            assert_eq!(*mask, 0);
        } else {
            assert_eq!(mask.count_ones() as usize, k);
            assert_eq!(mask >> 60, 0);
        }
    }
    for k in 6..26 {
        assert_eq!(MASK_TABLE[k] & MASK_TABLE[k - 1], MASK_TABLE[k - 1]);
    }
    assert_eq!(MASK_TABLE[5], 0x0080_0060_0002_0001);
    assert_eq!(MASK_TABLE[25], 0x00bb_94e1_c112_cc31);
}

#[test]
fn no_gear_word_passes_a_strict_mask() {
    for k in 8..26 {
        for g in GEAR.iter() {
            assert_ne!(*g & MASK_TABLE[k], 0);
        }
    }
}

//! The chunker: three sizes and the masks that go with them.
use crate::cut::{cut_from, find_cutpoint_inner};
use crate::mask::{lemma_log2_floor_brackets, log2_floor, Masks, Normal};
use vstd::arithmetic::power2::{lemma2_to64, lemma_pow2_strictly_increases};
use vstd::prelude::*;

verus! {

/// Lower limit for the `min_size` parameter.
pub const MIN_CHUNK_SIZE_MIN: usize = 64;

/// Upper limit for the `min_size` parameter (1 MB).
pub const MIN_CHUNK_SIZE_MAX: usize = 1_048_576;

/// Lower limit for the `avg_size` parameter.
pub const AVG_CHUNK_SIZE_MIN: usize = 256;

/// Upper limit for the `avg_size` parameter (4 MB).
pub const AVG_CHUNK_SIZE_MAX: usize = 4_194_304;

/// Lower limit for the `max_size` parameter.
pub const MAX_CHUNK_SIZE_MIN: usize = 1024;

/// Upper limit for the `max_size` parameter (16 MB).
pub const MAX_CHUNK_SIZE_MAX: usize = 16_777_216;

/// Why a chunker could not be made from the sizes given.
#[derive(Debug, Clone, Copy, PartialEq, Eq, Structural)]
pub enum ConfigError {
    /// `min_size` lies outside its limits.
    MinSize,
    /// `avg_size` lies outside its limits.
    AvgSize,
    /// `max_size` lies outside its limits.
    MaxSize,
    /// The sizes are not in the order `min_size < avg_size < max_size`.
    Order,
}

impl ConfigError {
    /// The text of the error.
    pub open spec fn text(self) -> Seq<char> {
        match self {
            ConfigError::MinSize => "min_size must be between 64 and 1048576"@,
            ConfigError::AvgSize => "avg_size must be between 256 and 4194304"@,
            ConfigError::MaxSize => "max_size must be between 1024 and 16777216"@,
            ConfigError::Order => "must satisfy the condition: min_size < avg_size < max_size"@,
        }
    }

    /// Says in words what was wrong.
    pub fn message(&self) -> (s: String)
        ensures
            s@ == self.text(),
    {
        match self {
            ConfigError::MinSize => "min_size must be between 64 and 1048576".to_owned(),
            ConfigError::AvgSize => "avg_size must be between 256 and 4194304".to_owned(),
            ConfigError::MaxSize => "max_size must be between 1024 and 16777216".to_owned(),
            ConfigError::Order => "must satisfy the condition: min_size < avg_size < max_size".to_owned(),
        }
    }
}

/// What a chunker is made of, as plain values.
pub struct Config {
    pub min_size: usize,
    pub avg_size: usize,
    pub max_size: usize,
    pub masks: Masks,
}

impl Config {
    /// Each size lies within its limits.
    pub open spec fn sizes_in_range(min_size: usize, avg_size: usize, max_size: usize) -> bool {
        &&& MIN_CHUNK_SIZE_MIN <= min_size <= MIN_CHUNK_SIZE_MAX
        &&& AVG_CHUNK_SIZE_MIN <= avg_size <= AVG_CHUNK_SIZE_MAX
        &&& MAX_CHUNK_SIZE_MIN <= max_size <= MAX_CHUNK_SIZE_MAX
    }

    /// The sizes that a chunker accepts: each within its limits, and in
    /// strict order.
    pub open spec fn sizes_ok(min_size: usize, avg_size: usize, max_size: usize) -> bool {
        &&& Config::sizes_in_range(min_size, avg_size, max_size)
        &&& min_size < avg_size < max_size
    }

    /// The sizes are acceptable and the masks are those of the table for the
    /// average size, at one of the normalization levels.
    pub open spec fn valid(self) -> bool {
        &&& Config::sizes_ok(self.min_size, self.avg_size, self.max_size)
        &&& exists|normal: Normal| self.masks == #[trigger] Masks::for_size(self.avg_size, normal)
    }

    /// Acceptable sizes give a valid configuration, at every level.
    pub proof fn lemma_of_valid(min_size: usize, avg_size: usize, max_size: usize, normal: Normal)
        requires
            Config::sizes_ok(min_size, avg_size, max_size),
        ensures
            Config::of(min_size, avg_size, max_size, normal).valid(),
    {
        let cfg = Config::of(min_size, avg_size, max_size, normal);
        assert(cfg.masks == Masks::for_size(cfg.avg_size, normal));
    }

    /// The masks of a valid configuration are well formed, and the strict one
    /// accepts the hash of no single byte.
    pub proof fn lemma_valid_masks(self)
        requires
            self.valid(),
        ensures
            self.masks.wf(),
            self.masks.rejects_single_bytes(),
    {
        let normal = choose|normal: Normal|
            self.masks == #[trigger] Masks::for_size(self.avg_size, normal);
        lemma_avg_size_in_table(self.avg_size, normal);
        Masks::lemma_for_size_wf(self.avg_size, normal);
        Masks::lemma_for_size_rejects_single_bytes(self.avg_size, normal);
    }

    /// The configuration that `FastCDC::try_new` builds from its arguments.
    pub open spec fn of(min_size: usize, avg_size: usize, max_size: usize, normal: Normal) -> Config {
        Config { min_size, avg_size, max_size, masks: Masks::for_size(avg_size, normal) }
    }

    /// The error that `FastCDC::try_new` reports for unacceptable sizes: that
    /// of the first of its four tests that fails.
    pub open spec fn error_of(min_size: usize, avg_size: usize, max_size: usize) -> ConfigError {
        if !(MIN_CHUNK_SIZE_MIN <= min_size <= MIN_CHUNK_SIZE_MAX) {
            ConfigError::MinSize
        } else if !(AVG_CHUNK_SIZE_MIN <= avg_size <= AVG_CHUNK_SIZE_MAX) {
            ConfigError::AvgSize
        } else if !(MAX_CHUNK_SIZE_MIN <= max_size <= MAX_CHUNK_SIZE_MAX) {
            ConfigError::MaxSize
        } else {
            ConfigError::Order
        }
    }

    /// The result of the resumable cut-point search under this configuration.
    pub open spec fn cut_from(self, s: Seq<u8>, offset: int, prev_hash: u64) -> (u64, int) {
        cut_from(
            s,
            offset,
            prev_hash,
            self.min_size as int,
            self.avg_size as int,
            self.max_size as int,
            self.masks,
        )
    }

    /// The fingerprint and the length of the first chunk of `s`.
    pub open spec fn cut_point(self, s: Seq<u8>) -> (u64, int) {
        self.cut_from(s, 0, 0)
    }
}

/// Every average size within its limits has its masks in the table, at each
/// level.
pub proof fn lemma_avg_size_in_table(avg_size: usize, normal: Normal)
    requires
        AVG_CHUNK_SIZE_MIN <= avg_size <= AVG_CHUNK_SIZE_MAX,
    ensures
        Masks::in_table(avg_size, normal),
        8 <= log2_floor(avg_size as nat) <= 22,
{
    lemma_log2_floor_brackets(avg_size as nat);
    lemma2_to64();
    let r = log2_floor(avg_size as nat);
    if r < 8 {
        lemma_pow2_strictly_increases(r + 1, 9);
    }
    if r > 22 {
        lemma_pow2_strictly_increases(22, r);
    }
}

/// A FastCDC chunker.
pub struct FastCDC {
    min_size: usize,
    avg_size: usize,
    max_size: usize,
    masks: Masks,
}

impl View for FastCDC {
    type V = Config;

    closed spec fn view(&self) -> Config {
        Config {
            min_size: self.min_size,
            avg_size: self.avg_size,
            max_size: self.max_size,
            masks: self.masks,
        }
    }
}

impl FastCDC {
    #[verifier::type_invariant]
    spec fn inv(self) -> bool {
        self@.valid()
    }

    /// Constructs a chunker from sizes that are known to be acceptable.
    pub fn new(min_size: usize, avg_size: usize, max_size: usize, normal: Normal) -> (chunker: Self)
        requires
            Config::sizes_ok(min_size, avg_size, max_size),
        ensures
            chunker@ == Config::of(min_size, avg_size, max_size, normal),
            chunker@.valid(),
    {
        match Self::try_new(min_size, avg_size, max_size, normal) {
            Ok(instance) => instance,
            Err(_) => vstd::pervasive::unreached(),
        }
    }

    /// Constructs a chunker, or says which of the sizes is not acceptable.
    ///
    /// * `min_size`: 64 to 1,048,576 (1 MB)
    /// * `avg_size`: 256 to 4,194,304 (4 MB)
    /// * `max_size`: 1,024 (1 KB) to 16,777,216 (16 MB)
    /// * `min_size < avg_size < max_size`
    pub fn try_new(min_size: usize, avg_size: usize, max_size: usize, normal: Normal) -> (r: Result<
        Self,
        ConfigError,
    >)
        ensures
            r is Ok <==> Config::sizes_ok(min_size, avg_size, max_size),
            r matches Ok(chunker) ==> chunker@ == Config::of(min_size, avg_size, max_size, normal)
                && chunker@.valid(),
            r matches Err(e) ==> e == Config::error_of(min_size, avg_size, max_size),
    {
        if !(MIN_CHUNK_SIZE_MIN <= min_size && min_size <= MIN_CHUNK_SIZE_MAX) {
            return Err(ConfigError::MinSize);
        }
        if !(AVG_CHUNK_SIZE_MIN <= avg_size && avg_size <= AVG_CHUNK_SIZE_MAX) {
            return Err(ConfigError::AvgSize);
        }
        if !(MAX_CHUNK_SIZE_MIN <= max_size && max_size <= MAX_CHUNK_SIZE_MAX) {
            return Err(ConfigError::MaxSize);
        }
        if !(min_size < avg_size && avg_size < max_size) {
            return Err(ConfigError::Order);
        }
        proof {
            lemma_avg_size_in_table(avg_size, normal);
        }
        let masks = Masks::new(avg_size, normal);
        proof {
            Config::lemma_of_valid(min_size, avg_size, max_size, normal);
        }
        Ok(Self { min_size, avg_size, max_size, masks })
    }

    /// The minimum size of a chunk.
    pub fn min_size(&self) -> (n: usize)
        ensures
            n == self@.min_size,
            self@.valid(),
    {
        proof {
            use_type_invariant(self);
        }
        self.min_size
    }

    /// The target average size of a chunk.
    pub fn avg_size(&self) -> (n: usize)
        ensures
            n == self@.avg_size,
            self@.valid(),
    {
        proof {
            use_type_invariant(self);
        }
        self.avg_size
    }

    /// The maximum size of a chunk.
    pub fn max_size(&self) -> (n: usize)
        ensures
            n == self@.max_size,
            self@.valid(),
    {
        proof {
            use_type_invariant(self);
        }
        self.max_size
    }

    /// The masks of the cut-point search.
    pub fn masks(&self) -> (m: Masks)
        ensures
            m == self@.masks,
            self@.valid(),
    {
        proof {
            use_type_invariant(self);
        }
        self.masks
    }

    /// Runs the resumable cut-point search with the sizes and masks of this
    /// chunker.
    pub fn find_cutpoint_from(&self, source: &[u8], offset: usize, prev_hash: u64) -> (r: (
        u64,
        usize,
    ))
        ensures
            (r.0, r.1 as int) == self@.cut_from(source@, offset as int, prev_hash),
            self@.valid(),
            r.1 <= source.len(),
            r.1 <= self@.max_size,
            source.len() > 0 ==> r.1 >= 1,
    {
        proof {
            use_type_invariant(self);
        }
        find_cutpoint_inner(
            source,
            offset,
            prev_hash,
            self.min_size,
            self.avg_size,
            self.max_size,
            self.masks.mask_s,
            self.masks.mask_s_ls,
            self.masks.mask_l,
            self.masks.mask_l_ls,
        )
    }
}

} // verus!

//! The mask table and the pair of masks a chunker works with.
//!
//! A boundary is accepted where the rolling hash has no bit in common with a
//! mask, so a mask with more bits set accepts fewer positions. Normalized
//! chunking uses a strict mask before the average size and a loose mask after
//! it; the normalization level says how many bits lie between the two.
use crate::gear::gear;
use vstd::arithmetic::power2::{lemma2_to64, lemma2_to64_rest, lemma_pow2_unfold, pow2};
use vstd::prelude::*;

verus! {

/// The mask with `k` bits set stands at index `k`; the entries below index 5
/// are zero and only keep the index arithmetic simple.
pub const MASK_TABLE: [u64; 26] = [
    0x0000000000000000,
    0x0000000000000000,
    0x0000000000000000,
    0x0000000000000000,
    0x0000000000000000,
    0x0080006000020001,
    0x0080006100020001,
    0x0080006100020801,
    0x008000e100020801,
    0x008010e100020801,
    0x008010e140020801,
    0x008010e1c0020801,
    0x008110e1c0020801,
    0x008110e1c0024801,
    0x008110e1c0024821,
    0x008114e1c0024821,
    0x008114e1c002c821,
    0x008194e1c002c821,
    0x008194e1c002cc21,
    0x009194e1c002cc21,
    0x009194e1c012cc21,
    0x009194e1c112cc21,
    0x009394e1c112cc21,
    0x009b94e1c112cc21,
    0x009b94e1c112cc31,
    0x00bb94e1c112cc31,
];

/// Levels of chunk size normalization.
#[derive(Debug, Clone, Copy)]
pub enum Normal {
    /// No normalization.
    Level0,
    /// Level 1 normalization.
    Level1,
    /// Level 2 normalization (recommended).
    Level2,
    /// Level 3 normalization.
    Level3,
}

impl Normal {
    /// How many bits the strict mask has more, and the loose mask has fewer,
    /// than the base-2 logarithm of the average size.
    pub open spec fn level(self) -> nat {
        match self {
            Normal::Level0 => 0,
            Normal::Level1 => 1,
            Normal::Level2 => 2,
            Normal::Level3 => 3,
        }
    }

    /// The level as a number.
    pub fn offset(&self) -> (r: u32)
        ensures
            r == self.level(),
    {
        match self {
            Normal::Level0 => 0,
            Normal::Level1 => 1,
            Normal::Level2 => 2,
            Normal::Level3 => 3,
        }
    }
}

/// The base-2 logarithm of `n`, rounded down; 0 for `n == 0`.
pub open spec fn log2_floor(n: nat) -> nat
    decreases n,
{
    if n <= 1 {
        0
    } else {
        1 + log2_floor(n / 2)
    }
}

/// A number below `2^k` has a logarithm below `k`.
pub proof fn lemma_log2_floor_below(n: nat, k: nat)
    requires
        k >= 1,
        n < pow2(k),
    ensures
        log2_floor(n) < k,
    decreases n,
{
    if n > 1 {
        lemma_pow2_unfold(k);
        if k == 1 {
            lemma2_to64();
        } else {
            lemma_log2_floor_below(n / 2, (k - 1) as nat);
        }
    }
}

/// The logarithm brackets its argument: `2^r <= n < 2^(r + 1)`.
pub proof fn lemma_log2_floor_brackets(n: nat)
    requires
        n >= 1,
    ensures
        pow2(log2_floor(n)) <= n < pow2(log2_floor(n) + 1),
    decreases n,
{
    lemma2_to64();
    if n > 1 {
        lemma_log2_floor_brackets(n / 2);
        lemma_pow2_unfold(log2_floor(n));
        lemma_pow2_unfold(log2_floor(n) + 1);
    }
}

/// Computes the base-2 logarithm of `x`, rounded down.
pub fn floor_log2(x: usize) -> (r: u32)
    requires
        x > 0,
    ensures
        r == log2_floor(x as nat),
        pow2(r as nat) <= x < pow2((r + 1) as nat),
        r < 64,
{
    proof {
        lemma2_to64_rest();
        lemma_log2_floor_below(x as nat, 64);
        lemma_log2_floor_brackets(x as nat);
    }
    let mut rest: usize = x;
    let mut r: u32 = 0;
    while rest > 1
        invariant
            rest >= 1,
            r + log2_floor(rest as nat) == log2_floor(x as nat),
            log2_floor(x as nat) < 64,
        decreases rest,
    {
        rest = rest / 2;
        r = r + 1;
    }
    r
}

/// The four masks of the cut-point search: the strict and the loose mask, and
/// each of them shifted left by one bit for the first byte of a pair.
#[derive(Debug, Clone, Copy)]
pub struct Masks {
    pub mask_s: u64,
    pub mask_s_ls: u64,
    pub mask_l: u64,
    pub mask_l_ls: u64,
}

impl Masks {
    /// The shifted masks are the plain ones shifted left by one bit, and the
    /// plain ones leave the top bit clear, so that no bit is lost in the shift.
    pub open spec fn wf(self) -> bool {
        &&& self.mask_s_ls == self.mask_s << 1
        &&& self.mask_l_ls == self.mask_l << 1
        &&& self.mask_s < 0x8000_0000_0000_0000
        &&& self.mask_l < 0x8000_0000_0000_0000
    }

    /// The strict mask has a bit in common with the gear word of every byte:
    /// the hash of a single byte is never accepted under it.
    pub open spec fn rejects_single_bytes(self) -> bool {
        forall|b: u8| (#[trigger] gear(b) & self.mask_s) != 0
    }

    /// Whether the table has a strict and a loose mask for this average size
    /// and level.
    pub open spec fn in_table(avg_size: usize, normal: Normal) -> bool {
        &&& avg_size > 0
        &&& normal.level() <= log2_floor(avg_size as nat)
        &&& log2_floor(avg_size as nat) + normal.level() < 26
    }

    /// The masks for an average size and a level: the strict one has
    /// `log2(avg_size) + level` bits set, the loose one `log2(avg_size) - level`.
    pub open spec fn for_size(avg_size: usize, normal: Normal) -> Masks {
        let bits = log2_floor(avg_size as nat);
        let mask_s = MASK_TABLE[(bits + normal.level()) as int];
        let mask_l = MASK_TABLE[bits - normal.level()];
        Masks { mask_s, mask_s_ls: mask_s << 1, mask_l, mask_l_ls: mask_l << 1 }
    }

    /// Every pair of masks taken from the table is well formed.
    pub proof fn lemma_for_size_wf(avg_size: usize, normal: Normal)
        requires
            Masks::in_table(avg_size, normal),
        ensures
            Masks::for_size(avg_size, normal).wf(),
    {
        lemma_table_top_bit_clear();
    }

    /// A strict mask of at least eight bits from the table accepts the hash of
    /// no single byte.
    pub proof fn lemma_for_size_rejects_single_bytes(avg_size: usize, normal: Normal)
        requires
            Masks::in_table(avg_size, normal),
            log2_floor(avg_size as nat) + normal.level() >= 8,
        ensures
            Masks::for_size(avg_size, normal).rejects_single_bytes(),
    {
        let k = (log2_floor(avg_size as nat) + normal.level()) as int;
        let m = MASK_TABLE[k];
        let eight = MASK_TABLE[8];
        lemma_table_nested(k);
        assert forall|b: u8| (#[trigger] gear(b) & m) != 0 by {
            let g = gear(b);
            lemma_gear_meets_eight_bits(b);
            assert((g & eight) != 0 && (m & eight) == eight ==> (g & m) != 0) by (bit_vector);
        }
    }

    /// The strict mask has `log2(avg_size) + level` bits set and the loose one
    /// `log2(avg_size) - level`, for every average size from 32 on.
    pub proof fn lemma_for_size_bit_counts(avg_size: usize, normal: Normal)
        requires
            Masks::in_table(avg_size, normal),
            log2_floor(avg_size as nat) - normal.level() >= 5,
        ensures
            bit_count(Masks::for_size(avg_size, normal).mask_s as nat) == log2_floor(
                avg_size as nat,
            ) + normal.level(),
            bit_count(Masks::for_size(avg_size, normal).mask_l as nat) == log2_floor(
                avg_size as nat,
            ) - normal.level(),
    {
        lemma_table_bit_counts((log2_floor(avg_size as nat) + normal.level()) as int);
        lemma_table_bit_counts(log2_floor(avg_size as nat) - normal.level());
    }

    /// Looks up the masks for an average size and a normalization level.
    pub fn new(avg_size: usize, normal: Normal) -> (m: Masks)
        requires
            Masks::in_table(avg_size, normal),
        ensures
            m == Masks::for_size(avg_size, normal),
            m.wf(),
    {
        let bits = floor_log2(avg_size);
        let offset = normal.offset();

        let mask_s = MASK_TABLE[(bits + offset) as usize];
        let mask_s_ls = mask_s << 1;

        let mask_l = MASK_TABLE[(bits - offset) as usize];
        let mask_l_ls = mask_l << 1;

        proof {
            lemma_table_top_bit_clear();
        }
        Masks { mask_s, mask_s_ls, mask_l, mask_l_ls }
    }
}

/// The gear word of every byte has a bit in common with the mask of eight
/// bits.
pub proof fn lemma_gear_meets_eight_bits(b: u8)
    ensures
        (gear(b) & MASK_TABLE[8]) != 0,
{
    let g = gear(b);
    assert(g % 2 == 1 || (g / 0x800) % 2 == 1 || (g / 0x2_0000) % 2 == 1 || (g / 0x1_0000_0000) % 2
        == 1 || (g / 0x20_0000_0000) % 2 == 1 || (g / 0x40_0000_0000) % 2 == 1 || (g
        / 0x80_0000_0000) % 2 == 1 || (g / 0x80_0000_0000_0000) % 2 == 1);
    assert((g & 0x0080_00e1_0002_0801) == 0 ==> g % 2 == 0 && (g / 0x800) % 2 == 0 && (g / 0x2_0000)
        % 2 == 0 && (g / 0x1_0000_0000) % 2 == 0 && (g / 0x20_0000_0000) % 2 == 0 && (g
        / 0x40_0000_0000) % 2 == 0 && (g / 0x80_0000_0000) % 2 == 0 && (g / 0x80_0000_0000_0000)
        % 2 == 0) by (bit_vector);
}

/// Every mask of at least eight bits holds the bits of the mask of eight
/// bits.
pub proof fn lemma_table_nested(k: int)
    requires
        8 <= k < 26,
    ensures
        (MASK_TABLE[k] & MASK_TABLE[8]) == MASK_TABLE[8],
{
    let m = MASK_TABLE[k];
    assert(m == 0x0080_00e1_0002_0801 || m == 0x0080_10e1_0002_0801 || m == 0x0080_10e1_4002_0801
        || m == 0x0080_10e1_c002_0801 || m == 0x0081_10e1_c002_0801 || m == 0x0081_10e1_c002_4801
        || m == 0x0081_10e1_c002_4821 || m == 0x0081_14e1_c002_4821 || m == 0x0081_14e1_c002_c821
        || m == 0x0081_94e1_c002_c821 || m == 0x0081_94e1_c002_cc21 || m == 0x0091_94e1_c002_cc21
        || m == 0x0091_94e1_c012_cc21 || m == 0x0091_94e1_c112_cc21 || m == 0x0093_94e1_c112_cc21
        || m == 0x009b_94e1_c112_cc21 || m == 0x009b_94e1_c112_cc31 || m == 0x00bb_94e1_c112_cc31);
    assert((m == 0x0080_00e1_0002_0801 || m == 0x0080_10e1_0002_0801 || m == 0x0080_10e1_4002_0801
        || m == 0x0080_10e1_c002_0801 || m == 0x0081_10e1_c002_0801 || m == 0x0081_10e1_c002_4801
        || m == 0x0081_10e1_c002_4821 || m == 0x0081_14e1_c002_4821 || m == 0x0081_14e1_c002_c821
        || m == 0x0081_94e1_c002_c821 || m == 0x0081_94e1_c002_cc21 || m == 0x0091_94e1_c002_cc21
        || m == 0x0091_94e1_c012_cc21 || m == 0x0091_94e1_c112_cc21 || m == 0x0093_94e1_c112_cc21
        || m == 0x009b_94e1_c112_cc21 || m == 0x009b_94e1_c112_cc31 || m == 0x00bb_94e1_c112_cc31)
        ==> (m & 0x0080_00e1_0002_0801) == 0x0080_00e1_0002_0801) by (bit_vector);
}

/// The number of bits set in `n`.
pub open spec fn bit_count(n: nat) -> nat
    decreases n,
{
    if n == 0 {
        0
    } else {
        n % 2 + bit_count(n / 2)
    }
}

/// Setting a bit that is clear adds one to the number of bits set.
pub proof fn lemma_bit_added(n: nat, p: nat)
    requires
        (n / pow2(p)) % 2 == 0,
    ensures
        bit_count(n + pow2(p)) == bit_count(n) + 1,
    decreases p,
{
    lemma2_to64();
    if p == 0 {
        let one = pow2(0);
        assert(n / one == n) by (nonlinear_arith)
            requires
                one == 1,
        ;
        assert((n + 1) / 2 == n / 2);
    } else {
        lemma_pow2_unfold(p);
        let half = pow2((p - 1) as nat);
        vstd::arithmetic::power2::lemma_pow2_pos((p - 1) as nat);
        assert(pow2(p) == 2 * half);
        assert((n + 2 * half) / 2 == n / 2 + half);
        assert((n + 2 * half) % 2 == n % 2);
        assert((n / 2) / half == n / (2 * half)) by {
            vstd::arithmetic::div_mod::lemma_div_denominator(n as int, 2, half as int);
        }
        lemma_bit_added(n / 2, (p - 1) as nat);
        vstd::arithmetic::power2::lemma_pow2_pos(p);
    }
}

/// The mask at index `k` of the table has `k` bits set, from index 5 on.
pub proof fn lemma_table_bit_counts(k: int)
    requires
        5 <= k < 26,
    ensures
        bit_count(MASK_TABLE[k] as nat) == k,
{
    lemma2_to64();
    lemma2_to64_rest();
    assert(bit_count(0) == 0);
    lemma_bit_added(0, 0);
    lemma_bit_added(0x0000_0000_0000_0001, 17);
    lemma_bit_added(0x0000_0000_0002_0001, 37);
    lemma_bit_added(0x0000_0020_0002_0001, 38);
    lemma_bit_added(0x0000_0060_0002_0001, 55);
    lemma_bit_added(0x0080_0060_0002_0001, 32);
    lemma_bit_added(0x0080_0061_0002_0001, 11);
    lemma_bit_added(0x0080_0061_0002_0801, 39);
    lemma_bit_added(0x0080_00e1_0002_0801, 44);
    lemma_bit_added(0x0080_10e1_0002_0801, 30);
    lemma_bit_added(0x0080_10e1_4002_0801, 31);
    lemma_bit_added(0x0080_10e1_c002_0801, 48);
    lemma_bit_added(0x0081_10e1_c002_0801, 14);
    lemma_bit_added(0x0081_10e1_c002_4801, 5);
    lemma_bit_added(0x0081_10e1_c002_4821, 42);
    lemma_bit_added(0x0081_14e1_c002_4821, 15);
    lemma_bit_added(0x0081_14e1_c002_c821, 47);
    lemma_bit_added(0x0081_94e1_c002_c821, 10);
    lemma_bit_added(0x0081_94e1_c002_cc21, 52);
    lemma_bit_added(0x0091_94e1_c002_cc21, 20);
    lemma_bit_added(0x0091_94e1_c012_cc21, 24);
    lemma_bit_added(0x0091_94e1_c112_cc21, 49);
    lemma_bit_added(0x0093_94e1_c112_cc21, 51);
    lemma_bit_added(0x009b_94e1_c112_cc21, 4);
    lemma_bit_added(0x009b_94e1_c112_cc31, 53);
}

/// No mask of the table has its top bit set.
pub proof fn lemma_table_top_bit_clear()
    ensures
        forall|k: int| 0 <= k < 26 ==> #[trigger] MASK_TABLE[k] < 0x8000_0000_0000_0000,
{
}

} // verus!

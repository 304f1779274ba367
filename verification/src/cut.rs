//! The cut-point search.
//!
//! A chunk ends at the first position, from the minimum size on, where the
//! rolling hash has no bit in common with the mask in force: the strict mask
//! before the average size, the loose one after it. Where no position
//! qualifies the chunk ends with the scanned window.
//!
//! The search takes the bytes in pairs. After the first byte of a pair it
//! holds the hash shifted left by one bit and tests it against the shifted
//! mask; after the second byte it holds the hash itself.
use crate::gear::{gear_fold, gear_step, lemma_fold_front, roll_first, roll_second};
use crate::mask::Masks;
use vstd::prelude::*;

verus! {

/// How many bytes of a buffer of `len` bytes the search looks at.
pub open spec fn scan_len(len: int, max_size: int) -> int {
    if len < max_size {
        len
    } else {
        max_size
    }
}

/// Whether the strict mask is in force at byte `c`: the pair of `c` lies
/// before the pair of `avg_size`.
pub open spec fn strict_at(c: int, avg_size: int) -> bool {
    c / 2 < avg_size / 2
}

/// The mask that byte `c` is tested against.
pub open spec fn mask_at(c: int, avg_size: int, m: Masks) -> u64 {
    if c % 2 == 0 {
        if strict_at(c, avg_size) {
            m.mask_s_ls
        } else {
            m.mask_l_ls
        }
    } else {
        if strict_at(c, avg_size) {
            m.mask_s
        } else {
            m.mask_l
        }
    }
}

/// What the search holds after byte `c`, given the hash `h` after that byte:
/// the hash shifted left by one bit at an even position, the hash itself at an
/// odd one.
pub open spec fn held_at(c: int, h: u64) -> u64 {
    if c % 2 == 0 {
        h << 1
    } else {
        h
    }
}

/// Whether a boundary is accepted at byte `c`, given the hash `h` after it.
pub open spec fn fires_at(c: int, h: u64, avg_size: int, m: Masks) -> bool {
    (held_at(c, h) & mask_at(c, avg_size, m)) == 0
}

/// The search over the bytes `s[c..hi)`, entered with the hash `h` of the
/// bytes before `c`. It yields the value held and the index of the first byte
/// at which a boundary is accepted, or the hash after `s[hi - 1]` and `miss`.
pub open spec fn scan(
    s: Seq<u8>,
    c: int,
    hi: int,
    h: u64,
    avg_size: int,
    m: Masks,
    miss: int,
) -> (u64, int)
    decreases hi - c,
{
    if c >= hi {
        (h, miss)
    } else {
        let after = gear_step(h, s[c]);
        if fires_at(c, after, avg_size, m) {
            (held_at(c, after), c)
        } else {
            scan(s, c + 1, hi, after, avg_size, m, miss)
        }
    }
}

/// The first byte that the search tests: `min_size`, rounded down to a pair.
pub open spec fn first_tested(min_size: int) -> int {
    2 * (min_size / 2)
}

/// The end of the tested range in a window of `n` bytes: `n`, rounded down to
/// a pair.
pub open spec fn pairs_end(n: int) -> int {
    2 * (n / 2)
}

/// The result of the resumable search on `s`. A window of at most `min_size`
/// bytes is cut at its end and hands `prev_hash` back. Otherwise the search
/// starts afresh at the minimum size when `offset` lies before it, and else
/// goes on at the pair of `offset` with `prev_hash`.
pub open spec fn cut_from(
    s: Seq<u8>,
    offset: int,
    prev_hash: u64,
    min_size: int,
    avg_size: int,
    max_size: int,
    m: Masks,
) -> (u64, int) {
    let n = scan_len(s.len() as int, max_size);
    if n <= min_size {
        (prev_hash, n)
    } else if offset < min_size {
        scan(s, first_tested(min_size), pairs_end(n), 0, avg_size, m, n)
    } else {
        scan(s, pairs_end(offset), pairs_end(n), prev_hash, avg_size, m, n)
    }
}

/// The result of the search on `s` from the start: the fingerprint and the
/// length of the first chunk of `s`.
pub open spec fn cut_point(
    s: Seq<u8>,
    min_size: int,
    avg_size: int,
    max_size: int,
    m: Masks,
) -> (u64, int) {
    cut_from(s, 0, 0, min_size, avg_size, max_size, m)
}

/// The search ends inside the range it was given, or misses.
pub proof fn lemma_scan_range(
    s: Seq<u8>,
    c: int,
    hi: int,
    h: u64,
    avg_size: int,
    m: Masks,
    miss: int,
)
    ensures
        ({
            let r = scan(s, c, hi, h, avg_size, m, miss);
            r.1 == miss || c <= r.1 < hi
        }),
    decreases hi - c,
{
    if c < hi {
        lemma_scan_range(s, c + 1, hi, gear_step(h, s[c]), avg_size, m, miss);
    }
}

/// The search reads no byte outside the range it was given.
pub proof fn lemma_scan_reads_range(
    s: Seq<u8>,
    t: Seq<u8>,
    c: int,
    hi: int,
    h: u64,
    avg_size: int,
    m: Masks,
    miss: int,
)
    requires
        forall|i: int| c <= i < hi ==> s[i] == t[i],
    ensures
        scan(s, c, hi, h, avg_size, m, miss) == scan(t, c, hi, h, avg_size, m, miss),
    decreases hi - c,
{
    if c < hi {
        lemma_scan_reads_range(s, t, c + 1, hi, gear_step(h, s[c]), avg_size, m, miss);
    }
}

/// A search may be taken in two parts. Where the first part accepts a
/// boundary the whole search accepts the same one; where it misses, the whole
/// search is the second part entered with the hash that the first handed
/// back.
pub proof fn lemma_scan_split(
    s: Seq<u8>,
    c: int,
    mid: int,
    hi: int,
    h: u64,
    avg_size: int,
    m: Masks,
    miss: int,
)
    requires
        c <= mid <= hi <= miss,
    ensures
        ({
            let part = scan(s, c, mid, h, avg_size, m, miss);
            let whole = scan(s, c, hi, h, avg_size, m, miss);
            if part.1 == miss {
                whole == scan(s, mid, hi, part.0, avg_size, m, miss)
            } else {
                whole == part
            }
        }),
    decreases mid - c,
{
    if c < mid {
        lemma_scan_split(s, c + 1, mid, hi, gear_step(h, s[c]), avg_size, m, miss);
        lemma_scan_range(s, c + 1, mid, gear_step(h, s[c]), avg_size, m, miss);
    }
}

/// Where the search misses it has accepted no byte of its range, and it hands
/// back the hash of the whole range.
pub proof fn lemma_scan_miss(
    s: Seq<u8>,
    c: int,
    hi: int,
    h: u64,
    avg_size: int,
    m: Masks,
    miss: int,
)
    requires
        c <= hi <= miss,
        scan(s, c, hi, h, avg_size, m, miss).1 == miss,
    ensures
        scan(s, c, hi, h, avg_size, m, miss).0 == gear_fold(h, s, c, hi),
        forall|k: int| c <= k < hi ==> !fires_at(k, #[trigger] gear_fold(h, s, c, k + 1), avg_size, m),
    decreases hi - c,
{
    if c < hi {
        let after = gear_step(h, s[c]);
        lemma_scan_range(s, c + 1, hi, after, avg_size, m, miss);
        lemma_scan_miss(s, c + 1, hi, after, avg_size, m, miss);
        assert forall|k: int| c <= k <= hi implies #[trigger] gear_fold(h, s, c, k + 1) == gear_fold(
            after,
            s,
            c + 1,
            k + 1,
        ) by {
            lemma_fold_front(h, s, c, k + 1);
        }
        lemma_fold_front(h, s, c, hi);
    }
}

/// Where the search accepts a boundary, it is the first byte of the range at
/// which the hash of the bytes up to and including it has no bit in common
/// with the mask in force, and the value handed back is what is held there.
pub proof fn lemma_scan_hit(
    s: Seq<u8>,
    c: int,
    hi: int,
    h: u64,
    avg_size: int,
    m: Masks,
    miss: int,
)
    requires
        c <= hi <= miss,
        scan(s, c, hi, h, avg_size, m, miss).1 != miss,
    ensures
        ({
            let r = scan(s, c, hi, h, avg_size, m, miss);
            &&& c <= r.1 < hi
            &&& fires_at(r.1, gear_fold(h, s, c, r.1 + 1), avg_size, m)
            &&& r.0 == held_at(r.1, gear_fold(h, s, c, r.1 + 1))
            &&& forall|k: int|
                c <= k < r.1 ==> !fires_at(k, #[trigger] gear_fold(h, s, c, k + 1), avg_size, m)
        }),
    decreases hi - c,
{
    if c < hi {
        let after = gear_step(h, s[c]);
        assert(gear_fold(h, s, c, c + 1) == after) by {
            assert(gear_fold(h, s, c, c) == h);
        }
        if !fires_at(c, after, avg_size, m) {
            lemma_scan_hit(s, c + 1, hi, after, avg_size, m, miss);
            assert forall|k: int| c <= k <= hi implies #[trigger] gear_fold(h, s, c, k + 1)
                == gear_fold(after, s, c + 1, k + 1) by {
                lemma_fold_front(h, s, c, k + 1);
            }
        }
    }
}

/// The cut lies within the scanned window. With a `min_size` of at least 2
/// the cut of a window that is not empty is not 0.
pub proof fn lemma_cut_from_bounds(
    s: Seq<u8>,
    offset: int,
    prev_hash: u64,
    min_size: int,
    avg_size: int,
    max_size: int,
    m: Masks,
)
    requires
        0 <= offset,
        0 <= min_size,
        0 <= max_size,
    ensures
        ({
            let cut = cut_from(s, offset, prev_hash, min_size, avg_size, max_size, m).1;
            let n = scan_len(s.len() as int, max_size);
            &&& 0 <= cut <= n
            &&& n > 0 && min_size >= 2 ==> cut >= 1
        }),
{
    let n = scan_len(s.len() as int, max_size);
    if n > min_size {
        if offset < min_size {
            lemma_scan_range(s, first_tested(min_size), pairs_end(n), 0, avg_size, m, n);
        } else {
            lemma_scan_range(s, pairs_end(offset), pairs_end(n), prev_hash, avg_size, m, n);
        }
    }
}

/// What the search hands back does not depend on the number that stands for
/// a miss, as long as that number lies behind the range.
pub proof fn lemma_scan_miss_value(
    s: Seq<u8>,
    c: int,
    hi: int,
    h: u64,
    avg_size: int,
    m: Masks,
    miss: int,
    other: int,
)
    requires
        hi <= miss,
        hi <= other,
    ensures
        ({
            let r = scan(s, c, hi, h, avg_size, m, miss);
            let q = scan(s, c, hi, h, avg_size, m, other);
            &&& q.0 == r.0
            &&& r.1 == miss <==> q.1 == other
            &&& r.1 != miss ==> q.1 == r.1
        }),
    decreases hi - c,
{
    if c < hi {
        lemma_scan_miss_value(s, c + 1, hi, gear_step(h, s[c]), avg_size, m, miss, other);
    }
}

/// The resumable search looks at the scanned window only: two buffers that
/// agree on it give the same result.
pub proof fn lemma_cut_from_window(
    s: Seq<u8>,
    t: Seq<u8>,
    offset: int,
    prev_hash: u64,
    min_size: int,
    avg_size: int,
    max_size: int,
    m: Masks,
)
    requires
        scan_len(s.len() as int, max_size) == scan_len(t.len() as int, max_size),
        forall|i: int| 0 <= i < scan_len(s.len() as int, max_size) ==> s[i] == t[i],
        min_size >= 0,
    ensures
        cut_from(s, offset, prev_hash, min_size, avg_size, max_size, m) == cut_from(
            t,
            offset,
            prev_hash,
            min_size,
            avg_size,
            max_size,
            m,
        ),
{
    let n = scan_len(s.len() as int, max_size);
    if n > min_size {
        if offset < min_size {
            lemma_scan_reads_range(s, t, first_tested(min_size), pairs_end(n), 0, avg_size, m, n);
        } else {
            lemma_scan_reads_range(
                s,
                t,
                pairs_end(offset),
                pairs_end(n),
                prev_hash,
                avg_size,
                m,
                n,
            );
        }
    }
}

/// A boundary accepted in a prefix stands: the search on any longer buffer,
/// entered in the same way, accepts the same boundary with the same value.
pub proof fn lemma_cut_from_extend(
    s: Seq<u8>,
    t: Seq<u8>,
    offset: int,
    prev_hash: u64,
    min_size: int,
    avg_size: int,
    max_size: int,
    m: Masks,
)
    requires
        s.is_prefix_of(t),
        min_size >= 0,
        cut_from(s, offset, prev_hash, min_size, avg_size, max_size, m).1 < scan_len(
            s.len() as int,
            max_size,
        ),
    ensures
        cut_from(t, offset, prev_hash, min_size, avg_size, max_size, m) == cut_from(
            s,
            offset,
            prev_hash,
            min_size,
            avg_size,
            max_size,
            m,
        ),
{
    let n = scan_len(s.len() as int, max_size);
    let k = scan_len(t.len() as int, max_size);
    let c = if offset < min_size {
        first_tested(min_size)
    } else {
        pairs_end(offset)
    };
    let h = if offset < min_size {
        0u64
    } else {
        prev_hash
    };
    assert(n > min_size);
    assert(forall|i: int| 0 <= i < s.len() ==> s[i] == t[i]);
    lemma_scan_range(s, c, pairs_end(n), h, avg_size, m, n);
    assert(c <= pairs_end(n));
    lemma_scan_reads_range(s, t, c, pairs_end(n), h, avg_size, m, n);
    lemma_scan_miss_value(t, c, pairs_end(n), h, avg_size, m, n, k);
    lemma_scan_split(t, c, pairs_end(n), pairs_end(k), h, avg_size, m, k);
}

/// The mask in force at byte `c`, not shifted.
pub open spec fn plain_mask_at(c: int, avg_size: int, m: Masks) -> u64 {
    if strict_at(c, avg_size) {
        m.mask_s
    } else {
        m.mask_l
    }
}

/// With well-formed masks the test at an even position is the test at an odd
/// one: a boundary is accepted where the hash itself has no bit in common
/// with the mask in force.
pub proof fn lemma_fires_plain(c: int, h: u64, avg_size: int, m: Masks)
    requires
        m.wf(),
    ensures
        fires_at(c, h, avg_size, m) <==> (h & plain_mask_at(c, avg_size, m)) == 0,
{
    let k = plain_mask_at(c, avg_size, m);
    assert(k < 0x8000_0000_0000_0000 ==> (((h << 1) & (k << 1)) == 0 <==> (h & k) == 0))
        by (bit_vector);
}

/// Finds the end of the next chunk in `source`, going on from `offset` with
/// the hash `prev_hash` that an earlier call on a shorter prefix handed back.
///
/// Returns the value held at the cut and the cut itself. A cut equal to the
/// length of the scanned window says that no boundary was accepted in it.
pub fn find_cutpoint_inner(
    source: &[u8],
    offset: usize,
    prev_hash: u64,
    min_size: usize,
    avg_size: usize,
    max_size: usize,
    mask_s: u64,
    mask_s_ls: u64,
    mask_l: u64,
    mask_l_ls: u64,
) -> (r: (u64, usize))
    ensures
        (r.0, r.1 as int) == cut_from(
            source@,
            offset as int,
            prev_hash,
            min_size as int,
            avg_size as int,
            max_size as int,
            Masks { mask_s, mask_s_ls, mask_l, mask_l_ls },
        ),
        r.1 <= source.len(),
        r.1 <= max_size,
        source.len() > 0 && max_size > 0 && min_size >= 2 ==> r.1 >= 1,
{
    let ghost m = Masks { mask_s, mask_s_ls, mask_l, mask_l_ls };
    let ghost avg = avg_size as int;
    proof {
        lemma_cut_from_bounds(
            source@,
            offset as int,
            prev_hash,
            min_size as int,
            avg,
            max_size as int,
            m,
        );
    }
    let scan_len = if source.len() < max_size {
        source.len()
    } else {
        max_size
    };

    if scan_len <= min_size {
        return (prev_hash, scan_len);
    }
    let (start_idx, mut fp_hash) = if offset < min_size {
        (min_size / 2, 0u64)
    } else {
        let aligned_offset = (offset / 2) * 2;
        (aligned_offset / 2, prev_hash)
    };

    let center_idx = (if avg_size < scan_len {
        avg_size
    } else {
        scan_len
    }) / 2;
    let end_idx = scan_len / 2;
    let ghost hi = 2 * end_idx as int;
    let ghost miss = scan_len as int;
    let ghost goal = scan(source@, 2 * start_idx as int, hi, fp_hash, avg, m, miss);

    let mut pair_idx = start_idx;
    while pair_idx < center_idx
        invariant
            center_idx <= end_idx,
            hi == 2 * end_idx <= source.len(),
            center_idx <= avg_size / 2,
            avg == avg_size,
            m == (Masks { mask_s, mask_s_ls, mask_l, mask_l_ls }),
            goal == cut_from(
                source@,
                offset as int,
                prev_hash,
                min_size as int,
                avg,
                max_size as int,
                m,
            ),
            goal.1 <= source.len(),
            goal.1 <= max_size,
            source.len() > 0 && max_size > 0 && min_size >= 2 ==> goal.1 >= 1,
            goal == scan(source@, 2 * pair_idx as int, hi, fp_hash, avg, m, miss),
        decreases center_idx - pair_idx,
    {
        let byte_idx = pair_idx * 2;
        let ghost before = fp_hash;
        let ghost first = gear_step(before, source@[byte_idx as int]);

        fp_hash = roll_first(fp_hash, source[byte_idx]);

        if (fp_hash & mask_s_ls) == 0 {
            return (fp_hash, byte_idx);
        }
        fp_hash = roll_second(fp_hash, source[byte_idx + 1]);

        proof {
            assert(fp_hash == gear_step(first, source@[byte_idx + 1]));
            assert(goal == scan(source@, byte_idx + 1, hi, first, avg, m, miss));
        }
        if (fp_hash & mask_s) == 0 {
            return (fp_hash, byte_idx + 1);
        }
        pair_idx = pair_idx + 1;
    }

    while pair_idx < end_idx
        invariant
            hi == 2 * end_idx <= source.len(),
            pair_idx >= center_idx,
            center_idx == avg_size / 2 || center_idx == end_idx,
            avg == avg_size,
            miss == scan_len,
            m == (Masks { mask_s, mask_s_ls, mask_l, mask_l_ls }),
            goal == cut_from(
                source@,
                offset as int,
                prev_hash,
                min_size as int,
                avg,
                max_size as int,
                m,
            ),
            goal.1 <= source.len(),
            goal.1 <= max_size,
            source.len() > 0 && max_size > 0 && min_size >= 2 ==> goal.1 >= 1,
            goal == scan(source@, 2 * pair_idx as int, hi, fp_hash, avg, m, miss),
        decreases end_idx - pair_idx,
    {
        let byte_idx = pair_idx * 2;
        let ghost before = fp_hash;
        let ghost first = gear_step(before, source@[byte_idx as int]);

        fp_hash = roll_first(fp_hash, source[byte_idx]);

        if (fp_hash & mask_l_ls) == 0 {
            return (fp_hash, byte_idx);
        }
        fp_hash = roll_second(fp_hash, source[byte_idx + 1]);

        proof {
            assert(fp_hash == gear_step(first, source@[byte_idx + 1]));
            assert(goal == scan(source@, byte_idx + 1, hi, first, avg, m, miss));
        }
        if (fp_hash & mask_l) == 0 {
            return (fp_hash, byte_idx + 1);
        }
        pair_idx = pair_idx + 1;
    }

    (fp_hash, scan_len)
}

/// Finds the end of the first chunk of `source`: the value held at the cut,
/// which is 0 where the window is no longer than `min_size`, and the cut.
pub fn find_cutpoint(
    source: &[u8],
    min_size: usize,
    avg_size: usize,
    max_size: usize,
    mask_s: u64,
    mask_s_ls: u64,
    mask_l: u64,
    mask_l_ls: u64,
) -> (r: (u64, usize))
    ensures
        (r.0, r.1 as int) == cut_point(
            source@,
            min_size as int,
            avg_size as int,
            max_size as int,
            Masks { mask_s, mask_s_ls, mask_l, mask_l_ls },
        ),
        r.1 <= source.len(),
        r.1 <= max_size,
        source.len() > 0 && max_size > 0 && min_size >= 2 ==> r.1 >= 1,
        source.len() <= min_size || max_size <= min_size ==> r.0 == 0,
{
    find_cutpoint_inner(
        source,
        0,
        0,
        min_size,
        avg_size,
        max_size,
        mask_s,
        mask_s_ls,
        mask_l,
        mask_l_ls,
    )
}

} // verus!

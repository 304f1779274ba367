//! Going on with a search where an earlier one stopped.
//!
//! A buffer that grows piece by piece need not be searched from its start
//! each time. A search that has accepted no boundary leaves a checkpoint
//! behind: the pair at which its window ended and the hash it had there. The
//! next search, on the longer buffer, goes on from the checkpoint and gives
//! what a search from the start would give.
use crate::cut::{
    cut_from, cut_point, first_tested, lemma_scan_miss_value, lemma_scan_range,
    lemma_scan_reads_range, lemma_scan_split, pairs_end, scan, scan_len,
};
use crate::mask::Masks;
use vstd::prelude::*;

verus! {

/// Whether the search on `s` may go on at `scanned` with the hash `h`: either
/// nothing has been scanned yet, or the search from the start has accepted no
/// boundary before the pair of `scanned` and has reached the hash `h` there.
pub open spec fn checkpoint_ok(
    s: Seq<u8>,
    scanned: int,
    h: u64,
    min_size: int,
    avg_size: int,
    max_size: int,
    m: Masks,
) -> bool {
    ||| scanned == 0 && h == 0
    ||| {
        &&& min_size <= scanned
        &&& pairs_end(scanned) <= scan_len(s.len() as int, max_size)
        &&& scan(s, first_tested(min_size), pairs_end(scanned), 0, avg_size, m, pairs_end(scanned))
            == (h, pairs_end(scanned))
    }
}

/// The checkpoint that the search leaves behind when it has accepted no
/// boundary in a window of `n` bytes: the pair at which the window ends, and
/// not less than `min_size`.
pub open spec fn checkpoint_after(n: int, min_size: int) -> int {
    if pairs_end(n) < min_size {
        min_size
    } else {
        pairs_end(n)
    }
}

/// A checkpoint stays one when the buffer grows.
pub proof fn lemma_checkpoint_extends(
    s: Seq<u8>,
    t: Seq<u8>,
    scanned: int,
    h: u64,
    min_size: int,
    avg_size: int,
    max_size: int,
    m: Masks,
)
    requires
        min_size >= 0,
        s.is_prefix_of(t),
        checkpoint_ok(s, scanned, h, min_size, avg_size, max_size, m),
    ensures
        checkpoint_ok(t, scanned, h, min_size, avg_size, max_size, m),
{
    if !(scanned == 0 && h == 0) {
        assert(forall|i: int| 0 <= i < s.len() ==> s[i] == t[i]);
        lemma_scan_reads_range(
            s,
            t,
            first_tested(min_size),
            pairs_end(scanned),
            0,
            avg_size,
            m,
            pairs_end(scanned),
        );
    }
}

/// Incremental-scan equivalence, one search: going on from a checkpoint gives
/// what the search from the start gives.
pub proof fn lemma_resume_is_restart(
    s: Seq<u8>,
    scanned: int,
    h: u64,
    min_size: int,
    avg_size: int,
    max_size: int,
    m: Masks,
)
    requires
        min_size >= 0,
        checkpoint_ok(s, scanned, h, min_size, avg_size, max_size, m),
    ensures
        cut_from(s, scanned, h, min_size, avg_size, max_size, m) == cut_point(
            s,
            min_size,
            avg_size,
            max_size,
            m,
        ),
{
    let n = scan_len(s.len() as int, max_size);
    let lo = first_tested(min_size);
    if scanned >= min_size && !(scanned == 0 && h == 0) {
        let mid = pairs_end(scanned);
        if n <= min_size {
            assert(mid == lo);
        } else {
            lemma_scan_miss_value(s, lo, mid, 0, avg_size, m, mid, n);
            lemma_scan_split(s, lo, mid, pairs_end(n), 0, avg_size, m, n);
        }
    }
}

/// Incremental-scan equivalence, from one search to the next: where the
/// search on a buffer of at least `min_size` bytes has accepted no boundary,
/// the hash it hands back and the end of its window are a checkpoint for
/// every longer buffer.
pub proof fn lemma_checkpoint_carries(
    s: Seq<u8>,
    t: Seq<u8>,
    scanned: int,
    h: u64,
    min_size: int,
    avg_size: int,
    max_size: int,
    m: Masks,
)
    requires
        min_size >= 0,
        s.is_prefix_of(t),
        checkpoint_ok(s, scanned, h, min_size, avg_size, max_size, m),
        scan_len(s.len() as int, max_size) >= min_size,
        cut_from(s, scanned, h, min_size, avg_size, max_size, m).1 == scan_len(
            s.len() as int,
            max_size,
        ),
    ensures
        checkpoint_ok(
            t,
            checkpoint_after(scan_len(s.len() as int, max_size), min_size),
            cut_from(s, scanned, h, min_size, avg_size, max_size, m).0,
            min_size,
            avg_size,
            max_size,
            m,
        ),
{
    let n = scan_len(s.len() as int, max_size);
    let lo = first_tested(min_size);
    let next = checkpoint_after(n, min_size);
    lemma_resume_is_restart(s, scanned, h, min_size, avg_size, max_size, m);
    assert(forall|i: int| 0 <= i < s.len() ==> s[i] == t[i]);
    if n > min_size {
        assert(pairs_end(next) == pairs_end(n));
        lemma_scan_range(s, lo, pairs_end(n), 0, avg_size, m, n);
        lemma_scan_miss_value(s, lo, pairs_end(n), 0, avg_size, m, n, pairs_end(n));
        lemma_scan_reads_range(s, t, lo, pairs_end(n), 0, avg_size, m, pairs_end(n));
    } else {
        assert(pairs_end(next) == lo);
    }
}

/// The checkpoint that the resumable search holds after it has been run, one
/// after the other, on the prefixes of `s` of the lengths `lens[0..k)`, each
/// time from the checkpoint that the run before left behind.
pub open spec fn checkpoint_through(
    s: Seq<u8>,
    lens: Seq<int>,
    k: int,
    min_size: int,
    avg_size: int,
    max_size: int,
    m: Masks,
) -> (int, u64)
    decreases k,
{
    if k <= 0 {
        (0, 0)
    } else {
        let before = checkpoint_through(s, lens, k - 1, min_size, avg_size, max_size, m);
        let len = lens[k - 1];
        (
            checkpoint_after(scan_len(len, max_size), min_size),
            cut_from(s.take(len), before.0, before.1, min_size, avg_size, max_size, m).0,
        )
    }
}

/// Whether each of the runs behind `checkpoint_through` accepted no boundary
/// in its prefix, so that the search went on with the next.
pub open spec fn all_missed(
    s: Seq<u8>,
    lens: Seq<int>,
    k: int,
    min_size: int,
    avg_size: int,
    max_size: int,
    m: Masks,
) -> bool {
    forall|i: int|
        0 <= i < k ==> {
            let before = #[trigger] checkpoint_through(
                s,
                lens,
                i,
                min_size,
                avg_size,
                max_size,
                m,
            );
            cut_from(s.take(lens[i]), before.0, before.1, min_size, avg_size, max_size, m).1
                == scan_len(lens[i], max_size)
        }
}

/// Incremental-scan equivalence: however a buffer has grown, through
/// prefixes of whatever lengths from `min_size` on, the search that goes on
/// from the checkpoint of the runs before, none of which accepted a
/// boundary, gives on the buffer what the search from its start gives.
pub proof fn lemma_incremental_scan(
    s: Seq<u8>,
    lens: Seq<int>,
    k: int,
    min_size: int,
    avg_size: int,
    max_size: int,
    m: Masks,
)
    requires
        0 <= min_size <= max_size,
        0 <= k <= lens.len(),
        forall|i: int| 0 <= i < k ==> min_size <= #[trigger] lens[i] <= s.len(),
        forall|i: int, j: int| 0 <= i <= j < k ==> lens[i] <= lens[j],
        all_missed(s, lens, k, min_size, avg_size, max_size, m),
    ensures
        ({
            let at = checkpoint_through(s, lens, k, min_size, avg_size, max_size, m);
            &&& checkpoint_ok(s, at.0, at.1, min_size, avg_size, max_size, m)
            &&& k > 0 ==> checkpoint_ok(
                s.take(lens[k - 1]),
                at.0,
                at.1,
                min_size,
                avg_size,
                max_size,
                m,
            )
            &&& cut_from(s, at.0, at.1, min_size, avg_size, max_size, m) == cut_point(
                s,
                min_size,
                avg_size,
                max_size,
                m,
            )
        }),
    decreases k,
{
    let at = checkpoint_through(s, lens, k, min_size, avg_size, max_size, m);
    if k > 0 {
        let len = lens[k - 1];
        let before = checkpoint_through(s, lens, k - 1, min_size, avg_size, max_size, m);
        assert(all_missed(s, lens, k - 1, min_size, avg_size, max_size, m));
        lemma_incremental_scan(s, lens, k - 1, min_size, avg_size, max_size, m);
        let prefix = s.take(len);
        if k > 1 {
            let shorter = s.take(lens[k - 2]);
            assert(lens[k - 2] <= lens[k - 1]);
            assert(shorter.is_prefix_of(prefix));
            lemma_checkpoint_extends(
                shorter,
                prefix,
                before.0,
                before.1,
                min_size,
                avg_size,
                max_size,
                m,
            );
        }
        assert(prefix.is_prefix_of(s));
        assert(prefix.is_prefix_of(prefix));
        lemma_checkpoint_carries(prefix, s, before.0, before.1, min_size, avg_size, max_size, m);
        lemma_checkpoint_carries(
            prefix,
            prefix,
            before.0,
            before.1,
            min_size,
            avg_size,
            max_size,
            m,
        );
    }
    lemma_resume_is_restart(s, at.0, at.1, min_size, avg_size, max_size, m);
}

} // verus!

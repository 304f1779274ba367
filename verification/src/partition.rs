//! The chunk sequence of a stream, and what holds of it.
//!
//! The chunks of a stream are fixed by the stream and the configuration
//! alone: the first chunk ends where the cut-point search on the stream ends
//! it, and the others are the chunks of what follows. The drivers emit this
//! sequence however the source hands the bytes over.
use crate::chunk::ChunkView;
use crate::chunker::Config;
use crate::cut::{
    fires_at, first_tested, held_at, lemma_fires_plain, lemma_scan_hit, lemma_scan_miss,
    lemma_scan_range, pairs_end, plain_mask_at, scan_len, strict_at,
};
use crate::gear::{gear, gear_fold, gear_step};
use vstd::prelude::*;

verus! {

/// The first chunk of a stream `s` that starts at the absolute offset `base`.
pub open spec fn first_chunk(cfg: Config, s: Seq<u8>, base: nat) -> ChunkView {
    let (fp_hash, cut) = cfg.cut_point(s);
    ChunkView { fp_hash, data: s.take(cut), offset: base, length: cut as nat }
}

/// The chunks of a stream `s` that starts at the absolute offset `base`.
pub open spec fn chunks_from(cfg: Config, s: Seq<u8>, base: nat) -> Seq<ChunkView>
    decreases s.len(),
{
    let cut = cfg.cut_point(s).1;
    if 0 < cut <= s.len() {
        seq![first_chunk(cfg, s, base)] + chunks_from(cfg, s.skip(cut), base + cut as nat)
    } else {
        Seq::empty()
    }
}

/// The chunks of the stream `s`.
pub open spec fn chunks_of(cfg: Config, s: Seq<u8>) -> Seq<ChunkView> {
    chunks_from(cfg, s, 0)
}

/// The data of the chunks, one after the other.
pub open spec fn concat_data(chunks: Seq<ChunkView>) -> Seq<u8>
    decreases chunks.len(),
{
    if chunks.len() == 0 {
        Seq::empty()
    } else {
        chunks[0].data + concat_data(chunks.skip(1))
    }
}

/// The sum of the lengths of the chunks.
pub open spec fn total_length(chunks: Seq<ChunkView>) -> nat
    decreases chunks.len(),
{
    if chunks.len() == 0 {
        0
    } else {
        chunks[0].length + total_length(chunks.skip(1))
    }
}

/// The data of two runs of chunks, one after the other, is the data of the
/// first followed by the data of the second, and their lengths add up.
pub proof fn lemma_concat_add(a: Seq<ChunkView>, b: Seq<ChunkView>)
    ensures
        concat_data(a + b) == concat_data(a) + concat_data(b),
        total_length(a + b) == total_length(a) + total_length(b),
    decreases a.len(),
{
    if a.len() == 0 {
        assert(a + b == b);
        assert(concat_data(a) + concat_data(b) == concat_data(b));
    } else {
        lemma_concat_add(a.skip(1), b);
        assert((a + b).skip(1) == a.skip(1) + b);
        assert(a[0].data + (concat_data(a.skip(1)) + concat_data(b)) == (a[0].data + concat_data(
            a.skip(1),
        )) + concat_data(b));
    }
}

/// The first chunk of a stream that is not empty has at least one byte and at
/// most `max_size`, and no more than the stream holds. Where it does not take
/// the whole stream it has at least `min_size` bytes: the search tests no
/// byte before `min_size` but, where `min_size` is odd, the one just before
/// it, and there the hash is the gear word of that byte alone, which the
/// strict mask does not accept.
pub proof fn lemma_cut_point_bounds(cfg: Config, s: Seq<u8>)
    requires
        cfg.valid(),
        s.len() > 0,
    ensures
        1 <= cfg.cut_point(s).1 <= scan_len(s.len() as int, cfg.max_size as int),
        cfg.cut_point(s).1 < s.len() ==> cfg.cut_point(s).1 >= cfg.min_size,
        s.len() <= cfg.min_size ==> cfg.cut_point(s) == (0u64, s.len() as int),
{
    let n = scan_len(s.len() as int, cfg.max_size as int);
    let lo = first_tested(cfg.min_size as int);
    let avg = cfg.avg_size as int;
    if n > cfg.min_size {
        lemma_scan_range(s, lo, pairs_end(n), 0, avg, cfg.masks, n);
        if lo < cfg.min_size {
            let after = gear_step(0, s[lo]);
            let g = gear(s[lo]);
            cfg.lemma_valid_masks();
            assert(after == g) by {
                assert(0u64 << 1 == 0u64) by (bit_vector);
            }
            lemma_fires_plain(lo, after, avg, cfg.masks);
            assert(strict_at(lo, avg));
            assert(!fires_at(lo, after, avg, cfg.masks));
            lemma_scan_range(s, lo + 1, pairs_end(n), after, avg, cfg.masks, n);
        }
    }
}

/// An empty stream has no chunks.
pub proof fn lemma_chunks_of_empty(cfg: Config, base: nat)
    ensures
        chunks_from(cfg, Seq::<u8>::empty(), base) == Seq::<ChunkView>::empty(),
{
}

/// A stream that is not empty has its first chunk, and then the chunks of
/// the rest.
pub proof fn lemma_chunks_from_unfold(cfg: Config, s: Seq<u8>, base: nat)
    requires
        cfg.valid(),
        s.len() > 0,
    ensures
        chunks_from(cfg, s, base) == seq![first_chunk(cfg, s, base)] + chunks_from(
            cfg,
            s.skip(cfg.cut_point(s).1),
            base + cfg.cut_point(s).1 as nat,
        ),
        chunks_from(cfg, s, base).len() >= 1,
        chunks_from(cfg, s, base)[0] == first_chunk(cfg, s, base),
{
    lemma_cut_point_bounds(cfg, s);
}

/// Reconstruction: the data of the chunks of a stream, one after the other,
/// is the stream.
pub proof fn lemma_reconstruction(cfg: Config, s: Seq<u8>, base: nat)
    requires
        cfg.valid(),
    ensures
        concat_data(chunks_from(cfg, s, base)) == s,
    decreases s.len(),
{
    let chunks = chunks_from(cfg, s, base);
    if s.len() > 0 {
        lemma_chunks_from_unfold(cfg, s, base);
        let cut = cfg.cut_point(s).1;
        let rest = chunks_from(cfg, s.skip(cut), base + cut as nat);
        lemma_reconstruction(cfg, s.skip(cut), base + cut as nat);
        assert(chunks.skip(1) == rest);
        assert(s.take(cut) + s.skip(cut) == s);
    } else {
        assert(concat_data(chunks) == s);
    }
}

/// The lengths of the chunks of a stream add up to the length of the stream.
pub proof fn lemma_total_length(cfg: Config, s: Seq<u8>, base: nat)
    requires
        cfg.valid(),
    ensures
        total_length(chunks_from(cfg, s, base)) == s.len(),
    decreases s.len(),
{
    let chunks = chunks_from(cfg, s, base);
    if s.len() > 0 {
        lemma_chunks_from_unfold(cfg, s, base);
        let cut = cfg.cut_point(s).1;
        let rest = chunks_from(cfg, s.skip(cut), base + cut as nat);
        lemma_total_length(cfg, s.skip(cut), base + cut as nat);
        assert(chunks.skip(1) == rest);
    }
}

/// Offsets: the first chunk starts at `base`, each chunk starts where the one
/// before it ends, and the last one ends at the end of the stream. With
/// every chunk at least one byte long the offsets increase strictly.
pub proof fn lemma_offsets(cfg: Config, s: Seq<u8>, base: nat)
    requires
        cfg.valid(),
    ensures
        ({
            let chunks = chunks_from(cfg, s, base);
            &&& chunks.len() == 0 <==> s.len() == 0
            &&& chunks.len() > 0 ==> chunks[0].offset == base
            &&& chunks.len() > 0 ==> chunks.last().end() == base + s.len()
            &&& forall|i: int|
                0 <= i < chunks.len() - 1 ==> (#[trigger] chunks[i]).end() == chunks[i + 1].offset
            &&& forall|i: int|
                0 <= i < chunks.len() - 1 ==> (#[trigger] chunks[i]).offset < chunks[i + 1].offset
        }),
    decreases s.len(),
{
    let chunks = chunks_from(cfg, s, base);
    if s.len() > 0 {
        lemma_chunks_from_unfold(cfg, s, base);
        lemma_cut_point_bounds(cfg, s);
        let cut = cfg.cut_point(s).1;
        let rest = chunks_from(cfg, s.skip(cut), base + cut as nat);
        lemma_offsets(cfg, s.skip(cut), base + cut as nat);
        assert forall|i: int| 0 <= i < chunks.len() - 1 implies (#[trigger] chunks[i]).end()
            == chunks[i + 1].offset && chunks[i].offset < chunks[i + 1].offset by {
            if i > 0 {
                assert(chunks[i] == rest[i - 1]);
                assert(chunks[i + 1] == rest[i]);
            } else {
                assert(chunks[1] == rest[0]);
            }
        }
        if rest.len() > 0 {
            assert(chunks.last() == rest.last());
        }
    }
}

/// Length bounds: every chunk holds its own length in bytes, at least one
/// and at most `max_size`. Every chunk but the last has at least `min_size`
/// bytes.
pub proof fn lemma_lengths(cfg: Config, s: Seq<u8>, base: nat)
    requires
        cfg.valid(),
    ensures
        ({
            let chunks = chunks_from(cfg, s, base);
            &&& forall|i: int|
                0 <= i < chunks.len() ==> (#[trigger] chunks[i]).wf() && chunks[i].length
                    <= cfg.max_size
            &&& forall|i: int|
                0 <= i < chunks.len() - 1 ==> (#[trigger] chunks[i]).length >= cfg.min_size
        }),
    decreases s.len(),
{
    let chunks = chunks_from(cfg, s, base);
    if s.len() > 0 {
        lemma_chunks_from_unfold(cfg, s, base);
        lemma_cut_point_bounds(cfg, s);
        let cut = cfg.cut_point(s).1;
        let rest = chunks_from(cfg, s.skip(cut), base + cut as nat);
        lemma_lengths(cfg, s.skip(cut), base + cut as nat);
        lemma_offsets(cfg, s.skip(cut), base + cut as nat);
        assert forall|i: int| 0 <= i < chunks.len() implies (#[trigger] chunks[i]).wf()
            && chunks[i].length <= cfg.max_size by {
            if i > 0 {
                assert(chunks[i] == rest[i - 1]);
            }
        }
        assert forall|i: int| 0 <= i < chunks.len() - 1 implies (#[trigger] chunks[i]).length
            >= cfg.min_size by {
            if i > 0 {
                assert(chunks[i] == rest[i - 1]);
            }
        }
    }
}

/// Whether the hash of the bytes of `s` from the first tested position up to
/// and including `c` has no bit in common with the mask in force at `c`.
pub open spec fn boundary_at(cfg: Config, s: Seq<u8>, c: int) -> bool {
    (gear_fold(0, s, first_tested(cfg.min_size as int), c + 1) & plain_mask_at(
        c,
        cfg.avg_size as int,
        cfg.masks,
    )) == 0
}

/// The first chunk of a stream of more than `min_size` bytes ends at the
/// first boundary among the tested positions of the window, and its
/// fingerprint is what the search holds there. Where the window has no
/// boundary the chunk is the window, and its fingerprint is the hash of the
/// tested positions.
pub proof fn lemma_first_chunk_ends_at_first_boundary(cfg: Config, s: Seq<u8>)
    requires
        cfg.valid(),
        s.len() > cfg.min_size,
    ensures
        ({
            let (fp_hash, cut) = cfg.cut_point(s);
            let n = scan_len(s.len() as int, cfg.max_size as int);
            let lo = first_tested(cfg.min_size as int);
            let hi = pairs_end(n);
            &&& forall|c: int| lo <= c < hi && c < cut ==> !#[trigger] boundary_at(cfg, s, c)
            &&& cut < n ==> lo <= cut < hi && boundary_at(cfg, s, cut) && fp_hash == held_at(
                cut,
                gear_fold(0, s, lo, cut + 1),
            )
            &&& cut >= n ==> cut == n && fp_hash == gear_fold(0, s, lo, hi)
        }),
{
    let (fp_hash, cut) = cfg.cut_point(s);
    let n = scan_len(s.len() as int, cfg.max_size as int);
    let lo = first_tested(cfg.min_size as int);
    let hi = pairs_end(n);
    let avg = cfg.avg_size as int;
    cfg.lemma_valid_masks();
    lemma_scan_range(s, lo, hi, 0, avg, cfg.masks, n);
    if cut == n {
        lemma_scan_miss(s, lo, hi, 0, avg, cfg.masks, n);
    } else {
        lemma_scan_hit(s, lo, hi, 0, avg, cfg.masks, n);
    }
    assert forall|c: int| lo <= c < hi && c < cut implies !#[trigger] boundary_at(cfg, s, c) by {
        let h = gear_fold(0, s, lo, c + 1);
        assert(!fires_at(c, h, avg, cfg.masks));
        lemma_fires_plain(c, h, avg, cfg.masks);
    }
    if cut < n {
        lemma_fires_plain(cut, gear_fold(0, s, lo, cut + 1), avg, cfg.masks);
    }
}

/// The chunks of a stream do not depend on where the stream starts, but for
/// their offsets.
pub proof fn lemma_chunks_shift(cfg: Config, s: Seq<u8>, base: nat, other: nat)
    requires
        cfg.valid(),
    ensures
        ({
            let a = chunks_from(cfg, s, base);
            let b = chunks_from(cfg, s, other);
            &&& a.len() == b.len()
            &&& forall|i: int|
                0 <= i < a.len() ==> {
                    &&& (#[trigger] b[i]).fp_hash == a[i].fp_hash
                    &&& b[i].data == a[i].data
                    &&& b[i].length == a[i].length
                    &&& b[i].offset - other == a[i].offset - base
                }
        }),
    decreases s.len(),
{
    let a = chunks_from(cfg, s, base);
    let b = chunks_from(cfg, s, other);
    if s.len() > 0 {
        lemma_chunks_from_unfold(cfg, s, base);
        lemma_chunks_from_unfold(cfg, s, other);
        let cut = cfg.cut_point(s).1;
        let ra = chunks_from(cfg, s.skip(cut), base + cut as nat);
        let rb = chunks_from(cfg, s.skip(cut), other + cut as nat);
        lemma_chunks_shift(cfg, s.skip(cut), base + cut as nat, other + cut as nat);
        assert forall|i: int| 0 <= i < a.len() implies {
            &&& (#[trigger] b[i]).fp_hash == a[i].fp_hash
            &&& b[i].data == a[i].data
            &&& b[i].length == a[i].length
            &&& b[i].offset - other == a[i].offset - base
        } by {
            if i > 0 {
                assert(a[i] == ra[i - 1]);
                assert(b[i] == rb[i - 1]);
            }
        }
    }
}

/// The chunks behind a boundary are the chunks of the bytes behind it: no
/// byte before the boundary has a part in them.
pub proof fn lemma_chunks_behind_boundary(cfg: Config, s: Seq<u8>, base: nat, k: int)
    requires
        cfg.valid(),
        0 <= k < chunks_from(cfg, s, base).len(),
    ensures
        ({
            let chunks = chunks_from(cfg, s, base);
            let end = chunks[k].end();
            &&& base <= end <= base + s.len()
            &&& chunks.skip(k + 1) == chunks_from(cfg, s.skip(end - base), end)
        }),
    decreases k,
{
    let chunks = chunks_from(cfg, s, base);
    lemma_offsets(cfg, s, base);
    lemma_chunks_from_unfold(cfg, s, base);
    lemma_cut_point_bounds(cfg, s);
    let cut = cfg.cut_point(s).1;
    let rest = chunks_from(cfg, s.skip(cut), base + cut as nat);
    assert(chunks.skip(1) == rest);
    if k > 0 {
        lemma_chunks_behind_boundary(cfg, s.skip(cut), base + cut as nat, k - 1);
        let end = chunks[k].end();
        assert(chunks[k] == rest[k - 1]);
        assert(chunks.skip(k + 1) == rest.skip(k));
        assert(s.skip(cut).skip(end - (base + cut)) == s.skip(end - base));
    }
}

/// Locality: where a boundary of one stream and a boundary of another have
/// the same bytes behind them, the chunks that follow are the same in both,
/// but for their offsets. An edit thus changes no chunk behind the first
/// boundary that the edited stream has in common with the stream before.
pub proof fn lemma_chunks_realign(cfg: Config, a: Seq<u8>, b: Seq<u8>, ka: int, kb: int)
    requires
        cfg.valid(),
        0 <= ka < chunks_of(cfg, a).len(),
        0 <= kb < chunks_of(cfg, b).len(),
        a.skip(chunks_of(cfg, a)[ka].end() as int) == b.skip(chunks_of(cfg, b)[kb].end() as int),
    ensures
        ({
            let ca = chunks_of(cfg, a);
            let cb = chunks_of(cfg, b);
            &&& ca.len() - ka == cb.len() - kb
            &&& forall|i: int|
                1 <= i < ca.len() - ka ==> {
                    &&& (#[trigger] cb[kb + i]).fp_hash == ca[ka + i].fp_hash
                    &&& cb[kb + i].data == ca[ka + i].data
                    &&& cb[kb + i].length == ca[ka + i].length
                    &&& cb[kb + i].offset - cb[kb].end() == ca[ka + i].offset - ca[ka].end()
                }
        }),
{
    let ca = chunks_of(cfg, a);
    let cb = chunks_of(cfg, b);
    let ea = ca[ka].end();
    let eb = cb[kb].end();
    lemma_chunks_behind_boundary(cfg, a, 0, ka);
    lemma_chunks_behind_boundary(cfg, b, 0, kb);
    let tail = a.skip(ea as int);
    lemma_chunks_shift(cfg, tail, ea, eb);
    let ta = chunks_from(cfg, tail, ea);
    let tb = chunks_from(cfg, tail, eb);
    assert(ca.skip(ka + 1) == ta);
    assert(cb.skip(kb + 1) == tb);
    assert(ca.skip(ka + 1).len() == ca.len() - ka - 1);
    assert(cb.skip(kb + 1).len() == cb.len() - kb - 1);
    assert forall|i: int| 1 <= i < ca.len() - ka implies {
        &&& (#[trigger] cb[kb + i]).fp_hash == ca[ka + i].fp_hash
        &&& cb[kb + i].data == ca[ka + i].data
        &&& cb[kb + i].length == ca[ka + i].length
        &&& cb[kb + i].offset - cb[kb].end() == ca[ka + i].offset - ca[ka].end()
    } by {
        assert(ca[ka + i] == ca.skip(ka + 1)[i - 1]);
        assert(cb[kb + i] == cb.skip(kb + 1)[i - 1]);
        assert(ca[ka + i] == ta[i - 1]);
        assert(cb[kb + i] == tb[i - 1]);
    }
}

} // verus!

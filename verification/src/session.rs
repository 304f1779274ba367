//! A chunking session as plain values, and what holds of every session.
//!
//! A driver takes the bytes of a stream piece by piece, as its source hands
//! them over, and emits chunks as soon as they are settled. A session records
//! what has come in, what has gone out and what is still buffered. However
//! the source cuts the stream into pieces, what has gone out is a prefix of
//! the chunk sequence of the stream, and all of it once the stream has ended
//! and the buffer is empty.
use crate::chunk::{Chunk, ChunkView};
use crate::chunker::Config;
use crate::cut::{lemma_cut_from_extend, lemma_cut_from_window};
use crate::partition::{
    chunks_from, chunks_of, concat_data, first_chunk, lemma_concat_add, lemma_cut_point_bounds,
    lemma_reconstruction, lemma_total_length, total_length,
};
use vstd::prelude::*;

verus! {

/// What a driver does next.
#[derive(Debug)]
pub enum Step {
    /// The source is to be asked for at most this many bytes, at least one.
    Read(usize),
    /// The next chunk.
    Emit(Chunk),
    /// The stream has ended and every chunk has been emitted.
    Done,
}

/// The state of a chunking session.
pub struct Session {
    /// The configuration of the chunker.
    pub config: Config,
    /// Every byte that the source has handed over so far.
    pub input: Seq<u8>,
    /// Whether the source has reported the end of the stream.
    pub ended: bool,
    /// How many bytes have left in chunks.
    pub processed: nat,
    /// The bytes that wait in the buffer.
    pub pending: Seq<u8>,
    /// The chunks emitted so far.
    pub emitted: Seq<ChunkView>,
}

/// Whether `whole` may be the stream of which `input` has come in so far.
pub open spec fn completes(input: Seq<u8>, ended: bool, whole: Seq<u8>) -> bool {
    input.is_prefix_of(whole) && (ended ==> whole == input)
}

impl Session {
    /// The session before any byte has come in.
    pub open spec fn start(config: Config) -> Session {
        Session {
            config,
            input: Seq::empty(),
            ended: false,
            processed: 0,
            pending: Seq::empty(),
            emitted: Seq::empty(),
        }
    }

    /// Whatever the stream turns out to be, its chunk sequence begins with
    /// the chunks emitted and goes on with the chunks of what has not left
    /// yet.
    pub open spec fn coherent(self) -> bool {
        forall|whole: Seq<u8>| #[trigger]
            completes(self.input, self.ended, whole) ==> chunks_of(self.config, whole)
                == self.emitted + chunks_from(
                self.config,
                whole.skip(self.processed as int),
                self.processed,
            )
    }

    /// The buffer holds what has come in and not left, never more than
    /// `max_size` bytes, and the chunks emitted are those of the stream.
    pub open spec fn wf(self) -> bool {
        &&& self.config.valid()
        &&& self.processed + self.pending.len() == self.input.len()
        &&& self.pending == self.input.skip(self.processed as int)
        &&& self.pending.len() <= self.config.max_size
        &&& self.input.len() <= u64::MAX
        &&& self.coherent()
    }

    /// The stream has ended and nothing is left in the buffer.
    pub open spec fn finished(self) -> bool {
        self.ended && self.pending.len() == 0
    }

    /// Whether the first chunk of the buffer is settled: no byte that may
    /// still come in can change it. That is so once the stream has ended,
    /// once the buffer holds `max_size` bytes, and where a boundary was
    /// accepted before the end of the buffer.
    pub open spec fn settled(self) -> bool {
        &&& self.pending.len() > 0
        &&& self.ended || self.pending.len() >= self.config.max_size || self.config.cut_point(
            self.pending,
        ).1 < self.pending.len()
    }

    /// The chunk that is emitted next, once it is settled.
    pub open spec fn next_chunk(self) -> ChunkView {
        first_chunk(self.config, self.pending, self.processed)
    }

    /// The session after the source has handed over `data`.
    pub open spec fn fed(self, data: Seq<u8>) -> Session {
        Session { input: self.input + data, pending: self.pending + data, ..self }
    }

    /// The session after the source has reported the end of the stream.
    pub open spec fn closed(self) -> Session {
        Session { ended: true, ..self }
    }

    /// The session after the next chunk has been emitted.
    pub open spec fn emitting(self) -> Session {
        let chunk = self.next_chunk();
        Session {
            processed: self.processed + chunk.length,
            pending: self.pending.skip(chunk.length as int),
            emitted: self.emitted.push(chunk),
            ..self
        }
    }

    /// A session starts well formed.
    pub proof fn lemma_start_wf(config: Config)
        requires
            config.valid(),
        ensures
            Session::start(config).wf(),
    {
        let s = Session::start(config);
        assert(s.pending == s.input.skip(0));
        assert forall|whole: Seq<u8>| #[trigger] completes(s.input, s.ended, whole) implies chunks_of(
            s.config,
            whole,
        ) == s.emitted + chunks_from(s.config, whole.skip(0), 0) by {
            assert(whole.skip(0) == whole);
            assert(s.emitted + chunks_of(s.config, whole) == chunks_of(s.config, whole));
        }
    }

    /// Taking bytes in keeps a session well formed.
    pub proof fn lemma_fed_wf(self, data: Seq<u8>)
        requires
            self.wf(),
            !self.ended,
            self.pending.len() + data.len() <= self.config.max_size,
            self.input.len() + data.len() <= u64::MAX,
        ensures
            self.fed(data).wf(),
    {
        let next = self.fed(data);
        assert(next.pending == next.input.skip(next.processed as int));
        assert forall|whole: Seq<u8>| #[trigger]
            completes(next.input, next.ended, whole) implies chunks_of(next.config, whole)
            == next.emitted + chunks_from(
            next.config,
            whole.skip(next.processed as int),
            next.processed,
        ) by {
            assert(completes(self.input, self.ended, whole));
        }
    }

    /// The end of the stream keeps a session well formed.
    pub proof fn lemma_closed_wf(self)
        requires
            self.wf(),
        ensures
            self.closed().wf(),
    {
        let next = self.closed();
        assert forall|whole: Seq<u8>| #[trigger]
            completes(next.input, next.ended, whole) implies chunks_of(next.config, whole)
            == next.emitted + chunks_from(
            next.config,
            whole.skip(next.processed as int),
            next.processed,
        ) by {
            assert(completes(self.input, self.ended, whole));
        }
    }

    /// A settled first chunk of the buffer is the first chunk of whatever
    /// follows the bytes that have left, however the stream goes on.
    pub proof fn lemma_settled_cut(self, whole: Seq<u8>)
        requires
            self.wf(),
            self.settled(),
            completes(self.input, self.ended, whole),
        ensures
            self.config.cut_point(whole.skip(self.processed as int)) == self.config.cut_point(
                self.pending,
            ),
            first_chunk(self.config, whole.skip(self.processed as int), self.processed)
                == self.next_chunk(),
    {
        let cfg = self.config;
        let rest = whole.skip(self.processed as int);
        lemma_cut_point_bounds(cfg, self.pending);
        assert(self.pending.is_prefix_of(rest));
        let cut = cfg.cut_point(self.pending).1;
        if self.ended {
            assert(rest == self.pending);
        } else if self.pending.len() >= cfg.max_size {
            lemma_cut_from_window(
                self.pending,
                rest,
                0,
                0,
                cfg.min_size as int,
                cfg.avg_size as int,
                cfg.max_size as int,
                cfg.masks,
            );
        } else {
            lemma_cut_from_extend(
                self.pending,
                rest,
                0,
                0,
                cfg.min_size as int,
                cfg.avg_size as int,
                cfg.max_size as int,
                cfg.masks,
            );
        }
        assert(rest.take(cut) == self.pending.take(cut));
    }

    /// Emitting a settled chunk keeps a session well formed.
    pub proof fn lemma_emitting_wf(self)
        requires
            self.wf(),
            self.settled(),
        ensures
            self.emitting().wf(),
            self.next_chunk().wf(),
            self.next_chunk().length <= self.pending.len(),
            self.next_chunk().length <= self.config.max_size,
    {
        let cfg = self.config;
        let next = self.emitting();
        let chunk = self.next_chunk();
        let cut = cfg.cut_point(self.pending).1;
        lemma_cut_point_bounds(cfg, self.pending);
        assert(next.pending == next.input.skip(next.processed as int));
        assert forall|whole: Seq<u8>| #[trigger]
            completes(next.input, next.ended, whole) implies chunks_of(next.config, whole)
            == next.emitted + chunks_from(
            next.config,
            whole.skip(next.processed as int),
            next.processed,
        ) by {
            assert(completes(self.input, self.ended, whole));
            let rest = whole.skip(self.processed as int);
            self.lemma_settled_cut(whole);
            assert(rest.len() > 0);
            assert(rest.skip(cut) == whole.skip(next.processed as int));
            let tail = chunks_from(cfg, rest.skip(cut), next.processed);
            assert(chunks_from(cfg, rest, self.processed) == seq![chunk] + tail);
            assert(self.emitted + (seq![chunk] + tail) == self.emitted.push(chunk) + tail);
        }
    }

    /// At every moment the data of the chunks emitted is what has come in and
    /// left the buffer, and their lengths add up to the number of bytes
    /// processed.
    pub proof fn lemma_emitted_so_far(self)
        requires
            self.wf(),
        ensures
            concat_data(self.emitted) == self.input.take(self.processed as int),
            total_length(self.emitted) == self.processed,
    {
        let cfg = self.config;
        assert(completes(self.input, self.ended, self.input));
        let tail = chunks_from(cfg, self.pending, self.processed);
        assert(chunks_of(cfg, self.input) == self.emitted + tail);
        lemma_concat_add(self.emitted, tail);
        lemma_reconstruction(cfg, self.input, 0);
        lemma_reconstruction(cfg, self.pending, self.processed);
        lemma_total_length(cfg, self.input, 0);
        lemma_total_length(cfg, self.pending, self.processed);
        let done = concat_data(self.emitted);
        assert(done + self.pending == self.input);
        assert(done.len() + self.pending.len() == self.input.len());
        assert(done == self.input.take(self.processed as int)) by {
            assert forall|i: int| 0 <= i < done.len() implies done[i] == self.input[i] by {
                assert((done + self.pending)[i] == done[i]);
            }
        }
    }

    /// Once the stream has ended and the buffer is empty, the chunks emitted
    /// are the chunks of the stream.
    pub proof fn lemma_finished(self)
        requires
            self.wf(),
            self.finished(),
        ensures
            self.emitted == chunks_of(self.config, self.input),
    {
        assert(completes(self.input, self.ended, self.input));
        assert(self.input.skip(self.processed as int).len() == 0);
        assert(self.emitted + Seq::<ChunkView>::empty() == self.emitted);
    }

    /// At every moment the chunks emitted are the first chunks of the stream,
    /// whatever it turns out to be.
    pub proof fn lemma_emitted_prefix(self, whole: Seq<u8>)
        requires
            self.wf(),
            completes(self.input, self.ended, whole),
        ensures
            self.emitted.is_prefix_of(chunks_of(self.config, whole)),
    {
        let tail = chunks_from(self.config, whole.skip(self.processed as int), self.processed);
        assert(chunks_of(self.config, whole) == self.emitted + tail);
        assert((self.emitted + tail).subrange(0, self.emitted.len() as int) == self.emitted);
    }

    /// Driver equivalence: two sessions under one configuration that have
    /// taken in the same stream to its end, in whatever pieces, and have
    /// emptied their buffers, have emitted the same chunks.
    pub proof fn lemma_sessions_agree(self, other: Session)
        requires
            self.wf(),
            other.wf(),
            self.config == other.config,
            self.input == other.input,
            self.finished(),
            other.finished(),
        ensures
            self.emitted == other.emitted,
    {
        self.lemma_finished();
        other.lemma_finished();
    }
}

} // verus!

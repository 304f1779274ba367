//! The driver for sources that may not be ready.
//!
//! This driver looks for a boundary as soon as the buffer holds `min_size`
//! bytes, and emits a chunk as soon as one is settled. So that a buffer that
//! grows piece by piece is not searched from its start each time, the driver
//! keeps a checkpoint: how far the search has come, and the hash it had
//! there. It does not read by itself: [`FastCDCStream::advance`] says what is
//! to happen next, and the caller hands over what the source gave.
use crate::buffer::buffered;
use crate::chunk::{Chunk, ChunkView};
use crate::chunker::FastCDC;
use crate::resume::{
    checkpoint_ok, lemma_checkpoint_carries, lemma_checkpoint_extends, lemma_resume_is_restart,
};
use crate::partition::{chunks_of, lemma_cut_point_bounds};
use crate::session::{Session, Step};
use bytes::BytesMut;
use vstd::prelude::*;

verus! {

/// The least number of bytes that the source is asked for while the buffer
/// has room for them.
pub const READ_SIZE_MIN: usize = 4096;

/// How many bytes the source is asked for when the buffer holds `buffered`
/// bytes: `min_size` or 4096, whichever is more, but no more than the room
/// that is left up to `max_size`.
pub open spec fn read_size(min_size: usize, max_size: usize, buffered: int) -> int {
    let wanted = if min_size < READ_SIZE_MIN {
        READ_SIZE_MIN as int
    } else {
        min_size as int
    };
    if wanted < max_size - buffered {
        wanted
    } else {
        max_size - buffered
    }
}

/// The state of a chunking session on a source that may not be ready.
pub struct FastCDCStream<'a> {
    chunker: &'a FastCDC,
    buf: BytesMut,
    processed: u64,
    eof: bool,
    scanned: usize,
    fp_hash: u64,
    input: Ghost<Seq<u8>>,
    emitted: Ghost<Seq<ChunkView>>,
}

impl<'a> View for FastCDCStream<'a> {
    type V = Session;

    closed spec fn view(&self) -> Session {
        Session {
            config: self.chunker@,
            input: self.input@,
            ended: self.eof,
            processed: self.processed as nat,
            pending: buffered(self.buf),
            emitted: self.emitted@,
        }
    }
}

impl FastCDC {
    /// Starts a chunking session on a source that may not be ready.
    pub fn as_stream(&self) -> (stream: FastCDCStream<'_>)
        ensures
            stream@ == Session::start(self@),
            stream.wf(),
    {
        let max_size = self.max_size();
        proof {
            Session::lemma_start_wf(self@);
        }
        FastCDCStream {
            chunker: self,
            buf: BytesMut::with_capacity(max_size),
            processed: 0,
            eof: false,
            scanned: 0,
            fp_hash: 0,
            input: Ghost(Seq::empty()),
            emitted: Ghost(Seq::empty()),
        }
    }
}

impl<'a> FastCDCStream<'a> {
    /// How far the search in the buffer has come.
    pub closed spec fn scanned(&self) -> usize {
        self.scanned
    }

    /// The hash that the search had where it stopped.
    pub closed spec fn carried(&self) -> u64 {
        self.fp_hash
    }

    /// The session is well formed, and the search may go on at the
    /// checkpoint.
    pub open spec fn wf(&self) -> bool {
        &&& self@.wf()
        &&& checkpoint_ok(
            self@.pending,
            self.scanned() as int,
            self.carried(),
            self@.config.min_size as int,
            self@.config.avg_size as int,
            self@.config.max_size as int,
            self@.config.masks,
        )
    }

    /// The absolute offset of the next chunk: the number of bytes that have
    /// left in chunks.
    pub fn processed(&self) -> (n: u64)
        ensures
            n == self@.processed,
    {
        self.processed
    }

    /// The number of bytes that wait in the buffer.
    pub fn buffered_len(&self) -> (n: usize)
        ensures
            n == self@.pending.len(),
    {
        self.buf.len()
    }

    /// Takes in bytes that the source has handed over. The source is asked
    /// for no more than [`FastCDCStream::advance`] said, and a stream has at
    /// most `u64::MAX` bytes.
    pub fn feed(&mut self, data: &[u8])
        requires
            old(self).wf(),
            !old(self)@.ended,
            old(self)@.pending.len() + data@.len() <= old(self)@.config.max_size,
            old(self)@.input.len() + data@.len() <= u64::MAX,
        ensures
            final(self)@ == old(self)@.fed(data@),
            final(self).wf(),
    {
        proof {
            let cfg = self@.config;
            self@.lemma_fed_wf(data@);
            lemma_checkpoint_extends(
                self@.pending,
                self@.pending + data@,
                self.scanned as int,
                self.fp_hash,
                cfg.min_size as int,
                cfg.avg_size as int,
                cfg.max_size as int,
                cfg.masks,
            );
        }
        self.buf.extend_from_slice(data);
        self.input = Ghost(self.input@ + data@);
    }

    /// Takes note that the source has reported the end of the stream.
    pub fn close(&mut self)
        requires
            old(self).wf(),
        ensures
            final(self)@ == old(self)@.closed(),
            final(self).wf(),
    {
        proof {
            self@.lemma_closed_wf();
        }
        self.eof = true;
    }

    /// Splits the first `cutpoint` bytes off the buffer as the next chunk and
    /// forgets the checkpoint.
    fn yield_chunk(&mut self, cutpoint: usize, fp_hash: u64) -> (chunk: Chunk)
        requires
            old(self)@.wf(),
            old(self)@.settled(),
            (fp_hash, cutpoint as int) == old(self)@.config.cut_point(old(self)@.pending),
        ensures
            chunk@ == old(self)@.next_chunk(),
            final(self)@ == old(self)@.emitting(),
            final(self).wf(),
    {
        proof {
            self@.lemma_emitting_wf();
        }
        let data = self.buf.split_to(cutpoint).freeze();
        let chunk = Chunk { fp_hash, data, offset: self.processed, length: cutpoint };

        self.processed += cutpoint as u64;
        self.scanned = 0;
        self.fp_hash = 0;
        self.emitted = Ghost(self.emitted@.push(chunk@));

        chunk
    }

    /// Says what happens next, and emits the next chunk where it is settled.
    ///
    /// A chunk is settled, and emitted, where a boundary was accepted in the
    /// buffer, where the buffer holds `max_size` bytes, and where the stream
    /// has ended with bytes left. Otherwise the source is to be read. A read
    /// that fails or is not ready changes nothing: the caller may call
    /// again.
    pub fn advance(&mut self) -> (step: Step)
        requires
            old(self).wf(),
        ensures
            final(self).wf(),
            match step {
                Step::Done => {
                    &&& old(self)@.finished()
                    &&& final(self)@ == old(self)@
                    &&& final(self)@.emitted == chunks_of(old(self)@.config, old(self)@.input)
                },
                Step::Read(n) => {
                    &&& !old(self)@.finished()
                    &&& !old(self)@.settled()
                    &&& n == read_size(
                        old(self)@.config.min_size,
                        old(self)@.config.max_size,
                        old(self)@.pending.len() as int,
                    )
                    &&& 1 <= n <= old(self)@.config.max_size - old(self)@.pending.len()
                    &&& final(self)@ == old(self)@
                },
                Step::Emit(chunk) => {
                    &&& old(self)@.settled()
                    &&& chunk@ == old(self)@.next_chunk()
                    &&& chunk@.wf()
                    &&& chunk@.length <= old(self)@.config.max_size
                    &&& final(self)@ == old(self)@.emitting()
                },
            },
    {
        let min_size = self.chunker.min_size();
        let max_size = self.chunker.max_size();
        let buf_len = self.buf.len();
        let ghost cfg = self@.config;
        let ghost pending = self@.pending;

        if self.eof && buf_len == 0 {
            proof {
                self@.lemma_finished();
            }
            return Step::Done;
        }
        proof {
            if pending.len() > 0 {
                lemma_cut_point_bounds(cfg, pending);
            }
        }
        if buf_len >= min_size || self.eof {
            let scan_len = if buf_len < max_size {
                buf_len
            } else {
                max_size
            };

            let source: &[u8] = self.buf.as_ref();
            let (new_fp_hash, found_cutpoint) = self.chunker.find_cutpoint_from(
                source,
                self.scanned,
                self.fp_hash,
            );
            proof {
                lemma_resume_is_restart(
                    pending,
                    self.scanned as int,
                    self.fp_hash,
                    cfg.min_size as int,
                    cfg.avg_size as int,
                    cfg.max_size as int,
                    cfg.masks,
                );
            }

            if found_cutpoint < scan_len {
                let chunk = self.yield_chunk(found_cutpoint, new_fp_hash);
                return Step::Emit(chunk);
            } else if buf_len >= max_size {
                let chunk = self.yield_chunk(max_size, new_fp_hash);
                return Step::Emit(chunk);
            } else if self.eof {
                let chunk = self.yield_chunk(scan_len, new_fp_hash);
                return Step::Emit(chunk);
            } else {
                proof {
                    lemma_checkpoint_carries(
                        pending,
                        pending,
                        self.scanned as int,
                        self.fp_hash,
                        cfg.min_size as int,
                        cfg.avg_size as int,
                        cfg.max_size as int,
                        cfg.masks,
                    );
                }
                let aligned = (scan_len / 2) * 2;
                self.scanned = if aligned < min_size {
                    min_size
                } else {
                    aligned
                };
                self.fp_hash = new_fp_hash;
            }
        }
        let wanted = if min_size < READ_SIZE_MIN {
            READ_SIZE_MIN
        } else {
            min_size
        };
        let room = max_size - buf_len;
        let read_size = if wanted < room {
            wanted
        } else {
            room
        };
        Step::Read(read_size)
    }
}

} // verus!

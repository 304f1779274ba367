//! The blocking driver.
//!
//! The driver fills its buffer to `max_size` bytes, or to the end of the
//! stream, before it looks for a boundary, and so searches every chunk once
//! from its start. It does not read by itself: [`FastCDCIter::advance`] says
//! what is to happen next, and the caller hands over what the source gave.
use crate::buffer::buffered;
use crate::chunk::{Chunk, ChunkView};
use crate::chunker::FastCDC;
use crate::cut::find_cutpoint;
use crate::partition::chunks_of;
use crate::session::{Session, Step};
use bytes::BytesMut;
use vstd::prelude::*;

verus! {

/// The state of a blocking chunking session.
pub struct FastCDCIter<'a> {
    chunker: &'a FastCDC,
    buf: BytesMut,
    processed: u64,
    eof: bool,
    input: Ghost<Seq<u8>>,
    emitted: Ghost<Seq<ChunkView>>,
}

impl<'a> View for FastCDCIter<'a> {
    type V = Session;

    closed spec fn view(&self) -> Session {
        Session {
            config: self.chunker@,
            input: self.input@,
            ended: self.eof,
            processed: self.processed as nat,
            pending: buffered(self.buf),
            emitted: self.emitted@,
        }
    }
}

impl FastCDC {
    /// Starts a blocking chunking session.
    pub fn chunks(&self) -> (iter: FastCDCIter<'_>)
        ensures
            iter@ == Session::start(self@),
            iter@.wf(),
    {
        let max_size = self.max_size();
        proof {
            Session::lemma_start_wf(self@);
        }
        FastCDCIter {
            chunker: self,
            buf: BytesMut::with_capacity(max_size),
            processed: 0,
            eof: false,
            input: Ghost(Seq::empty()),
            emitted: Ghost(Seq::empty()),
        }
    }
}

impl<'a> FastCDCIter<'a> {
    /// The absolute offset of the next chunk: the number of bytes that have
    /// left in chunks.
    pub fn processed(&self) -> (n: u64)
        ensures
            n == self@.processed,
    {
        self.processed
    }

    /// The number of bytes that wait in the buffer.
    pub fn buffered_len(&self) -> (n: usize)
        ensures
            n == self@.pending.len(),
    {
        self.buf.len()
    }

    /// Takes in bytes that the source has handed over. The source is asked
    /// for no more than [`FastCDCIter::advance`] said, and a stream has at
    /// most `u64::MAX` bytes.
    pub fn feed(&mut self, data: &[u8])
        requires
            old(self)@.wf(),
            !old(self)@.ended,
            old(self)@.pending.len() + data@.len() <= old(self)@.config.max_size,
            old(self)@.input.len() + data@.len() <= u64::MAX,
        ensures
            final(self)@ == old(self)@.fed(data@),
            final(self)@.wf(),
    {
        proof {
            self@.lemma_fed_wf(data@);
        }
        self.buf.extend_from_slice(data);
        self.input = Ghost(self.input@ + data@);
    }

    /// Takes note that the source has reported the end of the stream.
    pub fn close(&mut self)
        requires
            old(self)@.wf(),
        ensures
            final(self)@ == old(self)@.closed(),
            final(self)@.wf(),
    {
        proof {
            self@.lemma_closed_wf();
        }
        self.eof = true;
    }

    /// Says what happens next, and emits the next chunk where it is settled.
    ///
    /// Before the end of the stream the source is read until the buffer
    /// holds `max_size` bytes. A full buffer, and after the end of the stream
    /// one that is not empty, gives up its first chunk. A read that fails
    /// changes nothing: the caller may call again.
    pub fn advance(&mut self) -> (step: Step)
        requires
            old(self)@.wf(),
        ensures
            final(self)@.wf(),
            match step {
                Step::Done => {
                    &&& old(self)@.finished()
                    &&& final(self)@ == old(self)@
                    &&& final(self)@.emitted == chunks_of(old(self)@.config, old(self)@.input)
                },
                Step::Read(n) => {
                    &&& !old(self)@.ended
                    &&& old(self)@.pending.len() < old(self)@.config.max_size
                    &&& n == old(self)@.config.max_size - old(self)@.pending.len()
                    &&& final(self)@ == old(self)@
                },
                Step::Emit(chunk) => {
                    &&& old(self)@.pending.len() > 0
                    &&& old(self)@.ended || old(self)@.pending.len() == old(self)@.config.max_size
                    &&& chunk@ == old(self)@.next_chunk()
                    &&& chunk@.wf()
                    &&& chunk@.length <= old(self)@.config.max_size
                    &&& final(self)@ == old(self)@.emitting()
                },
            },
    {
        let max_size = self.chunker.max_size();
        let buf_len = self.buf.len();
        if self.eof && buf_len == 0 {
            proof {
                self@.lemma_finished();
            }
            return Step::Done;
        }
        if !self.eof && buf_len < max_size {
            return Step::Read(max_size - buf_len);
        }
        let masks = self.chunker.masks();
        let source: &[u8] = self.buf.as_ref();
        let (fp_hash, cutpoint) = find_cutpoint(
            source,
            self.chunker.min_size(),
            self.chunker.avg_size(),
            max_size,
            masks.mask_s,
            masks.mask_s_ls,
            masks.mask_l,
            masks.mask_l_ls,
        );
        proof {
            self@.lemma_emitting_wf();
        }
        let data = self.buf.split_to(cutpoint).freeze();

        let chunk = Chunk { fp_hash, data, offset: self.processed, length: cutpoint };

        self.processed += cutpoint as u64;
        self.emitted = Ghost(self.emitted@.push(chunk@));

        Step::Emit(chunk)
    }
}

} // verus!

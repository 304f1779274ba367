//! The record that the chunker emits.
use crate::buffer::frozen;
use bytes::Bytes;
use vstd::prelude::*;

verus! {

/// A content-defined chunk.
#[derive(Debug)]
pub struct Chunk {
    /// The value that the cut-point search held where it ended the chunk, or
    /// 0 where it did not hash at all.
    pub fp_hash: u64,
    /// The bytes of the chunk.
    pub data: Bytes,
    /// The absolute offset of the chunk in the source stream.
    pub offset: u64,
    /// The length of the chunk in bytes.
    pub length: usize,
}

/// A chunk as plain values.
pub struct ChunkView {
    pub fp_hash: u64,
    pub data: Seq<u8>,
    pub offset: nat,
    pub length: nat,
}

impl View for Chunk {
    type V = ChunkView;

    open spec fn view(&self) -> ChunkView {
        ChunkView {
            fp_hash: self.fp_hash,
            data: frozen(self.data),
            offset: self.offset as nat,
            length: self.length as nat,
        }
    }
}

impl ChunkView {
    /// The length is that of the data, and the chunk is not empty.
    pub open spec fn wf(self) -> bool {
        self.length == self.data.len() && self.length >= 1
    }

    /// The offset just behind the chunk.
    pub open spec fn end(self) -> nat {
        self.offset + self.length
    }
}

} // verus!

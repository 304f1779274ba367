//! Content-defined chunking with the FastCDC algorithm, after "The Design of
//! Fast Content-Defined Chunking for Data Deduplication Based Storage
//! Systems" (Xia et al., IEEE TPDS 31(9), 2020).
//!
//! A stream is cut into chunks of variable length at positions that its own
//! bytes decide, so that an insertion or a deletion moves the boundaries near
//! it and no others. The chunker uses a gear-based rolling hash, skips the
//! first `min_size` bytes of each chunk, normalizes the chunk sizes with a
//! strict and a loose mask, and rolls two bytes at a time.
//!
//! The library does not read. A session, started with [`FastCDC::chunks`] or
//! [`FastCDC::as_stream`], is asked what happens next: on [`Step::Read`] the
//! caller reads from its source and hands over what it got with `feed`, or
//! `close`s the session at the end of the stream; on [`Step::Emit`] it has
//! the next chunk; on [`Step::Done`] every chunk has been emitted. Whatever
//! the pieces in which the bytes come, the chunks are those of
//! [`partition::chunks_of`].
pub mod buffer;
pub mod chunk;
pub mod chunker;
pub mod cut;
pub mod gear;
pub mod iter;
pub mod mask;
pub mod partition;
pub mod resume;
pub mod session;
pub mod stream;

pub use crate::chunk::Chunk;
pub use crate::chunker::{ConfigError, FastCDC};
pub use crate::cut::find_cutpoint;
pub use crate::iter::FastCDCIter;
pub use crate::mask::{Masks, Normal};
pub use crate::session::Step;
pub use crate::stream::FastCDCStream;

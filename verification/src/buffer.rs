//! What the chunker relies on from the `bytes` crate.
//!
//! The read buffer is a `BytesMut` and the data of a chunk is a `Bytes`. Both
//! are opaque here: their contents are named by [`buffered`] and [`frozen`],
//! and the contracts below say, without proof, what each method that the
//! chunker calls does to them.
use bytes::{Bytes, BytesMut};
use vstd::prelude::*;

verus! {

/// `bytes::BytesMut`, a growable byte buffer. Nothing of its inside is known
/// here but what [`buffered`] names.
#[verifier::external_type_specification]
#[verifier::external_body]
pub struct ExBytesMut(BytesMut);

/// `bytes::Bytes`, an immutable byte buffer. Nothing of its inside is known
/// here but what [`frozen`] names.
#[verifier::external_type_specification]
#[verifier::external_body]
pub struct ExBytes(Bytes);

/// The bytes that a `BytesMut` holds, in order.
pub uninterp spec fn buffered(b: BytesMut) -> Seq<u8>;

/// The bytes that a `Bytes` holds, in order.
pub uninterp spec fn frozen(b: Bytes) -> Seq<u8>;

/// `BytesMut::with_capacity` returns a buffer that holds no byte. It
/// allocates a `Vec` of the capacity, which panics beyond `isize::MAX` bytes:
/// the requirement leaves such a capacity out.
pub assume_specification[ BytesMut::with_capacity ](capacity: usize) -> (b: BytesMut)
    requires
        capacity <= isize::MAX,
    ensures
        buffered(b) == Seq::<u8>::empty(),
;

/// `BytesMut::len` returns the number of bytes held.
pub assume_specification[ BytesMut::len ](b: &BytesMut) -> (n: usize)
    ensures
        n == buffered(*b).len(),
;

/// `BytesMut::extend_from_slice` appends the slice to the bytes held. It
/// reserves room first, which panics where the new capacity overflows: the
/// requirement keeps the total within what one allocation can hold.
pub assume_specification[ BytesMut::extend_from_slice ](b: &mut BytesMut, extend: &[u8])
    requires
        buffered(*old(b)).len() + extend@.len() <= isize::MAX,
    ensures
        buffered(*final(b)) == buffered(*old(b)) + extend@,
;

/// `BytesMut::split_to` hands out the first `at` bytes and keeps the rest; it
/// panics where `at` exceeds the length.
pub assume_specification[ BytesMut::split_to ](b: &mut BytesMut, at: usize) -> (head: BytesMut)
    requires
        at <= buffered(*old(b)).len(),
    ensures
        buffered(head) == buffered(*old(b)).subrange(0, at as int),
        buffered(*final(b)) == buffered(*old(b)).subrange(
            at as int,
            buffered(*old(b)).len() as int,
        ),
;

/// `BytesMut::freeze` turns the buffer into an immutable one with the same
/// bytes.
pub assume_specification[ BytesMut::freeze ](b: BytesMut) -> (data: Bytes)
    ensures
        frozen(data) == buffered(b),
;

/// `AsRef<[u8]>` for `BytesMut` lends the bytes held as a slice.
pub assume_specification<'a>[ <BytesMut as AsRef<[u8]>>::as_ref ](b: &'a BytesMut) -> (s: &'a [u8])
    ensures
        s@ == buffered(*b),
;

} // verus!

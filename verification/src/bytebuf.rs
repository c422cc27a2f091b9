//! Contracts for the byte buffers of the `bytes` crate.
//!
//! `Bytes` and `BytesMut` are opaque to the verifier. Their contents are
//! named by [`bytes_seq`] and [`bytes_mut_seq`], and every operation the
//! library performs on them is given a contract over those names. The
//! contracts in this file are assumed, not proved. As with `Vec`, running
//! out of memory while a buffer grows aborts the program and is outside
//! these contracts.

use crate::wire::{spec_u16_be, spec_u16_from_be, spec_u64_be, spec_u64_from_be};
use bytes::{Buf, BufMut, Bytes, BytesMut};
use vstd::prelude::*;

verus! {

/// `bytes::Bytes`, an immutable byte buffer that is cheap to clone and slice.
#[verifier::external_type_specification]
#[verifier::external_body]
pub struct ExBytes(Bytes);

/// `bytes::BytesMut`, a growable byte buffer.
#[verifier::external_type_specification]
#[verifier::external_body]
pub struct ExBytesMut(BytesMut);

/// The bytes that a `Bytes` holds, in order.
pub uninterp spec fn bytes_seq(b: Bytes) -> Seq<u8>;

/// The bytes that a `BytesMut` holds, in order.
pub uninterp spec fn bytes_mut_seq(b: BytesMut) -> Seq<u8>;

/// `BytesMut::new` returns an empty buffer.
pub assume_specification[ BytesMut::new ]() -> (b: BytesMut)
    ensures
        bytes_mut_seq(b) == Seq::<u8>::empty(),
;

/// `BytesMut::len` is the number of bytes held.
pub assume_specification[ BytesMut::len ](b: &BytesMut) -> (n: usize)
    ensures
        n == bytes_mut_seq(*b).len(),
;

/// `BytesMut::freeze` turns the buffer into a `Bytes` with the same contents.
pub assume_specification[ BytesMut::freeze ](b: BytesMut) -> (r: Bytes)
    ensures
        bytes_seq(r) == bytes_mut_seq(b),
;

/// `BytesMut::extend_from_slice` appends the slice, growing the buffer as needed.
pub assume_specification[ BytesMut::extend_from_slice ](b: &mut BytesMut, extend: &[u8])
    ensures
        bytes_mut_seq(*final(b)) == bytes_mut_seq(*old(b)) + extend@,
;

/// `BufMut::put_slice`, which `BytesMut` implements as `extend_from_slice`.
pub assume_specification[ <BytesMut as BufMut>::put_slice ](b: &mut BytesMut, src: &[u8])
    ensures
        bytes_mut_seq(*final(b)) == bytes_mut_seq(*old(b)) + src@,
;

/// `<BytesMut as AsRef<[u8]>>::as_ref` borrows the contents as a slice.
pub assume_specification<'a>[ <BytesMut as AsRef<[u8]>>::as_ref ](b: &'a BytesMut) -> (s: &'a [u8])
    ensures
        s@ == bytes_mut_seq(*b),
;

/// `BufMut::put_u8` on a `BytesMut` appends the byte.
#[verifier::external_body]
pub(crate) fn put_u8(b: &mut BytesMut, n: u8)
    ensures
        bytes_mut_seq(*final(b)) == bytes_mut_seq(*old(b)).push(n),
{
    b.put_u8(n)
}

/// `BufMut::put_u16` on a `BytesMut` appends the two bytes of `n`, most
/// significant first.
#[verifier::external_body]
pub(crate) fn put_u16(b: &mut BytesMut, n: u16)
    ensures
        bytes_mut_seq(*final(b)) == bytes_mut_seq(*old(b)) + spec_u16_be(n),
{
    b.put_u16(n)
}

/// `BufMut::put_u64` on a `BytesMut` appends the eight bytes of `n`, most
/// significant first.
#[verifier::external_body]
pub(crate) fn put_u64(b: &mut BytesMut, n: u64)
    ensures
        bytes_mut_seq(*final(b)) == bytes_mut_seq(*old(b)) + spec_u64_be(n),
{
    b.put_u64(n)
}

/// `Bytes::copy_from_slice` copies the slice into a new buffer.
pub assume_specification[ Bytes::copy_from_slice ](data: &[u8]) -> (r: Bytes)
    ensures
        bytes_seq(r) == data@,
;

/// `Bytes::from(Vec<u8>)` takes over the vector's bytes.
pub assume_specification[ <Bytes as From<Vec<u8>>>::from ](vec: Vec<u8>) -> (r: Bytes)
    ensures
        bytes_seq(r) == vec@,
;

/// `Bytes::len` is the number of bytes held.
pub assume_specification[ Bytes::len ](b: &Bytes) -> (n: usize)
    ensures
        n == bytes_seq(*b).len(),
;

/// `Bytes::is_empty` tells whether no byte is held.
pub assume_specification[ Bytes::is_empty ](b: &Bytes) -> (r: bool)
    ensures
        r == (bytes_seq(*b).len() == 0),
;

/// `<Bytes as AsRef<[u8]>>::as_ref` borrows the contents as a slice.
pub assume_specification<'a>[ <Bytes as AsRef<[u8]>>::as_ref ](b: &'a Bytes) -> (s: &'a [u8])
    ensures
        s@ == bytes_seq(*b),
;

/// `Buf::get_u8` on a `Bytes` removes the first byte and returns it. It
/// panics on an empty buffer.
#[verifier::external_body]
pub(crate) fn get_u8(b: &mut Bytes) -> (n: u8)
    requires
        bytes_seq(*old(b)).len() >= 1,
    ensures
        n == bytes_seq(*old(b))[0],
        bytes_seq(*final(b)) == bytes_seq(*old(b)).skip(1),
{
    b.get_u8()
}

/// `Buf::get_u16` on a `Bytes` removes the first two bytes and returns the
/// number they encode, most significant byte first. It panics when fewer
/// than two bytes are held.
#[verifier::external_body]
pub(crate) fn get_u16(b: &mut Bytes) -> (n: u16)
    requires
        bytes_seq(*old(b)).len() >= 2,
    ensures
        n == spec_u16_from_be(bytes_seq(*old(b))),
        bytes_seq(*final(b)) == bytes_seq(*old(b)).skip(2),
{
    b.get_u16()
}

/// `Buf::get_u64` on a `Bytes` removes the first eight bytes and returns the
/// number they encode, most significant byte first. It panics when fewer
/// than eight bytes are held.
#[verifier::external_body]
pub(crate) fn get_u64(b: &mut Bytes) -> (n: u64)
    requires
        bytes_seq(*old(b)).len() >= 8,
    ensures
        n == spec_u64_from_be(bytes_seq(*old(b))),
        bytes_seq(*final(b)) == bytes_seq(*old(b)).skip(8),
{
    b.get_u64()
}

/// `Buf::to_bytes` on a `Bytes` hands out everything that is left and leaves
/// the buffer empty.
pub assume_specification[ <Bytes as Buf>::to_bytes ](b: &mut Bytes) -> (r: Bytes)
    ensures
        bytes_seq(r) == bytes_seq(*old(b)),
        bytes_seq(*final(b)) == Seq::<u8>::empty(),
;

} // verus!

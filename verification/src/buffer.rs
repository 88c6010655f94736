//! The byte buffers of the `bytes` crate, as this library uses them.
//!
//! `Bytes` and `BytesMut` are opaque to the verifier. `bytes_content` and
//! `bytes_mut_content` name the bytes that a value holds, and every operation
//! below is described by what it does to them. Nothing in this file is proved:
//! each item states what the crate does.
//!
//! The operations that grow a buffer ask that its new length stays within
//! `isize::MAX`, the largest allocation there is. As with every collection,
//! running out of memory is not described; bytes that were taken off the front
//! may occupy memory until the buffer moves.
use bytes::{Buf, BufMut, Bytes, BytesMut};
use vstd::prelude::*;
use crate::wire::{be_bytes, be_i32, be_value, i32_bits};

verus! {

/// The opaque type `bytes::Bytes`: a shared, immutable run of bytes.
#[verifier::external_type_specification]
#[verifier::external_body]
pub struct ExBytes(Bytes);

/// The opaque type `bytes::BytesMut`: a growable run of bytes.
#[verifier::external_type_specification]
#[verifier::external_body]
pub struct ExBytesMut(BytesMut);

/// The bytes that a `Bytes` holds.
pub uninterp spec fn bytes_content(b: Bytes) -> Seq<u8>;

/// The bytes that a `BytesMut` holds.
pub uninterp spec fn bytes_mut_content(b: BytesMut) -> Seq<u8>;

/// `bytes::Bytes::len` counts the bytes held. They always form one slice, and
/// no slice is longer than `isize::MAX` bytes.
pub assume_specification[ Bytes::len ](b: &Bytes) -> (n: usize)
    ensures
        n == bytes_content(*b).len(),
        n <= isize::MAX,
;

/// `bytes::Bytes::is_empty` tells whether no byte is held.
pub assume_specification[ Bytes::is_empty ](b: &Bytes) -> (empty: bool)
    ensures
        empty == (bytes_content(*b).len() == 0),
;

/// `bytes::Bytes::copy_from_slice` holds a copy of the slice.
pub assume_specification[ Bytes::copy_from_slice ](data: &[u8]) -> (b: Bytes)
    ensures
        bytes_content(b) == data@,
;

/// `<bytes::Bytes as Clone>::clone` holds the same bytes as the original.
pub assume_specification[ <Bytes as Clone>::clone ](b: &Bytes) -> (c: Bytes)
    ensures
        bytes_content(c) == bytes_content(*b),
;

/// `bytes::BytesMut::len` counts the bytes held. They always form one slice,
/// and no slice is longer than `isize::MAX` bytes.
pub assume_specification[ BytesMut::len ](b: &BytesMut) -> (n: usize)
    ensures
        n == bytes_mut_content(*b).len(),
        n <= isize::MAX,
;

/// `bytes::BytesMut::reserve` makes room and changes no byte.
pub assume_specification[ BytesMut::reserve ](b: &mut BytesMut, additional: usize)
    requires
        bytes_mut_content(*old(b)).len() + additional <= isize::MAX,
    ensures
        bytes_mut_content(*final(b)) == bytes_mut_content(*old(b)),
;

/// `bytes::BytesMut::extend_from_slice` appends the slice.
pub assume_specification[ BytesMut::extend_from_slice ](b: &mut BytesMut, extend: &[u8])
    requires
        bytes_mut_content(*old(b)).len() + extend@.len() <= isize::MAX,
    ensures
        bytes_mut_content(*final(b)) == bytes_mut_content(*old(b)) + extend@,
;

/// `bytes::BytesMut::split_to` cuts the first `at` bytes off and returns them.
/// It panics when there are fewer.
pub assume_specification[ BytesMut::split_to ](b: &mut BytesMut, at: usize) -> (head: BytesMut)
    requires
        at <= bytes_mut_content(*old(b)).len(),
    ensures
        bytes_mut_content(head) == bytes_mut_content(*old(b)).take(at as int),
        bytes_mut_content(*final(b)) == bytes_mut_content(*old(b)).skip(at as int),
;

/// `bytes::BytesMut::freeze` keeps the bytes held.
pub assume_specification[ BytesMut::freeze ](b: BytesMut) -> (frozen: Bytes)
    ensures
        bytes_content(frozen) == bytes_mut_content(b),
;

/// `<bytes::Bytes as From<Vec<u8>>>::from` holds the bytes of the vector.
#[verifier::external_body]
pub(crate) fn bytes_from_vec(data: Vec<u8>) -> (b: Bytes)
    ensures
        bytes_content(b) == data@,
{
    Bytes::from(data)
}

/// `<bytes::Bytes as AsRef<[u8]>>::as_ref` lends the bytes held.
#[verifier::external_body]
pub(crate) fn bytes_slice(b: &Bytes) -> (s: &[u8])
    ensures
        s@ == bytes_content(*b),
{
    b.as_ref()
}

/// `<bytes::BytesMut as AsRef<[u8]>>::as_ref` lends the bytes held.
#[verifier::external_body]
pub(crate) fn bytes_mut_slice(b: &BytesMut) -> (s: &[u8])
    ensures
        s@ == bytes_mut_content(*b),
{
    b.as_ref()
}

/// `<bytes::BytesMut as bytes::Buf>::advance` drops the first `count` bytes.
/// It panics when there are fewer.
#[verifier::external_body]
pub(crate) fn advance(b: &mut BytesMut, count: usize)
    requires
        count <= bytes_mut_content(*old(b)).len(),
    ensures
        bytes_mut_content(*final(b)) == bytes_mut_content(*old(b)).skip(count as int),
{
    b.advance(count)
}

/// `bytes::BufMut::put_u8` appends one byte.
#[verifier::external_body]
pub(crate) fn put_u8(b: &mut BytesMut, n: u8)
    requires
        bytes_mut_content(*old(b)).len() + 1 <= isize::MAX,
    ensures
        bytes_mut_content(*final(b)) == bytes_mut_content(*old(b)).push(n),
{
    b.put_u8(n)
}

/// `bytes::BufMut::put_u16` appends the number as two bytes, high byte first.
#[verifier::external_body]
pub(crate) fn put_u16(b: &mut BytesMut, n: u16)
    requires
        bytes_mut_content(*old(b)).len() + 2 <= isize::MAX,
    ensures
        bytes_mut_content(*final(b)) == bytes_mut_content(*old(b)) + be_bytes(n as nat, 2),
{
    b.put_u16(n)
}

/// `bytes::BufMut::put_u32` appends the number as four bytes, high byte first.
#[verifier::external_body]
pub(crate) fn put_u32(b: &mut BytesMut, n: u32)
    requires
        bytes_mut_content(*old(b)).len() + 4 <= isize::MAX,
    ensures
        bytes_mut_content(*final(b)) == bytes_mut_content(*old(b)) + be_bytes(n as nat, 4),
{
    b.put_u32(n)
}

/// `bytes::BufMut::put_i32` appends the number's two's complement as four
/// bytes, high byte first.
#[verifier::external_body]
pub(crate) fn put_i32(b: &mut BytesMut, n: i32)
    requires
        bytes_mut_content(*old(b)).len() + 4 <= isize::MAX,
    ensures
        bytes_mut_content(*final(b)) == bytes_mut_content(*old(b)) + be_bytes(i32_bits(n), 4),
{
    b.put_i32(n)
}

/// `<&[u8] as bytes::Buf>::get_u8` takes one byte off the front. It panics on
/// an empty slice.
#[verifier::external_body]
pub(crate) fn get_u8(s: &mut &[u8]) -> (n: u8)
    requires
        (*old(s))@.len() >= 1,
    ensures
        n == (*old(s))@[0],
        (*final(s))@ == (*old(s))@.skip(1),
{
    s.get_u8()
}

/// `<&[u8] as bytes::Buf>::get_u16` takes two bytes off the front and reads
/// them high byte first. It panics when there are fewer.
#[verifier::external_body]
pub(crate) fn get_u16(s: &mut &[u8]) -> (n: u16)
    requires
        (*old(s))@.len() >= 2,
    ensures
        n == be_value((*old(s))@.take(2)),
        (*final(s))@ == (*old(s))@.skip(2),
{
    s.get_u16()
}

/// `<&[u8] as bytes::Buf>::get_u32` takes four bytes off the front and reads
/// them high byte first. It panics when there are fewer.
#[verifier::external_body]
pub(crate) fn get_u32(s: &mut &[u8]) -> (n: u32)
    requires
        (*old(s))@.len() >= 4,
    ensures
        n == be_value((*old(s))@.take(4)),
        (*final(s))@ == (*old(s))@.skip(4),
{
    s.get_u32()
}

/// `<&[u8] as bytes::Buf>::get_i32` takes four bytes off the front and reads
/// them, high byte first, as a two's complement. It panics when there are
/// fewer.
#[verifier::external_body]
pub(crate) fn get_i32(s: &mut &[u8]) -> (n: i32)
    requires
        (*old(s))@.len() >= 4,
    ensures
        n == be_i32((*old(s))@.take(4)),
        (*final(s))@ == (*old(s))@.skip(4),
{
    s.get_i32()
}

} // verus!

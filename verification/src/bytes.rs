use byteorder::{BigEndian, ByteOrder, LittleEndian};
use std::marker::PhantomData;
use vstd::prelude::*;

verus! {

/// Byte order of binary data.
#[derive(Clone, Copy, Debug, PartialEq, Eq, Structural)]
pub enum Endianness {
    Little,
    Big,
}

/// Value of two bytes read least significant first.
pub open spec fn le_u16(s: Seq<u8>) -> u16 {
    (s[0] as int + 256 * s[1] as int) as u16
}

/// Value of two bytes read most significant first.
pub open spec fn be_u16(s: Seq<u8>) -> u16 {
    (256 * s[0] as int + s[1] as int) as u16
}

/// Value of four bytes read least significant first.
pub open spec fn le_u32(s: Seq<u8>) -> u32 {
    (s[0] as int + 256 * s[1] as int + 65536 * s[2] as int + 16777216 * s[3] as int) as u32
}

/// Value of four bytes read most significant first.
pub open spec fn be_u32(s: Seq<u8>) -> u32 {
    (16777216 * s[0] as int + 65536 * s[1] as int + 256 * s[2] as int + s[3] as int) as u32
}

/// Calls `byteorder::LittleEndian::read_u16`, which reads the first two bytes
/// of `buf`, least significant first, and panics on a shorter buffer.
#[verifier::external_body]
fn read_u16_le(buf: &[u8]) -> (r: u16)
    requires
        buf@.len() >= 2,
    ensures
        r == le_u16(buf@),
{
    LittleEndian::read_u16(buf)
}

/// Calls `byteorder::BigEndian::read_u16`, which reads the first two bytes
/// of `buf`, most significant first, and panics on a shorter buffer.
#[verifier::external_body]
fn read_u16_be(buf: &[u8]) -> (r: u16)
    requires
        buf@.len() >= 2,
    ensures
        r == be_u16(buf@),
{
    BigEndian::read_u16(buf)
}

/// Calls `byteorder::LittleEndian::read_u32`, which reads the first four bytes
/// of `buf`, least significant first, and panics on a shorter buffer.
#[verifier::external_body]
fn read_u32_le(buf: &[u8]) -> (r: u32)
    requires
        buf@.len() >= 4,
    ensures
        r == le_u32(buf@),
{
    LittleEndian::read_u32(buf)
}

/// Calls `byteorder::BigEndian::read_u32`, which reads the first four bytes
/// of `buf`, most significant first, and panics on a shorter buffer.
#[verifier::external_body]
fn read_u32_be(buf: &[u8]) -> (r: u32)
    requires
        buf@.len() >= 4,
    ensures
        r == be_u32(buf@),
{
    BigEndian::read_u32(buf)
}

/// Values that can be loaded from raw bytes.
pub trait FromBytes: Sized {
    /// Number of bytes one value occupies.
    spec fn byte_size() -> nat;

    /// The value that `bytes` encode in the given byte order.
    spec fn decode(order: Endianness, bytes: Seq<u8>) -> Self;

    fn size() -> (r: usize)
        ensures
            r == Self::byte_size(),
            r > 0;

    /// Loads a value from the first `size()` bytes of `bytes`.
    fn from_bytes(order: Endianness, bytes: &[u8]) -> (r: Self)
        requires
            bytes@.len() >= Self::byte_size(),
        ensures
            r == Self::decode(order, bytes@.subrange(0, Self::byte_size() as int));
}

impl FromBytes for u16 {
    open spec fn byte_size() -> nat {
        2
    }

    open spec fn decode(order: Endianness, bytes: Seq<u8>) -> u16 {
        match order {
            Endianness::Little => le_u16(bytes),
            Endianness::Big => be_u16(bytes),
        }
    }

    fn size() -> (r: usize) {
        2
    }

    fn from_bytes(order: Endianness, bytes: &[u8]) -> (r: u16) {
        match order {
            Endianness::Little => read_u16_le(bytes),
            Endianness::Big => read_u16_be(bytes),
        }
    }
}

impl FromBytes for u32 {
    open spec fn byte_size() -> nat {
        4
    }

    open spec fn decode(order: Endianness, bytes: Seq<u8>) -> u32 {
        match order {
            Endianness::Little => le_u32(bytes),
            Endianness::Big => be_u32(bytes),
        }
    }

    fn size() -> (r: usize) {
        4
    }

    fn from_bytes(order: Endianness, bytes: &[u8]) -> (r: u32) {
        match order {
            Endianness::Little => read_u32_le(bytes),
            Endianness::Big => read_u32_be(bytes),
        }
    }
}

/// The bytes left after one step: `stride` bytes are skipped, or all of them
/// when fewer remain.
pub open spec fn advance(bytes: Seq<u8>, stride: nat) -> Seq<u8> {
    if bytes.len() >= stride {
        bytes.subrange(stride as int, bytes.len() as int)
    } else {
        Seq::empty()
    }
}

/// The count that `len` reports for `bytes` left, elements of `size` bytes
/// every `stride` bytes.
pub open spec fn reported_len(bytes: Seq<u8>, stride: nat, size: nat) -> nat {
    if bytes.len() > size {
        ((bytes.len() - size) / (stride as int) + 1) as nat
    } else {
        0
    }
}

/// Reads values of type `T` from a byte slice, one every `stride` bytes.
#[derive(Debug)]
pub struct FromBytesIter<'a, T> {
    bytes: &'a [u8],
    stride: usize,
    order: Endianness,
    marker: PhantomData<T>,
}

impl<'a, T: FromBytes> FromBytesIter<'a, T> {
    /// The bytes not read yet.
    pub closed spec fn rest(&self) -> Seq<u8> {
        self.bytes@
    }

    pub closed spec fn stride(&self) -> nat {
        self.stride as nat
    }

    pub closed spec fn order(&self) -> Endianness {
        self.order
    }

    /// Starts reading values from `bytes`; each value's offset is advanced by `stride`.
    pub fn from_bytes_iter(order: Endianness, bytes: &'a [u8], stride: usize) -> (r: Self)
        ensures
            r.rest() == bytes@,
            r.stride() == stride,
            r.order() == order,
    {
        FromBytesIter { bytes, stride, order, marker: PhantomData }
    }

    /// Reads the next value, if a whole one is left.
    pub fn next(&mut self) -> (r: Option<T>)
        ensures
            final(self).stride() == old(self).stride(),
            final(self).order() == old(self).order(),
            if old(self).rest().len() >= T::byte_size() {
                &&& r == Some(T::decode(old(self).order(), old(self).rest().subrange(0, T::byte_size() as int)))
                &&& final(self).rest() == advance(old(self).rest(), old(self).stride())
            } else {
                &&& r.is_none()
                &&& final(self).rest() == old(self).rest()
            },
    {
        let size: usize = T::size();
        if self.bytes.len() >= size {
            let v = T::from_bytes(self.order, &self.bytes[0..size]);
            assert(self.bytes@.subrange(0, size as int).subrange(0, size as int)
                =~= self.bytes@.subrange(0, size as int));
            if self.bytes.len() >= self.stride {
                self.bytes = &self.bytes[self.stride..self.bytes.len()];
            } else {
                self.bytes = &[];
            }
            Some(v)
        } else {
            None
        }
    }
}


impl<'a, T: FromBytes> FromBytesIter<'a, T> {
    /// Skips `n` values, then reads the next one; where it is not whole,
    /// nothing is left afterwards.
    pub fn nth(&mut self, n: usize) -> (r: Option<T>)
        requires
            n * old(self).stride() + T::byte_size() <= usize::MAX,
        ensures
            final(self).stride() == old(self).stride(),
            final(self).order() == old(self).order(),
            ({
                let skip = n * old(self).stride();
                if old(self).rest().len() >= skip + T::byte_size() {
                    let at = old(self).rest().subrange(skip as int, old(self).rest().len() as int);
                    &&& r == Some(T::decode(old(self).order(), at.subrange(0, T::byte_size() as int)))
                    &&& final(self).rest() == advance(at, old(self).stride())
                } else {
                    &&& r.is_none()
                    &&& final(self).rest() == Seq::<u8>::empty()
                }
            }),
    {
        let size: usize = T::size();
        let skip: usize = n * self.stride;
        if self.bytes.len() >= skip + size {
            self.bytes = &self.bytes[skip..self.bytes.len()];
            let v = T::from_bytes(self.order, &self.bytes[0..size]);
            assert(self.bytes@.subrange(0, size as int).subrange(0, size as int)
                =~= self.bytes@.subrange(0, size as int));
            if self.bytes.len() >= self.stride {
                self.bytes = &self.bytes[self.stride..self.bytes.len()];
            } else {
                self.bytes = &[];
            }
            Some(v)
        } else {
            self.bytes = &[];
            None
        }
    }

    /// Reads the last whole value at a multiple of the stride.
    pub fn last(self) -> (r: Option<T>)
        requires
            self.rest().len() >= T::byte_size() ==> self.stride() > 0,
        ensures
            if self.rest().len() >= T::byte_size() {
                let offset = self.rest().len() - T::byte_size();
                let start = offset - offset % (self.stride() as int);
                r == Some(T::decode(self.order(), self.rest().subrange(start, start + T::byte_size())))
            } else {
                r.is_none()
            },
    {
        let size: usize = T::size();
        if self.bytes.len() >= size {
            let offset: usize = self.bytes.len() - size;
            let stride: usize = self.stride;
            assert(offset % stride <= offset) by (nonlinear_arith)
                requires stride > 0;
            let start: usize = offset - (offset % self.stride);
            let v = T::from_bytes(self.order, &self.bytes[start..start + size]);
            assert(self.bytes@.subrange(start as int, start + size).subrange(0, size as int)
                =~= self.bytes@.subrange(start as int, start + size));
            Some(v)
        } else {
            None
        }
    }

    /// The number of values left, as reported to callers.
    pub fn len(&self) -> (r: usize)
        requires
            self.rest().len() > T::byte_size() ==> self.stride() > 0,
        ensures
            r == reported_len(self.rest(), self.stride(), T::byte_size()),
    {
        let size: usize = T::size();
        if self.bytes.len() > size {
            (self.bytes.len() - size) / self.stride + 1
        } else {
            0
        }
    }

    /// Consumes the reader, returning `len()`.
    pub fn count(self) -> (r: usize)
        requires
            self.rest().len() > T::byte_size() ==> self.stride() > 0,
        ensures
            r == reported_len(self.rest(), self.stride(), T::byte_size()),
    {
        self.len()
    }

    /// Both bounds equal `len()`.
    pub fn size_hint(&self) -> (r: (usize, Option<usize>))
        requires
            self.rest().len() > T::byte_size() ==> self.stride() > 0,
        ensures
            r.0 == reported_len(self.rest(), self.stride(), T::byte_size()),
            r.1 == Some(r.0),
    {
        let len: usize = self.len();
        (len, Some(len))
    }
}


/// The bytes left after `n` steps of `stride` bytes each.
pub open spec fn advance_n(bytes: Seq<u8>, stride: nat, n: nat) -> Seq<u8>
    decreases n,
{
    if n == 0 {
        bytes
    } else {
        advance(advance_n(bytes, stride, (n - 1) as nat), stride)
    }
}

/// While the bytes last, `n` steps of `next` leave the bytes from `n * stride`
/// on: the place where `nth(n)` reads its value.
pub proof fn law_nth_skips_like_next(bytes: Seq<u8>, stride: nat, n: nat)
    requires
        n * stride <= bytes.len(),
    ensures
        advance_n(bytes, stride, n) == bytes.subrange((n * stride) as int, bytes.len() as int),
    decreases n,
{
    if n == 0 {
        assert(n * stride == 0) by (nonlinear_arith)
            requires n == 0;
        assert(bytes.subrange(0, bytes.len() as int) =~= bytes);
    } else {
        let m = (n - 1) as nat;
        assert(m * stride + stride == n * stride) by (nonlinear_arith)
            requires m == n - 1;
        law_nth_skips_like_next(bytes, stride, m);
        let rest = bytes.subrange((m * stride) as int, bytes.len() as int);
        assert(advance(rest, stride) =~= bytes.subrange((n * stride) as int, bytes.len() as int));
        assert(advance_n(bytes, stride, n) == advance(advance_n(bytes, stride, m), stride));
    }
}

/// Calling `next` until it gives `None` reads its last value where `last`
/// reads: after `(len - size) / stride` steps a whole value is left, at
/// the start `last` uses, and after one more step none is.
pub proof fn law_last_is_final_next(bytes: Seq<u8>, stride: nat, size: nat)
    requires
        stride > 0,
        size > 0,
        bytes.len() >= size,
    ensures
        ({
            let offset = bytes.len() - size;
            let k = (offset / (stride as int)) as nat;
            let start = offset - offset % (stride as int);
            &&& advance_n(bytes, stride, k).len() >= size
            &&& advance_n(bytes, stride, k).subrange(0, size as int) == bytes.subrange(start, start + size)
            &&& advance_n(bytes, stride, k + 1).len() < size
        }),
{
    let offset: int = bytes.len() - size;
    let k = (offset / (stride as int)) as nat;
    let start = offset - offset % (stride as int);
    vstd::arithmetic::div_mod::lemma_fundamental_div_mod(offset, stride as int);
    vstd::arithmetic::div_mod::lemma_mod_bound(offset, stride as int);
    assert(k * stride == start) by (nonlinear_arith)
        requires
            offset == (stride as int) * (offset / (stride as int)) + offset % (stride as int),
            k == offset / (stride as int),
            start == offset - offset % (stride as int);
    law_nth_skips_like_next(bytes, stride, k);
    let rest = bytes.subrange(start, bytes.len() as int);
    assert(rest.subrange(0, size as int) =~= bytes.subrange(start, start + size));
}


/// What one call of `next` gives and leaves, by its contract.
pub open spec fn next_result<T: FromBytes>(order: Endianness, rest: Seq<u8>, stride: nat) -> (Option<T>, Seq<u8>) {
    if rest.len() >= T::byte_size() {
        (Some(T::decode(order, rest.subrange(0, T::byte_size() as int))), advance(rest, stride))
    } else {
        (None, rest)
    }
}

/// What the `n + 1`-th of `n + 1` calls of `next` gives, and what is left.
pub open spec fn next_n_plus_one<T: FromBytes>(order: Endianness, rest: Seq<u8>, stride: nat, n: nat) -> (Option<T>, Seq<u8>)
    decreases n,
{
    if n == 0 {
        next_result::<T>(order, rest, stride)
    } else {
        next_n_plus_one::<T>(order, next_result::<T>(order, rest, stride).1, stride, (n - 1) as nat)
    }
}

/// `nth(n)` gives what `n + 1` calls of `next` give. Where it finds a whole
/// value the two leave the same bytes; where it does not, both give `None`,
/// and what `next` leaves holds no whole value, so every later call gives
/// `None` as it does after `nth` has emptied the reader.
pub proof fn law_nth_is_repeated_next<T: FromBytes>(order: Endianness, rest: Seq<u8>, stride: nat, n: nat)
    requires
        T::byte_size() > 0,
    ensures
        ({
            let skip = n * stride;
            let by_next = next_n_plus_one::<T>(order, rest, stride, n);
            if rest.len() >= skip + T::byte_size() {
                let at = rest.subrange(skip as int, rest.len() as int);
                &&& by_next.0 == Some(T::decode(order, at.subrange(0, T::byte_size() as int)))
                &&& by_next.1 == advance(at, stride)
            } else {
                &&& by_next.0 is None
                &&& by_next.1.len() < T::byte_size()
            }
        }),
    decreases n,
{
    let size = T::byte_size();
    if n == 0 {
        assert(n * stride == 0) by (nonlinear_arith)
            requires n == 0;
        assert(rest.subrange(0, rest.len() as int) =~= rest);
    } else {
        let m = (n - 1) as nat;
        assert(m * stride + stride == n * stride) by (nonlinear_arith)
            requires m == n - 1;
        let step = next_result::<T>(order, rest, stride);
        law_nth_is_repeated_next::<T>(order, step.1, stride, m);
        if rest.len() >= n * stride + size {
            assert(step.1 =~= rest.subrange(stride as int, rest.len() as int));
            assert(step.1.subrange((m * stride) as int, step.1.len() as int)
                =~= rest.subrange((n * stride) as int, rest.len() as int));
        } else if rest.len() >= size {
            if rest.len() >= stride {
                assert(step.1.len() == rest.len() - stride);
            } else {
                assert(step.1.len() == 0);
            }
        }
    }
}

} // verus!

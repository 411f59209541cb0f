//! A forward-only cursor over a borrowed byte slice.

use vstd::prelude::*;
use byteorder::{BigEndian, ByteOrder};

verus! {

/// Why a datagram could not be decoded.
#[derive(Debug, Clone, Copy, PartialEq, Eq, Structural)]
pub enum DecodeError {
    /// A read asked for more bytes than the input holds.
    ShortBuffer,
    /// The datagram's version field is not 5.
    UnsupportedVersion,
    /// The agent address type is neither 1 (IPv4) nor 2 (IPv6).
    UnsupportedAddressType,
    /// A sample or record declares more bytes than its container holds.
    Truncated,
    /// Bytes are left over after a datagram's last sample or a flow
    /// sample's last record, or a record's payload is too short for its
    /// kind.
    LengthMismatch,
}

/// The two bytes of `s` at `p` read as a big-endian integer.
pub open spec fn be16(s: Seq<u8>, p: int) -> u16 {
    (s[p] as int * 0x100 + s[p + 1] as int) as u16
}

/// The four bytes of `s` at `p` read as a big-endian integer.
pub open spec fn be32(s: Seq<u8>, p: int) -> u32 {
    (be16(s, p) as int * 0x1_0000 + be16(s, p + 2) as int) as u32
}

/// The eight bytes of `s` at `p` read as a big-endian integer.
pub open spec fn be64(s: Seq<u8>, p: int) -> u64 {
    (be32(s, p) as int * 0x1_0000_0000 + be32(s, p + 4) as int) as u64
}

/// The sixteen bytes of `s` at `p` read as a big-endian integer.
pub open spec fn be128(s: Seq<u8>, p: int) -> u128 {
    (be64(s, p) as int * 0x1_0000_0000_0000_0000 + be64(s, p + 8) as int) as u128
}

/// Relies on `byteorder::BigEndian::read_u16`: reads the first two bytes,
/// most significant first; panics on fewer than two.
#[verifier::external_body]
fn read_be_u16(b: &[u8]) -> (r: u16)
    requires
        b@.len() >= 2,
    ensures
        r == be16(b@, 0),
{
    BigEndian::read_u16(b)
}

/// Relies on `byteorder::BigEndian::read_u32`: reads the first four bytes,
/// most significant first; panics on fewer than four.
#[verifier::external_body]
fn read_be_u32(b: &[u8]) -> (r: u32)
    requires
        b@.len() >= 4,
    ensures
        r == be32(b@, 0),
{
    BigEndian::read_u32(b)
}

/// Relies on `byteorder::BigEndian::read_u64`: reads the first eight bytes,
/// most significant first; panics on fewer than eight.
#[verifier::external_body]
fn read_be_u64(b: &[u8]) -> (r: u64)
    requires
        b@.len() >= 8,
    ensures
        r == be64(b@, 0),
{
    BigEndian::read_u64(b)
}

/// Relies on `byteorder::BigEndian::read_u128`: reads the first sixteen
/// bytes, most significant first; panics on fewer than sixteen.
#[verifier::external_body]
fn read_be_u128(b: &[u8]) -> (r: u128)
    requires
        b@.len() >= 16,
    ensures
        r == be128(b@, 0),
{
    BigEndian::read_u128(b)
}

/// A cursor over a borrowed byte slice. Every read either consumes exactly
/// the bytes it asks for or fails with `ShortBuffer` and consumes nothing.
pub struct Reader<'a> {
    data: &'a [u8],
    pos: usize,
}

impl<'a> Reader<'a> {
    /// The bytes the reader walks over.
    pub closed spec fn input(&self) -> Seq<u8> {
        self.data@
    }

    /// How many bytes have been consumed.
    pub closed spec fn position(&self) -> nat {
        self.pos as nat
    }

    pub open spec fn wf(&self) -> bool {
        self.position() <= self.input().len()
    }

    /// `n` more bytes are available.
    pub open spec fn has(&self, n: nat) -> bool {
        self.position() + n <= self.input().len()
    }

    /// What a read of `n` bytes leaves behind: on success the cursor moved
    /// by `n`, on failure (`ShortBuffer`, exactly when fewer than `n` bytes
    /// remain) it stayed.
    pub open spec fn read_result<T>(old: Reader<'a>, new: Reader<'a>, n: nat, r: Result<T, DecodeError>) -> bool {
        &&& new.wf()
        &&& new.input() == old.input()
        &&& match r {
            Ok(_) => old.has(n) && new.position() == old.position() + n,
            Err(e) => !old.has(n) && e == DecodeError::ShortBuffer && new.position() == old.position(),
        }
    }

    pub fn new(data: &'a [u8]) -> (r: Reader<'a>)
        ensures
            r.wf(),
            r.input() == data@,
            r.position() == 0,
    {
        Reader { data, pos: 0 }
    }

    /// The number of bytes consumed so far.
    pub fn offset(&self) -> (r: usize)
        ensures
            r == self.position(),
    {
        self.pos
    }

    /// The number of bytes not yet consumed.
    pub fn remaining(&self) -> (r: usize)
        requires
            self.wf(),
        ensures
            r == self.input().len() - self.position(),
    {
        self.data.len() - self.pos
    }

    pub fn read_u8(&mut self) -> (r: Result<u8, DecodeError>)
        requires
            old(self).wf(),
        ensures
            Self::read_result(*old(self), *final(self), 1, r),
            r matches Ok(v) ==> v == old(self).input()[old(self).position() as int],
    {
        if self.data.len() - self.pos < 1 {
            return Err(DecodeError::ShortBuffer);
        }
        let v = self.data[self.pos];
        self.pos = self.pos + 1;
        Ok(v)
    }

    pub fn read_u16(&mut self) -> (r: Result<u16, DecodeError>)
        requires
            old(self).wf(),
        ensures
            Self::read_result(*old(self), *final(self), 2, r),
            r matches Ok(v) ==> v == be16(old(self).input(), old(self).position() as int),
    {
        if self.data.len() - self.pos < 2 {
            return Err(DecodeError::ShortBuffer);
        }
        let v = read_be_u16(&self.data[self.pos..self.pos + 2]);
        self.pos = self.pos + 2;
        Ok(v)
    }

    pub fn read_u32(&mut self) -> (r: Result<u32, DecodeError>)
        requires
            old(self).wf(),
        ensures
            Self::read_result(*old(self), *final(self), 4, r),
            r matches Ok(v) ==> v == be32(old(self).input(), old(self).position() as int),
    {
        if self.data.len() - self.pos < 4 {
            return Err(DecodeError::ShortBuffer);
        }
        let v = read_be_u32(&self.data[self.pos..self.pos + 4]);
        self.pos = self.pos + 4;
        Ok(v)
    }

    pub fn read_u64(&mut self) -> (r: Result<u64, DecodeError>)
        requires
            old(self).wf(),
        ensures
            Self::read_result(*old(self), *final(self), 8, r),
            r matches Ok(v) ==> v == be64(old(self).input(), old(self).position() as int),
    {
        if self.data.len() - self.pos < 8 {
            return Err(DecodeError::ShortBuffer);
        }
        let v = read_be_u64(&self.data[self.pos..self.pos + 8]);
        self.pos = self.pos + 8;
        Ok(v)
    }

    pub fn read_u128(&mut self) -> (r: Result<u128, DecodeError>)
        requires
            old(self).wf(),
        ensures
            Self::read_result(*old(self), *final(self), 16, r),
            r matches Ok(v) ==> v == be128(old(self).input(), old(self).position() as int),
    {
        if self.data.len() - self.pos < 16 {
            return Err(DecodeError::ShortBuffer);
        }
        let v = read_be_u128(&self.data[self.pos..self.pos + 16]);
        self.pos = self.pos + 16;
        Ok(v)
    }

    /// Hands out the next `n` bytes as a view into the input.
    pub fn take(&mut self, n: usize) -> (r: Result<&'a [u8], DecodeError>)
        requires
            old(self).wf(),
        ensures
            Self::read_result(*old(self), *final(self), n as nat, r),
            r matches Ok(b) ==> b@ == old(self).input().subrange(
                old(self).position() as int,
                old(self).position() + n,
            ),
    {
        if self.data.len() - self.pos < n {
            return Err(DecodeError::ShortBuffer);
        }
        let b = &self.data[self.pos..self.pos + n];
        self.pos = self.pos + n;
        Ok(b)
    }

    /// Steps over the next `n` bytes.
    pub fn skip(&mut self, n: usize) -> (r: Result<(), DecodeError>)
        requires
            old(self).wf(),
        ensures
            Self::read_result(*old(self), *final(self), n as nat, r),
    {
        if self.data.len() - self.pos < n {
            return Err(DecodeError::ShortBuffer);
        }
        self.pos = self.pos + n;
        Ok(())
    }
}

} // verus!

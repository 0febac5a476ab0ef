use vstd::prelude::*;
use crate::errors::{Field, MachineError};

verus! {

/// The unsigned integer written big-endian in the bytes `hi`, `lo`.
pub open spec fn u16_from_be(hi: u8, lo: u8) -> int {
    hi as int * 256 + lo as int
}

/// The two's-complement integer written big-endian in four bytes.
pub open spec fn i32_from_be(b0: u8, b1: u8, b2: u8, b3: u8) -> int {
    let u = b0 as int * 0x100_0000 + b1 as int * 0x1_0000 + b2 as int * 0x100 + b3 as int;
    if u < 0x8000_0000 {
        u
    } else {
        u - 0x1_0000_0000
    }
}

/// A forward cursor over an immutable byte buffer, with bounds-checked reads.
/// A read that fails leaves the cursor where it was.
pub struct BytecodeReader {
    bytes: Vec<u8>,
    position: usize,
}

impl BytecodeReader {
    /// The buffer read from.
    pub closed spec fn bytes(&self) -> Seq<u8> {
        self.bytes@
    }

    /// The offset of the next byte to read.
    pub closed spec fn pos(&self) -> int {
        self.position as int
    }

    /// The cursor stands within the buffer or just past its end, and every
    /// offset fits a `usize`.
    pub open spec fn wf(&self) -> bool {
        0 <= self.pos() <= self.bytes().len() <= usize::MAX
    }

    /// The bytes left to read.
    pub open spec fn remaining(&self) -> int {
        self.bytes().len() - self.pos()
    }

    pub fn new(bytes: Vec<u8>) -> (r: BytecodeReader)
        ensures
            r.wf(),
            r.bytes() == bytes@,
            r.pos() == 0,
    {
        let len: usize = bytes.len();
        assert(bytes@.len() == len);
        BytecodeReader { bytes, position: 0 }
    }

    /// True when every byte has been read.
    pub fn is_finished(&self) -> (r: bool)
        requires
            self.wf(),
        ensures
            r == (self.pos() == self.bytes().len()),
    {
        self.position == self.bytes.len()
    }

    /// The offset of the next byte, for error reports.
    pub fn position(&self) -> (r: usize)
        ensures
            r as int == self.pos(),
    {
        self.position
    }

    pub fn read_byte(&mut self, field: Field) -> (r: Result<u8, MachineError>)
        requires
            old(self).wf(),
        ensures
            final(self).wf(),
            final(self).bytes() == old(self).bytes(),
            old(self).remaining() >= 1 ==> r == Ok::<u8, MachineError>(old(self).bytes()[old(self).pos()])
                && final(self).pos() == old(self).pos() + 1,
            old(self).remaining() < 1 ==> r == Err::<u8, MachineError>(
                MachineError::UnexpectedEndOfInput { field, position: old(self).pos() as usize },
            ) && final(self).pos() == old(self).pos(),
    {
        if self.position < self.bytes.len() {
            let b = self.bytes[self.position];
            self.position = self.position + 1;
            Ok(b)
        } else {
            Err(MachineError::UnexpectedEndOfInput { field, position: self.position })
        }
    }

    /// Reads a big-endian unsigned 16-bit integer.
    pub fn read_u16(&mut self, field: Field) -> (r: Result<u16, MachineError>)
        requires
            old(self).wf(),
        ensures
            final(self).wf(),
            final(self).bytes() == old(self).bytes(),
            old(self).remaining() >= 2 ==> (r matches Ok(v) && v as int == u16_from_be(
                old(self).bytes()[old(self).pos()],
                old(self).bytes()[old(self).pos() + 1],
            ) && final(self).pos() == old(self).pos() + 2),
            old(self).remaining() < 2 ==> r == Err::<u16, MachineError>(
                MachineError::UnexpectedEndOfInput { field, position: old(self).pos() as usize },
            ) && final(self).pos() == old(self).pos(),
    {
        if self.bytes.len() - self.position < 2 {
            return Err(MachineError::UnexpectedEndOfInput { field, position: self.position });
        }
        let hi = self.bytes[self.position];
        let lo = self.bytes[self.position + 1];
        self.position = self.position + 2;
        Ok((hi as u16) * 256 + lo as u16)
    }

    /// Reads a big-endian two's-complement 32-bit integer.
    pub fn read_i32(&mut self, field: Field) -> (r: Result<i32, MachineError>)
        requires
            old(self).wf(),
        ensures
            final(self).wf(),
            final(self).bytes() == old(self).bytes(),
            old(self).remaining() >= 4 ==> (r matches Ok(v) && v as int == i32_from_be(
                old(self).bytes()[old(self).pos()],
                old(self).bytes()[old(self).pos() + 1],
                old(self).bytes()[old(self).pos() + 2],
                old(self).bytes()[old(self).pos() + 3],
            ) && final(self).pos() == old(self).pos() + 4),
            old(self).remaining() < 4 ==> r == Err::<i32, MachineError>(
                MachineError::UnexpectedEndOfInput { field, position: old(self).pos() as usize },
            ) && final(self).pos() == old(self).pos(),
    {
        if self.bytes.len() - self.position < 4 {
            return Err(MachineError::UnexpectedEndOfInput { field, position: self.position });
        }
        let p = self.position;
        let u: u32 = (self.bytes[p] as u32) * 0x100_0000 + (self.bytes[p + 1] as u32) * 0x1_0000
            + (self.bytes[p + 2] as u32) * 0x100 + self.bytes[p + 3] as u32;
        self.position = p + 4;
        if u < 0x8000_0000 {
            Ok(u as i32)
        } else {
            Ok(((u - 0x8000_0000) as i32) + i32::MIN)
        }
    }

    /// Reads the next `n` bytes as an owned vector.
    pub fn read_bytes(&mut self, n: usize, field: Field) -> (r: Result<Vec<u8>, MachineError>)
        requires
            old(self).wf(),
        ensures
            final(self).wf(),
            final(self).bytes() == old(self).bytes(),
            old(self).remaining() >= n ==> (r matches Ok(v) && v@ == old(self).bytes().subrange(
                old(self).pos(),
                old(self).pos() + n,
            ) && final(self).pos() == old(self).pos() + n),
            old(self).remaining() < n ==> r == Err::<Vec<u8>, MachineError>(
                MachineError::UnexpectedEndOfInput { field, position: old(self).pos() as usize },
            ) && final(self).pos() == old(self).pos(),
    {
        if self.bytes.len() - self.position < n {
            return Err(MachineError::UnexpectedEndOfInput { field, position: self.position });
        }
        let start = self.position;
        let src: &Vec<u8> = &self.bytes;
        let len: usize = src.len();
        let mut out: Vec<u8> = Vec::new();
        let mut i: usize = 0;
        while i < n
            invariant
                start + n <= len,
                len == src@.len(),
                0 <= i <= n,
                out@ == src@.subrange(start as int, start + i),
            decreases n - i,
        {
            out.push(src[start + i]);
            i = i + 1;
            assert(out@ =~= src@.subrange(start as int, start + i));
        }
        self.position = start + n;
        Ok(out)
    }
}

} // verus!

//! A read position over an owned byte buffer, with the primitive reads of the
//! archive format.
//!
//! No primitive succeeds partially: each either delivers its value and moves
//! the position past it, or fails with [`DecodeError::Underrun`] and leaves
//! the position where it was.

use crate::error::DecodeError;
use crate::le;
use crate::le::F32;
use vstd::prelude::*;
use vstd::slice::slice_subrange;

verus! {

/// A byte buffer and the position of the next byte to read.
pub struct Reader {
    data: Vec<u8>,
    pos: usize,
}

/// `res` is what a step that needs `n` bytes and then delivers `value` gives:
/// the value, with the position moved by `n`, if `n` bytes remain; otherwise
/// an underrun, with the position unmoved. The buffer is the same either way.
pub open spec fn took<T>(
    before: Reader,
    after: Reader,
    res: Result<T, DecodeError>,
    n: int,
    value: T,
) -> bool {
    &&& after.bytes() == before.bytes()
    &&& if n <= before.remaining() {
        res == Ok::<T, DecodeError>(value) && after.pos() == before.pos() + n
    } else {
        res == Err::<T, DecodeError>(DecodeError::Underrun) && after.pos() == before.pos()
    }
}

/// `res` is what a decoder whose outcome on this buffer is `want` gives: on
/// success a value with the wanted view, the position at the wanted end,
/// which is not before the start; where the buffer is too short an
/// underrun, the position unmoved.
pub open spec fn decoded<T: View>(
    before: Reader,
    after: Reader,
    res: Result<T, DecodeError>,
    want: Option<(T::V, int)>,
) -> bool {
    &&& after.bytes() == before.bytes()
    &&& after.pos() >= before.pos()
    &&& match res {
        Ok(v) => want == Some((v@, after.pos())),
        Err(e) => e == DecodeError::Underrun && want is None && after.pos() == before.pos(),
    }
}

/// As [`decoded`], for a value that is its own view.
pub open spec fn decoded_plain<T>(
    before: Reader,
    after: Reader,
    res: Result<T, DecodeError>,
    want: Option<(T, int)>,
) -> bool {
    &&& after.bytes() == before.bytes()
    &&& after.pos() >= before.pos()
    &&& match res {
        Ok(v) => want == Some((v, after.pos())),
        Err(e) => e == DecodeError::Underrun && want is None && after.pos() == before.pos(),
    }
}

impl Reader {
    #[verifier::type_invariant]
    spec fn in_bounds(self) -> bool {
        self.pos <= self.data.len() && self.data.len() == self.data@.len()
    }

    /// The whole buffer.
    pub closed spec fn bytes(&self) -> Seq<u8> {
        self.data@
    }

    /// The position of the next byte to read.
    pub closed spec fn pos(&self) -> int {
        self.pos as int
    }

    /// The number of bytes from the position to the end of the buffer.
    pub open spec fn remaining(&self) -> int {
        self.bytes().len() - self.pos()
    }

    /// A reader at the start of `data`.
    pub fn new(data: Vec<u8>) -> (r: Reader)
        ensures
            r.bytes() == data@,
            r.pos() == 0,
    {
        Reader { data, pos: 0 }
    }

    /// The current position, which never lies beyond the end of the buffer.
    pub fn position(&self) -> (p: usize)
        ensures
            p == self.pos(),
            0 <= self.remaining(),
            self.bytes().len() <= usize::MAX,
    {
        proof {
            use_type_invariant(&*self);
        }
        self.pos
    }

    /// The number of bytes that remain.
    pub fn bytes_left(&self) -> (n: usize)
        ensures
            n == self.remaining(),
    {
        proof {
            use_type_invariant(&*self);
        }
        self.data.len() - self.pos
    }

    /// Succeeds where at least `n` bytes remain. Reads nothing.
    pub fn need(&self, n: usize) -> (res: Result<(), DecodeError>)
        ensures
            res == (if n <= self.remaining() {
                Ok::<(), DecodeError>(())
            } else {
                Err::<(), DecodeError>(DecodeError::Underrun)
            }),
            0 <= self.remaining() <= usize::MAX,
    {
        if n <= self.bytes_left() {
            Ok(())
        } else {
            Err(DecodeError::Underrun)
        }
    }

    /// Moves the position forward over `n` bytes that are known to remain.
    pub fn advance(&mut self, n: usize)
        requires
            n <= old(self).remaining(),
        ensures
            final(self).bytes() == old(self).bytes(),
            final(self).pos() == old(self).pos() + n,
    {
        proof {
            use_type_invariant(&*self);
        }
        self.pos = self.pos + n;
    }

    /// Moves the position back to an earlier one.
    pub fn rewind(&mut self, to: usize)
        requires
            to <= old(self).pos(),
        ensures
            final(self).bytes() == old(self).bytes(),
            final(self).pos() == to,
    {
        proof {
            use_type_invariant(&*self);
        }
        self.pos = to;
    }

    /// Passes over `n` bytes.
    pub fn skip_forward(&mut self, n: usize) -> (res: Result<(), DecodeError>)
        ensures
            took(*old(self), *final(self), res, n as int, ()),
    {
        self.need(n)?;
        self.advance(n);
        Ok(())
    }

    /// Moves the position by `n` bytes, forward or back. Fails, without
    /// moving, where that would leave the buffer.
    pub fn skip(&mut self, n: i64) -> (res: Result<(), DecodeError>)
        ensures
            final(self).bytes() == old(self).bytes(),
            ({
                let to = old(self).pos() + n;
                if 0 <= to <= old(self).bytes().len() {
                    res == Ok::<(), DecodeError>(()) && final(self).pos() == to
                } else {
                    res == Err::<(), DecodeError>(DecodeError::Underrun)
                        && final(self).pos() == old(self).pos()
                }
            }),
    {
        proof {
            use_type_invariant(&*self);
        }
        if n >= 0 {
            let left = self.data.len() - self.pos;
            if left as u64 >= n as u64 {
                self.pos = self.pos + n as usize;
                Ok(())
            } else {
                Err(DecodeError::Underrun)
            }
        } else {
            let back: u64 = if n == i64::MIN {
                0x8000_0000_0000_0000u64
            } else {
                (-n) as u64
            };
            if self.pos as u64 >= back {
                self.pos = self.pos - back as usize;
                Ok(())
            } else {
                Err(DecodeError::Underrun)
            }
        }
    }

    /// The byte `off` bytes past the position.
    pub fn u8_at(&self, off: usize) -> (v: u8)
        requires
            off + 1 <= self.remaining(),
        ensures
            v == le::u8_at(self.bytes(), self.pos() + off),
    {
        proof {
            use_type_invariant(&*self);
        }
        self.data[self.pos + off]
    }

    /// The signed byte `off` bytes past the position.
    pub fn i8_at(&self, off: usize) -> (v: i8)
        requires
            off + 1 <= self.remaining(),
        ensures
            v == le::i8_at(self.bytes(), self.pos() + off),
    {
        proof {
            use_type_invariant(&*self);
        }
        le::signed_byte(self.data[self.pos + off])
    }

    /// The unsigned 16-bit number `off` bytes past the position.
    pub fn u16_at(&self, off: usize) -> (v: u16)
        requires
            off + 2 <= self.remaining(),
        ensures
            v == le::u16_at(self.bytes(), self.pos() + off),
    {
        proof {
            use_type_invariant(&*self);
        }
        let at = self.pos + off;
        le::read_u16(slice_subrange(self.data.as_slice(), at, at + 2))
    }

    /// The signed 16-bit number `off` bytes past the position.
    pub fn i16_at(&self, off: usize) -> (v: i16)
        requires
            off + 2 <= self.remaining(),
        ensures
            v == le::i16_at(self.bytes(), self.pos() + off),
    {
        proof {
            use_type_invariant(&*self);
        }
        let at = self.pos + off;
        le::read_i16(slice_subrange(self.data.as_slice(), at, at + 2))
    }

    /// The unsigned 32-bit number `off` bytes past the position.
    pub fn u32_at(&self, off: usize) -> (v: u32)
        requires
            off + 4 <= self.remaining(),
        ensures
            v == le::u32_at(self.bytes(), self.pos() + off),
    {
        proof {
            use_type_invariant(&*self);
        }
        let at = self.pos + off;
        le::read_u32(slice_subrange(self.data.as_slice(), at, at + 4))
    }

    /// The signed 32-bit number `off` bytes past the position.
    pub fn i32_at(&self, off: usize) -> (v: i32)
        requires
            off + 4 <= self.remaining(),
        ensures
            v == le::i32_at(self.bytes(), self.pos() + off),
    {
        proof {
            use_type_invariant(&*self);
        }
        let at = self.pos + off;
        le::read_i32(slice_subrange(self.data.as_slice(), at, at + 4))
    }

    /// The 32-bit IEEE-754 number `off` bytes past the position.
    pub fn f32_at(&self, off: usize) -> (v: F32)
        requires
            off + 4 <= self.remaining(),
        ensures
            v == le::f32_at(self.bytes(), self.pos() + off),
    {
        F32 { bits: self.u32_at(off) }
    }

    /// The `n` bytes that start `off` bytes past the position.
    pub fn slice_at(&self, off: usize, n: usize) -> (b: &[u8])
        requires
            off + n <= self.remaining(),
        ensures
            b@ == self.bytes().subrange(self.pos() + off, self.pos() + off + n),
    {
        proof {
            use_type_invariant(&*self);
        }
        let at = self.pos + off;
        slice_subrange(self.data.as_slice(), at, at + n)
    }

    /// Reads one byte.
    pub fn read_u8(&mut self) -> (res: Result<u8, DecodeError>)
        ensures
            took(*old(self), *final(self), res, 1, le::u8_at(old(self).bytes(), old(self).pos())),
    {
        self.need(1)?;
        let v = self.u8_at(0);
        self.advance(1);
        Ok(v)
    }

    /// Reads one signed byte.
    pub fn read_i8(&mut self) -> (res: Result<i8, DecodeError>)
        ensures
            took(*old(self), *final(self), res, 1, le::i8_at(old(self).bytes(), old(self).pos())),
    {
        self.need(1)?;
        let v = self.i8_at(0);
        self.advance(1);
        Ok(v)
    }

    /// Reads an unsigned 16-bit number.
    pub fn read_u16(&mut self) -> (res: Result<u16, DecodeError>)
        ensures
            took(*old(self), *final(self), res, 2, le::u16_at(old(self).bytes(), old(self).pos())),
    {
        self.need(2)?;
        let v = self.u16_at(0);
        self.advance(2);
        Ok(v)
    }

    /// Reads a signed 16-bit number.
    pub fn read_i16(&mut self) -> (res: Result<i16, DecodeError>)
        ensures
            took(*old(self), *final(self), res, 2, le::i16_at(old(self).bytes(), old(self).pos())),
    {
        self.need(2)?;
        let v = self.i16_at(0);
        self.advance(2);
        Ok(v)
    }

    /// Reads an unsigned 32-bit number.
    pub fn read_u32(&mut self) -> (res: Result<u32, DecodeError>)
        ensures
            took(*old(self), *final(self), res, 4, le::u32_at(old(self).bytes(), old(self).pos())),
    {
        self.need(4)?;
        let v = self.u32_at(0);
        self.advance(4);
        Ok(v)
    }

    /// Reads a signed 32-bit number.
    pub fn read_i32(&mut self) -> (res: Result<i32, DecodeError>)
        ensures
            took(*old(self), *final(self), res, 4, le::i32_at(old(self).bytes(), old(self).pos())),
    {
        self.need(4)?;
        let v = self.i32_at(0);
        self.advance(4);
        Ok(v)
    }

    /// Reads a 32-bit IEEE-754 number.
    pub fn read_f32(&mut self) -> (res: Result<F32, DecodeError>)
        ensures
            took(*old(self), *final(self), res, 4, le::f32_at(old(self).bytes(), old(self).pos())),
    {
        self.need(4)?;
        let v = self.f32_at(0);
        self.advance(4);
        Ok(v)
    }

    /// Reads exactly `n` bytes.
    pub fn read_bytes(&mut self, n: usize) -> (res: Result<Vec<u8>, DecodeError>)
        ensures
            final(self).bytes() == old(self).bytes(),
            match res {
                Ok(v) => n <= old(self).remaining() && final(self).pos() == old(self).pos() + n
                    && v@ == old(self).bytes().subrange(old(self).pos(), old(self).pos() + n),
                Err(e) => e == DecodeError::Underrun && n > old(self).remaining()
                    && final(self).pos() == old(self).pos(),
            },
    {
        proof {
            use_type_invariant(&*self);
        }
        self.need(n)?;
        let v = vstd::slice::slice_to_vec(self.slice_at(0, n));
        self.advance(n);
        Ok(v)
    }
}

} // verus!

//! A read position over a borrowed byte buffer: the byte source of every parser in
//! this crate.

use vstd::prelude::*;
use vstd::slice::slice_subrange;

verus! {

/// A byte buffer together with the offset of the next byte to read.
///
/// The offset may lie past the end of the buffer; nothing is left to read then.
pub struct Cursor<'a> {
    bytes: &'a [u8],
    position: usize,
}

impl<'a> Cursor<'a> {
    /// The whole buffer, read or not.
    pub closed spec fn bytes(&self) -> Seq<u8> {
        self.bytes@
    }

    /// The offset of the next byte to read.
    pub closed spec fn spec_position(&self) -> usize {
        self.position
    }

    /// The bytes that are left to read.
    pub open spec fn rest(&self) -> Seq<u8> {
        if self.position() <= self.bytes().len() {
            self.bytes().skip(self.position() as int)
        } else {
            Seq::empty()
        }
    }

    /// What is left to read is no longer than a buffer can be.
    pub proof fn lemma_rest_fits(&self)
        ensures
            self.rest().len() <= usize::MAX,
    {
        assert(self.bytes.len() == self.bytes@.len());
    }

    /// A cursor at the start of `bytes`.
    pub fn new(bytes: &'a [u8]) -> (cursor: Self)
        ensures
            cursor.bytes() == bytes@,
            cursor.position() == 0,
    {
        Cursor { bytes, position: 0 }
    }

    /// The offset of the next byte to read.
    #[verifier::when_used_as_spec(spec_position)]
    pub fn position(&self) -> (position: usize)
        ensures
            position == self.position(),
    {
        self.position
    }

    /// Moves the cursor to `position`, which may lie anywhere.
    pub fn set_position(&mut self, position: usize)
        ensures
            final(self).bytes() == old(self).bytes(),
            final(self).position() == position,
    {
        self.position = position;
    }

    /// The number of bytes that are left to read.
    pub fn remaining(&self) -> (count: usize)
        ensures
            count == self.rest().len(),
    {
        if self.position <= self.bytes.len() {
            self.bytes.len() - self.position
        } else {
            0
        }
    }

    /// The next `count` bytes, without moving the cursor; `None` where fewer are left.
    pub fn peek(&self, count: usize) -> (window: Option<&'a [u8]>)
        ensures
            window is Some <==> count <= self.rest().len(),
            window matches Some(w) ==> w@ == self.rest().take(count as int),
    {
        if count > self.remaining() {
            return None;
        }
        let start = if self.position <= self.bytes.len() {
            self.position
        } else {
            self.bytes.len()
        };
        let window = slice_subrange(self.bytes, start, start + count);
        proof {
            assert(window@ =~= self.rest().take(count as int));
        }
        Some(window)
    }

    /// The next `count` bytes, which the cursor moves past; `None` where fewer are
    /// left, and the cursor then stays where it is.
    pub fn take(&mut self, count: usize) -> (window: Option<&'a [u8]>)
        ensures
            final(self).bytes() == old(self).bytes(),
            window is Some <==> count <= old(self).rest().len(),
            window matches Some(w) ==> {
                &&& w@ == old(self).rest().take(count as int)
                &&& final(self).position() == old(self).position() + count
                &&& final(self).rest() == old(self).rest().skip(count as int)
            },
            window is None ==> final(self).position() == old(self).position(),
    {
        let window = self.peek(count);
        if window.is_some() {
            assert(count == 0 || self.position + count <= self.bytes.len());
            self.position = self.position + count;
            proof {
                assert(self.rest() =~= old(self).rest().skip(count as int));
            }
        }
        window
    }
}

} // verus!

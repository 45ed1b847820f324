//! The buffer a session keeps the bytes in that it has read but not consumed.

use vstd::prelude::*;

use crate::bytes::{append_bytes, take_front};

verus! {

broadcast use vstd::seq::group_seq_axioms;

/// A reader with a buffer in front of it.
///
/// Bytes that were read ahead are kept in the buffer; reads are served from it
/// first, and go to the inner reader only when it is empty.
#[derive(Debug)]
pub struct BufferedReader<R> {
    inner: R,
    buffer: Vec<u8>,
}

impl<R> BufferedReader<R> {
    /// The bytes kept in the buffer.
    pub closed spec fn spec_buffer(&self) -> Seq<u8> {
        self.buffer@
    }

    /// The inner reader.
    pub closed spec fn spec_inner(&self) -> R {
        self.inner
    }

    /// Creates a reader with an empty buffer.
    pub fn new(reader: R) -> (r: Self)
        ensures
            r.spec_inner() == reader,
            r.spec_buffer() == Seq::<u8>::empty(),
    {
        Self { inner: reader, buffer: Vec::new() }
    }

    /// Keeps bytes at the end of the buffer.
    pub fn keep_in_buffer(&mut self, v: &[u8])
        ensures
            final(self).spec_buffer() == old(self).spec_buffer() + v@,
            final(self).spec_inner() == old(self).spec_inner(),
    {
        append_bytes(&mut self.buffer, v);
    }

    /// The bytes kept in the buffer.
    pub fn get_available(&self) -> (r: &[u8])
        ensures
            r@ == self.spec_buffer(),
    {
        self.buffer.as_slice()
    }

    /// Drops the first `n` bytes of the buffer.
    pub fn consume_available(&mut self, n: usize)
        requires
            n <= old(self).spec_buffer().len(),
        ensures
            final(self).spec_buffer() == old(self).spec_buffer().skip(n as int),
            final(self).spec_inner() == old(self).spec_inner(),
    {
        let _ = take_front(&mut self.buffer, n);
    }

    /// Serves a read from the buffer: `None` when it is empty (the read then goes
    /// to the inner reader); otherwise as many bytes as fit in `out` are moved there
    /// from the front of the buffer.
    pub fn read_buffered(&mut self, out: &mut [u8]) -> (r: Option<usize>)
        ensures
            final(self).spec_inner() == old(self).spec_inner(),
            old(self).spec_buffer().len() == 0 ==> r is None && final(self).spec_buffer() == old(
                self,
            ).spec_buffer() && final(out)@ == old(out)@,
            old(self).spec_buffer().len() > 0 ==> {
                let n = if old(out)@.len() < old(self).spec_buffer().len() {
                    old(out)@.len()
                } else {
                    old(self).spec_buffer().len()
                };
                &&& r == Some(n as usize)
                &&& final(out)@.len() == old(out)@.len()
                &&& final(out)@.take(n as int) == old(self).spec_buffer().take(n as int)
                &&& final(out)@.skip(n as int) == old(out)@.skip(n as int)
                &&& final(self).spec_buffer() == old(self).spec_buffer().skip(n as int)
            },
    {
        if self.buffer.len() == 0 {
            return None;
        }
        let n = if out.len() < self.buffer.len() {
            out.len()
        } else {
            self.buffer.len()
        };
        let front = take_front(&mut self.buffer, n);
        let ghost start = out@;
        let mut i: usize = 0;
        while i < n
            invariant
                i <= n,
                n <= out@.len(),
                front@.len() == n,
                out@.len() == start.len(),
                forall|k: int| 0 <= k < i ==> out@[k] == front@[k],
                forall|k: int| i <= k < out@.len() ==> out@[k] == start[k],
            decreases n - i,
        {
            out[i] = front[i];
            i = i + 1;
        }
        assert(out@.take(n as int) =~= front@);
        assert(out@.skip(n as int) =~= start.skip(n as int));
        Some(n)
    }

    /// A reference to the inner reader.
    pub fn get_ref(&self) -> (r: &R)
        ensures
            *r == self.spec_inner(),
    {
        &self.inner
    }

    /// A mutable reference to the inner reader; the buffer stays as it is.
    pub fn get_mut(&mut self) -> (r: &mut R)
        ensures
            *r == old(self).spec_inner(),
            final(self).spec_inner() == *final(r),
            final(self).spec_buffer() == old(self).spec_buffer(),
    {
        &mut self.inner
    }

    /// A mutable reference to the buffer, for the checks of a session to take
    /// matched bytes out of it; the inner reader stays as it is.
    pub fn buffer_mut(&mut self) -> (r: &mut Vec<u8>)
        ensures
            (*r)@ == old(self).spec_buffer(),
            final(self).spec_buffer() == (*final(r))@,
            final(self).spec_inner() == old(self).spec_inner(),
    {
        &mut self.buffer
    }

    /// The inner reader and the kept bytes, given back.
    pub fn into_parts(self) -> (r: (R, Vec<u8>))
        ensures
            r.0 == self.spec_inner(),
            r.1@ == self.spec_buffer(),
    {
        (self.inner, self.buffer)
    }
}

} // verus!

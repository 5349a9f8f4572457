//! Fixed-capacity byte buffers for receiving a request and composing a
//! response without dynamic memory.

use vstd::prelude::*;
use vstd::string::StringSliceAdditionalSpecFns;

verus! {

/// A write was refused because it would not fit in the space that is left.
#[derive(Clone, Copy, Debug, PartialEq, Eq, Structural)]
pub struct BufferFull;

/// Receive target of `S` bytes. It starts out zeroed and is filled by index
/// range by whoever reads from the transport.
#[derive(Clone, Copy)]
pub struct RequestBuffer<const S: usize> {
    /// The bytes.
    pub buf: [u8; S],
}

impl<const S: usize> View for RequestBuffer<S> {
    type V = Seq<u8>;

    open spec fn view(&self) -> Seq<u8> {
        self.buf@
    }
}

/// The sequence of `n` zero bytes.
pub open spec fn zeros(n: nat) -> Seq<u8> {
    Seq::new(n, |i: int| 0u8)
}

impl<const S: usize> RequestBuffer<S> {
    /// A buffer of `S` zero bytes.
    pub fn new() -> (r: Self)
        ensures
            r@ == zeros(S as nat),
    {
        let r = Self { buf: [0u8; S] };
        assert(r@ =~= zeros(S as nat));
        r
    }

    /// All `S` bytes of the buffer.
    pub fn buffer(&self) -> (r: &[u8])
        ensures
            r@ == self@,
    {
        &self.buf
    }

    /// All `S` bytes of the buffer, for writing.
    pub fn buffer_mut(&mut self) -> (r: &mut [u8])
        ensures
            r@ == old(self)@,
            final(self)@ == final(r)@,
    {
        &mut self.buf
    }
}

impl<const S: usize> Default for RequestBuffer<S> {
    fn default() -> (r: Self)
        ensures
            r@ == zeros(S as nat),
    {
        Self::new()
    }
}

/// What a bounded buffer that holds `held` and has room for `capacity` bytes
/// holds after an attempt to append `bytes`: everything or nothing.
pub open spec fn append_if_fits(held: Seq<u8>, capacity: nat, bytes: Seq<u8>) -> Seq<u8> {
    if held.len() + bytes.len() <= capacity {
        held + bytes
    } else {
        held
    }
}

/// Into an empty buffer, bytes that are no more than its capacity go whole,
/// and bytes that are more leave it empty.
pub proof fn lemma_write_into_empty(capacity: nat, bytes: Seq<u8>)
    ensures
        bytes.len() <= capacity ==> append_if_fits(Seq::<u8>::empty(), capacity, bytes) == bytes,
        bytes.len() > capacity ==> append_if_fits(Seq::<u8>::empty(), capacity, bytes).len() == 0,
{
    assert(Seq::<u8>::empty() + bytes =~= bytes);
}

/// Compose target of capacity `S` that tracks how much of it is written.
/// Its view is what was written so far.
pub struct ResponseBuffer<const S: usize> {
    buf: [u8; S],
    pos: usize,
}

impl<const S: usize> View for ResponseBuffer<S> {
    type V = Seq<u8>;

    closed spec fn view(&self) -> Seq<u8> {
        self.buf@.subrange(0, self.pos as int)
    }
}

impl<const S: usize> ResponseBuffer<S> {
    #[verifier::type_invariant]
    spec fn cursor_in_bounds(&self) -> bool {
        self.pos <= S
    }

    /// An empty buffer.
    pub fn new() -> (r: Self)
        ensures
            r@ == Seq::<u8>::empty(),
    {
        let r = Self { buf: [0u8; S], pos: 0 };
        assert(r@ =~= Seq::<u8>::empty());
        r
    }

    /// Exactly the bytes written so far.
    pub fn buffer(&self) -> (r: &[u8])
        ensures
            r@ == self@,
            r@.len() <= S,
    {
        proof {
            use_type_invariant(self);
        }
        &self.buf[0..self.pos]
    }

    /// How many bytes were written so far.
    pub fn len(&self) -> (n: usize)
        ensures
            n == self@.len(),
            n <= S,
    {
        proof {
            use_type_invariant(self);
        }
        self.pos
    }

    /// Takes back what was written behind the first `len` bytes. A `len`
    /// beyond what was written changes nothing.
    pub fn truncate(&mut self, len: usize)
        ensures
            final(self)@ == if len <= old(self)@.len() {
                old(self)@.subrange(0, len as int)
            } else {
                old(self)@
            },
    {
        proof {
            use_type_invariant(&*self);
        }
        if len <= self.pos {
            self.pos = len;
            assert(self@ =~= old(self)@.subrange(0, len as int));
        }
    }

    /// Exactly the bytes written so far, for changing them in place. The
    /// cursor stays where it is; a slice keeps its length, so what the
    /// caller leaves in it is what the buffer then holds.
    pub fn buffer_mut(&mut self) -> (r: &mut [u8])
        ensures
            r@ == old(self)@,
            final(r)@.len() == r@.len() ==> final(self)@ == final(r)@,
    {
        proof {
            use_type_invariant(&*self);
        }
        let (written, _rest) = self.buf.split_at_mut(self.pos);
        written
    }

    /// Appends the bytes of `text` under the same rule as [`Self::write`].
    pub fn write_str(&mut self, text: &str) -> (r: Result<(), BufferFull>)
        ensures
            final(self)@ == append_if_fits(old(self)@, S as nat, text.spec_bytes()),
            r is Ok <==> old(self)@.len() + text.spec_bytes().len() <= S,
    {
        self.write(text.as_bytes())
    }

    /// Appends `bytes` if they fit in what is left of the capacity;
    /// otherwise reports `BufferFull` and leaves the buffer as it was.
    pub fn write(&mut self, bytes: &[u8]) -> (r: Result<(), BufferFull>)
        ensures
            final(self)@ == append_if_fits(old(self)@, S as nat, bytes@),
            r is Ok <==> old(self)@.len() + bytes@.len() <= S,
    {
        proof {
            use_type_invariant(&*self);
        }
        let n = bytes.len();
        if n > S - self.pos {
            return Err(BufferFull);
        }
        let ghost before = self.buf@;
        let start = self.pos;
        let mut i: usize = 0;
        while i < n
            invariant
                i <= n,
                n == bytes@.len(),
                start == self.pos,
                start + n <= S,
                self.buf@.subrange(0, start as int) == before.subrange(0, start as int),
                self.buf@.subrange(start as int, start + i) == bytes@.subrange(0, i as int),
            decreases n - i,
        {
            self.buf[start + i] = bytes[i];
            i += 1;
            assert(self.buf@.subrange(0, start as int) =~= before.subrange(0, start as int));
            assert(self.buf@.subrange(start as int, start + i) =~= bytes@.subrange(0, i as int));
        }
        self.pos = start + n;
        assert(self@ =~= old(self)@ + bytes@) by {
            assert(bytes@.subrange(0, n as int) =~= bytes@);
        }
        Ok(())
    }
}

impl<const S: usize> Default for ResponseBuffer<S> {
    fn default() -> (r: Self)
        ensures
            r@ == Seq::<u8>::empty(),
    {
        Self::new()
    }
}

} // verus!

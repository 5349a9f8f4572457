//! Reading a request into a receive buffer, one transport read at a time,
//! until the end of the headers has arrived.

use crate::buffer::RequestBuffer;
use crate::text::{contains, find, lemma_find_from_is_first, terminator};
use vstd::prelude::*;

verus! {

/// Whether `bytes` hold the end of the headers: two line breaks in a row.
pub fn headers_complete(bytes: &[u8]) -> (b: bool)
    ensures
        b == contains(bytes@, terminator()),
{
    let mark: [u8; 4] = [13, 10, 13, 10];
    assert(mark@ =~= terminator());
    proof {
        lemma_find_from_is_first(bytes@, terminator(), 0);
    }
    find(bytes, mark.as_slice(), 0).is_some()
}

/// What to do after a read.
#[derive(Clone, Copy, Debug, PartialEq, Eq, Structural)]
pub enum ReadStep {
    /// The end of the headers is not there yet: read again.
    Continue,
    /// The bytes read so far hold the end of the headers.
    Complete,
    /// The source had nothing more to give: the peer closed early.
    ConnectionReset,
}

/// How many bytes are accounted for after a read of `read` bytes behind
/// the first `filled` of a buffer of `capacity` bytes.
pub open spec fn filled_after(capacity: nat, filled: nat, read: nat) -> nat {
    if filled + read <= capacity {
        filled + read
    } else {
        capacity
    }
}

/// The step after a read of `read` bytes into the buffer `bytes`, of which
/// `filled` were there before.
pub open spec fn read_step(bytes: Seq<u8>, filled: nat, read: nat) -> ReadStep {
    if read == 0 {
        ReadStep::ConnectionReset
    } else if contains(
        bytes.subrange(0, filled_after(bytes.len(), filled, read) as int),
        terminator(),
    ) {
        ReadStep::Complete
    } else {
        ReadStep::Continue
    }
}

/// Progress of reading one request into a buffer of `S` bytes. Its view is
/// the number of bytes read so far.
pub struct RequestReader<const S: usize> {
    filled: usize,
}

impl<const S: usize> View for RequestReader<S> {
    type V = nat;

    closed spec fn view(&self) -> nat {
        self.filled as nat
    }
}

impl<const S: usize> RequestReader<S> {
    #[verifier::type_invariant]
    spec fn within_buffer(&self) -> bool {
        self.filled <= S
    }

    /// Nothing read yet.
    pub fn new() -> (r: Self)
        ensures
            r@ == 0,
    {
        Self { filled: 0 }
    }

    /// How many bytes were read so far.
    pub fn filled(&self) -> (n: usize)
        ensures
            n == self@,
            n <= S,
    {
        proof {
            use_type_invariant(self);
        }
        self.filled
    }

    /// The bytes read so far.
    pub fn received<'b>(&self, buffer: &'b RequestBuffer<S>) -> (r: &'b [u8])
        ensures
            r@ == buffer@.subrange(0, self@ as int),
    {
        proof {
            use_type_invariant(self);
        }
        vstd::slice::slice_subrange(buffer.buffer(), 0, self.filled)
    }

    /// The part of the buffer that is still free: where the next read goes.
    /// What lies before it is not touched.
    pub fn free_region<'b>(&self, buffer: &'b mut RequestBuffer<S>) -> (r: &'b mut [u8])
        ensures
            r@ == old(buffer)@.subrange(self@ as int, S as int),
            final(r)@.len() == r@.len() ==> final(buffer)@ == old(buffer)@.subrange(
                0,
                self@ as int,
            ) + final(r)@,
    {
        proof {
            use_type_invariant(self);
        }
        let (_read, free) = buffer.buffer_mut().split_at_mut(self.filled);
        free
    }

    /// Accounts for a read that put `read` bytes into the free region and
    /// says how to go on. A read of nothing means the peer closed; then the
    /// count stays. A count that would pass the end of the buffer stops
    /// there.
    pub fn advance(&mut self, buffer: &RequestBuffer<S>, read: usize) -> (step: ReadStep)
        ensures
            step == read_step(buffer@, old(self)@, read as nat),
            final(self)@ == if read == 0 {
                old(self)@
            } else {
                filled_after(S as nat, old(self)@, read as nat)
            },
    {
        proof {
            use_type_invariant(&*self);
        }
        if read == 0 {
            return ReadStep::ConnectionReset;
        }
        let total = if read > S - self.filled {
            S
        } else {
            self.filled + read
        };
        self.filled = total;
        if headers_complete(self.received(buffer)) {
            ReadStep::Complete
        } else {
            ReadStep::Continue
        }
    }
}

impl<const S: usize> Default for RequestReader<S> {
    fn default() -> (r: Self)
        ensures
            r@ == 0,
    {
        Self::new()
    }
}

} // verus!

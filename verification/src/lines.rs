//! Incremental extraction of newline-terminated records from a byte stream.
//!
//! The reader hands over chunks as they arrive; complete lines come out one
//! at a time, without their terminator, and a trailing fragment waits for the
//! next chunk. No byte is lost and no line is reordered, so one malformed
//! line leaves every following line intact.

use vstd::prelude::*;
use vstd::slice::{slice_subrange, slice_to_vec};

verus! {

/// Buffers stream bytes and yields newline-terminated records.
pub struct LineSplitter {
    buffer: Vec<u8>,
}

impl View for LineSplitter {
    type V = Seq<u8>;

    closed spec fn view(&self) -> Seq<u8> {
        self.buffer@
    }
}

impl LineSplitter {
    /// An empty splitter.
    pub fn new() -> (r: LineSplitter)
        ensures
            r@ == Seq::<u8>::empty(),
    {
        LineSplitter { buffer: Vec::new() }
    }

    /// Appends one chunk of the stream.
    pub fn feed(&mut self, chunk: &[u8])
        ensures
            final (self)@ == old(self)@ + chunk@,
    {
        let n = chunk.len();
        let mut i: usize = 0;
        while i < n
            invariant
                0 <= i <= n,
                n == chunk@.len(),
                self@ == old(self)@ + chunk@.take(i as int),
            decreases n - i,
        {
            self.buffer.push(chunk[i]);
            proof {
                assert(old(self)@ + chunk@.take(i + 1) =~= (old(self)@ + chunk@.take(
                    i as int,
                )).push(chunk@[i as int]));
            }
            i = i + 1;
        }
        proof {
            assert(chunk@.take(n as int) =~= chunk@);
        }
    }

    /// Takes the next complete line, without its terminator; `None` while no
    /// newline is buffered, leaving everything in place.
    pub fn next_line(&mut self) -> (r: Option<Vec<u8>>)
        ensures
            r is None ==> final (self)@ == old(self)@ && (forall|i: int|
                0 <= i < old(self)@.len() ==> old(self)@[i] != 10),
            r matches Some(line) ==> {
                &&& line@.len() < old(self)@.len()
                &&& line@ == old(self)@.take(line@.len() as int)
                &&& old(self)@[line@.len() as int] == 10
                &&& (forall|i: int| 0 <= i < line@.len() ==> line@[i] != 10)
                &&& final (self)@ == old(self)@.skip(line@.len() as int + 1)
            },
    {
        let n = self.buffer.len();
        let mut i: usize = 0;
        while i < n
            invariant
                0 <= i <= n,
                n == self.buffer@.len(),
                self@ == old(self)@,
                forall|j: int| 0 <= j < i ==> self.buffer@[j] != 10,
            decreases n - i,
        {
            if self.buffer[i] == 10 {
                let line = slice_to_vec(slice_subrange(self.buffer.as_slice(), 0, i));
                let rest = slice_to_vec(
                    slice_subrange(self.buffer.as_slice(), i + 1, n),
                );
                self.buffer = rest;
                proof {
                    assert(line@ =~= old(self)@.take(i as int));
                    assert(final (self)@ =~= old(self)@.skip(i + 1));
                }
                return Some(line);
            }
            i = i + 1;
        }
        None
    }
}

/// Lines never bleed into one another: however a first line reads — malformed
/// or not — taking it leaves buffered exactly the bytes that followed its
/// terminator, so the next line is processed from its own bytes alone.
pub proof fn lemma_lines_are_independent(first: Seq<u8>, rest: Seq<u8>)
    ensures
        (first + seq![10u8] + rest).take(first.len() as int) == first,
        (first + seq![10u8] + rest)[first.len() as int] == 10,
        (first + seq![10u8] + rest).skip(first.len() as int + 1) == rest,
{
    let whole = first + seq![10u8] + rest;
    assert(whole.take(first.len() as int) =~= first);
    assert(whole.skip(first.len() as int + 1) =~= rest);
}

} // verus!

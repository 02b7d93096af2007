//! A deterministic transport double: it answers with a scripted list of
//! reports and records every report written to it, so tests can check the
//! exact byte traffic of a session.
use vstd::prelude::*;

use crate::command::copy_range;
use crate::Error;
use crate::ReadWrite;

verus! {

use vstd::pervasive::VecAdditionalExecFns;

/// A scripted HID device. Reads hand out `reads` in order and fail once the
/// script is exhausted; writes are appended to `writes`.
pub struct MyMock {
    /// The reports the device will answer with, in order.
    pub reads: Vec<Vec<u8>>,
    /// How many scripted reports were already handed out.
    pub next_read: usize,
    /// Every report the host wrote, in order.
    pub writes: Vec<Vec<u8>>,
}

impl MyMock {
    /// A mock that will answer with `reads`, in order, and has seen no
    /// traffic yet.
    pub fn new(reads: Vec<Vec<u8>>) -> (r: MyMock)
        ensures
            r.reads == reads,
            r.next_read == 0,
            r.writes@.len() == 0,
    {
        MyMock { reads, next_read: 0, writes: Vec::new() }
    }
}

impl ReadWrite for MyMock {
    /// Record the written report and accept all of it.
    fn hf2_write(&mut self, data: &Vec<u8>) -> (r: Result<usize, Error>)
        ensures
            r is Ok && r->Ok_0 == data@.len(),
            final(self).writes@.len() == old(self).writes@.len() + 1,
            final(self).writes@.last()@ == data@,
            forall|i: int|
                0 <= i < old(self).writes@.len() ==> final(self).writes@[i] == old(
                    self,
                ).writes@[i],
            final(self).reads == old(self).reads,
            final(self).next_read == old(self).next_read,
    {
        let copy = copy_range(data, 0, data.len());
        self.writes.push(copy);
        Ok(data.len())
    }

    /// Hand out the next scripted report, or fail once the script is
    /// exhausted: the report's bytes fill the front of `buf`, whose tail
    /// keeps its old contents.
    fn hf2_read(&mut self, buf: &mut Vec<u8>) -> (r: Result<usize, Error>)
        ensures
            final(self).reads == old(self).reads,
            final(self).writes == old(self).writes,
            old(self).next_read >= old(self).reads@.len() ==> (r is Err && r->Err_0
                == Error::Transmission && final(self).next_read == old(self).next_read
                && final(buf)@ == old(buf)@),
            old(self).next_read < old(self).reads@.len() ==> ({
                let rep = old(self).reads@[old(self).next_read as int]@;
                let n = vstd::math::min(rep.len() as int, old(buf)@.len() as int);
                &&& r is Ok && r->Ok_0 == n
                &&& final(self).next_read == old(self).next_read + 1
                &&& final(buf)@ == rep.subrange(0, n) + old(buf)@.subrange(
                    n,
                    old(buf)@.len() as int,
                )
            }),
    {
        if self.next_read >= self.reads.len() {
            return Err(Error::Transmission);
        }
        let ghost rep = self.reads@[self.next_read as int]@;
        let n: usize = if self.reads[self.next_read].len() <= buf.len() {
            self.reads[self.next_read].len()
        } else {
            buf.len()
        };
        proof {
            assert(buf@ =~= rep.subrange(0, 0) + old(buf)@.subrange(0, old(buf)@.len() as int));
        }
        let mut i: usize = 0;
        while i < n
            invariant
                i <= n,
                n <= old(buf)@.len(),
                n <= rep.len(),
                rep == self.reads@[self.next_read as int]@,
                self.next_read < self.reads@.len(),
                buf@.len() == old(buf)@.len(),
                *self == *old(self),
                buf@ == rep.subrange(0, i as int) + old(buf)@.subrange(
                    i as int,
                    old(buf)@.len() as int,
                ),
            decreases n - i,
        {
            let b: u8 = self.reads[self.next_read][i];
            buf.set(i, b);
            proof {
                assert(buf@ =~= rep.subrange(0, i as int + 1) + old(buf)@.subrange(
                    i as int + 1,
                    old(buf)@.len() as int,
                ));
            }
            i = i + 1;
        }
        self.next_read = self.next_read + 1;
        proof {
            assert(n == vstd::math::min(rep.len() as int, old(buf)@.len() as int));
        }
        Ok(n)
    }
}

} // verus!

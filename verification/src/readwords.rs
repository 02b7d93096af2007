//! The ReadWords command: the device reads a run of 32-bit words from a
//! word-aligned address, which also serves special IO regions that cannot
//! be read byte by byte.
use vstd::prelude::*;

use crate::command::{check_status, check_tag, le32_at, push_u32_le, read_u32_at, rx, xmit, u32_le};
use crate::Error;
use crate::ReadWrite;

verus! {

/// Opcode of the ReadWords command.
pub const READ_WORDS_ID: u32 = 0x0008;

/// The ReadWords command: read `num_words` words starting at the
/// word-aligned `target_address`.
pub struct ReadWords {
    /// Address of the first word; must be word-aligned.
    pub target_address: u32,
    /// How many words to read.
    pub num_words: u32,
}

/// What the device answered: the words, packed little-endian in order.
#[derive(Debug, PartialEq, Eq)]
pub struct ReadWordsResponse {
    /// The raw bytes of the words.
    pub words: Vec<u8>,
}

impl ReadWords {
    /// The command's payload: target address and word count, little-endian.
    pub fn encode(&self) -> (r: Vec<u8>)
        ensures
            r@ == u32_le(self.target_address) + u32_le(self.num_words),
            r@.len() == 8,
    {
        let mut r: Vec<u8> = Vec::new();
        push_u32_le(&mut r, self.target_address);
        push_u32_le(&mut r, self.num_words);
        r
    }

    /// Issue the command: send it, receive one response, check its echoed
    /// tag and its status, and keep its data. A failure is a transport
    /// error, a malformed response, a wrong tag, or a refusing status.
    pub fn send<T: ReadWrite>(&self, d: &mut T) -> (r: Result<ReadWordsResponse, Error>)
        ensures
            r is Ok ==> r->Ok_0.words@.len() >= 4,
            r is Err ==> (r->Err_0 == Error::Transmission || r->Err_0 == Error::Parse || r->Err_0
                == Error::Sequence || r->Err_0 == Error::CommandNotRecognized),
    {
        let payload = self.encode();
        xmit(READ_WORDS_ID, 0, &payload, d)?;
        let rsp = rx(d)?;
        let rsp = check_tag(0, rsp)?;
        let data = check_status(rsp)?;
        ReadWordsResponse::decode(data)
    }
}

impl ReadWordsResponse {
    /// Accept a response body that holds at least one word.
    pub fn decode(data: Vec<u8>) -> (r: Result<ReadWordsResponse, Error>)
        ensures
            r is Ok <==> data@.len() >= 4,
            r is Ok ==> r->Ok_0.words@ == data@,
            r is Err ==> r->Err_0 == Error::Parse,
    {
        if data.len() < 4 {
            return Err(Error::Parse);
        }
        Ok(ReadWordsResponse { words: data })
    }

    /// The words, in the order the device sent them; trailing bytes short
    /// of a word carry no value and are dropped.
    pub fn iter(&self) -> (r: Vec<u32>)
        ensures
            r@.len() == self.words@.len() / 4,
            forall|i: int| 0 <= i < r@.len() ==> r@[i] == le32_at(self.words@, 4 * i),
    {
        let n: usize = self.words.len();
        let count: usize = n / 4;
        proof {
            assert(4 * (count as int) <= n) by (nonlinear_arith)
                requires
                    count as int == n as int / 4,
            ;
        }
        let mut r: Vec<u32> = Vec::new();
        let mut i: usize = 0;
        while i < count
            invariant
                i <= count,
                n == self.words@.len(),
                count == self.words@.len() / 4,
                4 * (count as int) <= n,
                r@.len() == i,
                forall|j: int| 0 <= j < i ==> r@[j] == le32_at(self.words@, 4 * j),
            decreases count - i,
        {
            let w = read_u32_at(&self.words, 4 * i);
            r.push(w);
            i = i + 1;
        }
        r
    }
}

} // verus!

//! The WriteWords command, the dual of ReadWords: write a run of 32-bit
//! words at a word-aligned address. The device applies it silently — no
//! response ever arrives, so none is read.
use vstd::prelude::*;

use crate::command::{push_u32_le, xmit, u32_le};
use crate::Error;
use crate::ReadWrite;

verus! {

/// Opcode of the WriteWords command.
pub const WRITE_WORDS_ID: u32 = 0x0009;

/// The words of `ws`, each as four little-endian bytes, concatenated.
pub open spec fn spec_words_bytes(ws: Seq<u32>) -> Seq<u8>
    decreases ws.len(),
{
    if ws.len() == 0 {
        Seq::empty()
    } else {
        spec_words_bytes(ws.drop_last()) + u32_le(ws.last())
    }
}

/// The WriteWords command: write `words` starting at the word-aligned
/// `target_address`.
#[derive(Debug)]
pub struct WriteWords {
    /// Address of the first word; must be word-aligned.
    pub target_address: u32,
    /// How many words are written.
    pub num_words: u32,
    /// The words themselves.
    pub words: Vec<u32>,
}

impl WriteWords {
    /// The command's payload: target address, word count, then the words,
    /// all little-endian.
    pub fn encode(&self) -> (r: Vec<u8>)
        ensures
            r@ == u32_le(self.target_address) + u32_le(self.num_words) + spec_words_bytes(
                self.words@,
            ),
            r@.len() == 8 + 4 * self.words@.len(),
    {
        proof {
            lemma_words_bytes_len(self.words@);
        }
        let mut r: Vec<u8> = Vec::new();
        push_u32_le(&mut r, self.target_address);
        push_u32_le(&mut r, self.num_words);
        let ghost head = r@;
        let mut i: usize = 0;
        while i < self.words.len()
            invariant
                i <= self.words@.len(),
                r@ == head + spec_words_bytes(self.words@.subrange(0, i as int)),
            decreases self.words@.len() - i,
        {
            push_u32_le(&mut r, self.words[i]);
            proof {
                let ws = self.words@.subrange(0, i + 1);
                assert(ws.drop_last() =~= self.words@.subrange(0, i as int));
                assert(ws.last() == self.words@[i as int]);
            }
            i = i + 1;
        }
        proof {
            assert(self.words@.subrange(0, self.words@.len() as int) =~= self.words@);
        }
        r
    }

    /// Send the words. No response is awaited: the device either applies
    /// the write silently or drops it.
    pub fn send<T: ReadWrite>(&self, d: &mut T) -> (r: Result<(), Error>)
        requires
            self.words@.len() * 4 <= usize::MAX - 100,
        ensures
            r is Err ==> r->Err_0 == Error::Transmission,
    {
        let payload = self.encode();
        xmit(WRITE_WORDS_ID, 0, &payload, d)
    }
}

/// The packed form of `ws` takes four bytes per word.
pub proof fn lemma_words_bytes_len(ws: Seq<u32>)
    ensures
        spec_words_bytes(ws).len() == 4 * ws.len(),
    decreases ws.len(),
{
    if ws.len() > 0 {
        lemma_words_bytes_len(ws.drop_last());
    }
}

} // verus!

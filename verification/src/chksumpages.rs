//! The ChksumPages command: the device computes a CRC-16 checksum of each
//! of a run of flash pages, so the host can skip pages that already hold
//! the right bytes.
use vstd::prelude::*;

use crate::command::{check_status, check_tag, le16_at, push_u32_le, read_u16_at, rx, xmit, u32_le};
use crate::Error;
use crate::ReadWrite;

verus! {

/// Opcode of the ChksumPages command.
pub const CHKSUM_PAGES_ID: u32 = 0x0007;

/// The ChksumPages command: checksum `num_pages` pages starting at
/// `target_address`. A request may ask for at most
/// `max_message_size / 2 - 2` pages.
pub struct ChksumPages {
    /// Address of the first page to checksum.
    pub target_address: u32,
    /// How many consecutive pages to checksum.
    pub num_pages: u32,
}

/// What the device answered: the checksums, packed as little-endian u16
/// words in page order.
#[derive(Debug, PartialEq, Eq)]
pub struct ChksumPagesResponse {
    /// The raw bytes of the checksum words.
    pub chksums: Vec<u8>,
}

impl ChksumPages {
    /// The command's payload: target address and page count, little-endian.
    pub fn encode(&self) -> (r: Vec<u8>)
        ensures
            r@ == u32_le(self.target_address) + u32_le(self.num_pages),
            r@.len() == 8,
    {
        let mut r: Vec<u8> = Vec::new();
        push_u32_le(&mut r, self.target_address);
        push_u32_le(&mut r, self.num_pages);
        r
    }

    /// Issue the command: send it, receive one response, check its echoed
    /// tag and its status, and keep its data. A failure is a transport
    /// error, a malformed response, a wrong tag, or a refusing status.
    pub fn send<T: ReadWrite>(&self, d: &mut T) -> (r: Result<ChksumPagesResponse, Error>)
        ensures
            r is Ok ==> r->Ok_0.chksums@.len() >= 2,
            r is Err ==> (r->Err_0 == Error::Transmission || r->Err_0 == Error::Parse || r->Err_0
                == Error::Sequence || r->Err_0 == Error::CommandNotRecognized),
    {
        let payload = self.encode();
        xmit(CHKSUM_PAGES_ID, 0, &payload, d)?;
        let rsp = rx(d)?;
        let rsp = check_tag(0, rsp)?;
        let data = check_status(rsp)?;
        ChksumPagesResponse::decode(data)
    }
}

impl ChksumPagesResponse {
    /// Accept a response body that holds at least one checksum word.
    pub fn decode(data: Vec<u8>) -> (r: Result<ChksumPagesResponse, Error>)
        ensures
            r is Ok <==> data@.len() >= 2,
            r is Ok ==> r->Ok_0.chksums@ == data@,
            r is Err ==> r->Err_0 == Error::Parse,
    {
        if data.len() < 2 {
            return Err(Error::Parse);
        }
        Ok(ChksumPagesResponse { chksums: data })
    }

    /// The checksums, one u16 per page, in the order the device sent them;
    /// a trailing odd byte carries no checksum and is dropped.
    pub fn iter(&self) -> (r: Vec<u16>)
        ensures
            r@.len() == self.chksums@.len() / 2,
            forall|i: int| 0 <= i < r@.len() ==> r@[i] == le16_at(self.chksums@, 2 * i),
    {
        let n: usize = self.chksums.len();
        let count: usize = n / 2;
        proof {
            assert(2 * (count as int) <= n) by (nonlinear_arith)
                requires
                    count as int == n as int / 2,
            ;
        }
        let mut r: Vec<u16> = Vec::new();
        let mut i: usize = 0;
        while i < count
            invariant
                i <= count,
                n == self.chksums@.len(),
                count == self.chksums@.len() / 2,
                2 * (count as int) <= n,
                r@.len() == i,
                forall|j: int| 0 <= j < i ==> r@[j] == le16_at(self.chksums@, 2 * j),
            decreases count - i,
        {
            let w = read_u16_at(&self.chksums, 2 * i);
            r.push(w);
            i = i + 1;
        }
        r
    }
}

} // verus!

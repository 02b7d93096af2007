//! The WriteFlashPage command: write one whole flash page. The device
//! applies it silently — no response ever arrives, so none is read.
use vstd::prelude::*;

use crate::command::{copy_range, push_u32_le, xmit, u32_le};
use crate::Error;
use crate::ReadWrite;

verus! {

/// Opcode of the WriteFlashPage command.
pub const WRITE_FLASH_PAGE_ID: u32 = 0x0006;

/// The WriteFlashPage command: write `data`, one whole page, at
/// `target_address`. The data should be exactly `flash_page_size` bytes.
#[derive(Debug)]
pub struct WriteFlashPage {
    /// Address of the page to write; a multiple of the page size.
    pub target_address: u32,
    /// The page's new bytes.
    pub data: Vec<u8>,
}

impl WriteFlashPage {
    /// The command's payload: the target address, then the page bytes.
    pub fn encode(&self) -> (r: Vec<u8>)
        ensures
            r@ == u32_le(self.target_address) + self.data@,
            r@.len() == 4 + self.data@.len(),
    {
        let mut r: Vec<u8> = Vec::new();
        push_u32_le(&mut r, self.target_address);
        let mut body = copy_range(&self.data, 0, self.data.len());
        assert(body@ =~= self.data@);
        r.append(&mut body);
        r
    }

    /// Send the page. No response is awaited: the device either applies
    /// the write silently or drops it.
    pub fn send<T: ReadWrite>(&self, d: &mut T) -> (r: Result<(), Error>)
        requires
            self.data@.len() <= usize::MAX - 100,
        ensures
            r is Err ==> r->Err_0 == Error::Transmission,
    {
        let payload = self.encode();
        xmit(WRITE_FLASH_PAGE_ID, 0, &payload, d)
    }
}

} // verus!

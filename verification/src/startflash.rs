//! The StartFlash command: in user-space mode it hands control to the
//! bootloader; in bootloader mode it has no effect. The acknowledging
//! response is a barrier: its data carries nothing, but its status must
//! report success.
use vstd::prelude::*;

use crate::command::{check_status, check_tag, rx, xmit};
use crate::Error;
use crate::ReadWrite;

verus! {

/// Opcode of the StartFlash command.
pub const START_FLASH_ID: u32 = 0x0005;

/// The StartFlash command itself; it carries no payload.
pub struct StartFlash {}

impl StartFlash {
    /// Send the command and wait for its acknowledgement: the ack's tag
    /// and status are checked, its data is ignored. A failure is a
    /// transport error, a malformed response, a wrong tag, or a refusing
    /// status.
    pub fn send<T: ReadWrite>(&self, d: &mut T) -> (r: Result<(), Error>)
        ensures
            r is Err ==> (r->Err_0 == Error::Transmission || r->Err_0 == Error::Parse || r->Err_0
                == Error::Sequence || r->Err_0 == Error::CommandNotRecognized),
    {
        let payload: Vec<u8> = Vec::new();
        xmit(START_FLASH_ID, 0, &payload, d)?;
        let rsp = rx(d)?;
        let rsp = check_tag(0, rsp)?;
        match check_status(rsp) {
            Ok(_) => Ok(()),
            Err(e) => Err(e),
        }
    }
}

} // verus!

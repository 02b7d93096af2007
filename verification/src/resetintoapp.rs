//! The ResetIntoApp command: reboot the device into its user-space
//! application. The device resets at once, so no response ever arrives and
//! none is read.
use vstd::prelude::*;

use crate::command::xmit;
use crate::Error;
use crate::ReadWrite;

verus! {

/// Opcode of the ResetIntoApp command.
pub const RESET_INTO_APP_ID: u32 = 0x0003;

/// The ResetIntoApp command itself; it carries no payload.
pub struct ResetIntoApp {}

impl ResetIntoApp {
    /// Send the command. The session usually ends here: the device
    /// disconnects as it reboots.
    pub fn send<T: ReadWrite>(&self, d: &mut T) -> (r: Result<(), Error>)
        ensures
            r is Err ==> r->Err_0 == Error::Transmission,
    {
        let payload: Vec<u8> = Vec::new();
        xmit(RESET_INTO_APP_ID, 0, &payload, d)
    }
}

} // verus!

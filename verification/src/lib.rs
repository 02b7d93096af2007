//! Host-side client for the HF2 flashing protocol: framing of commands onto
//! fixed-size HID reports, the command set of the bootloader, and the
//! checksum-driven algorithm that rewrites only the flash pages that differ.
use vstd::prelude::*;

pub mod bininfo;
pub mod chksumpages;
pub mod command;
pub mod crc16;
pub mod dmesg;
pub mod elf;
pub mod info;
pub mod mock;
pub mod readwords;
pub mod report;
pub mod resetintoapp;
pub mod resetintobootloader;
pub mod startflash;
pub mod text;
pub mod utils;
pub mod writeflashpage;
pub mod writewords;

pub use command::CommandResponse;
pub use command::CommandResponseStatus;
pub use report::PacketKind;

verus! {

/// Errors of the protocol layer.
#[derive(Clone, Copy, Debug, PartialEq, Eq)]
pub enum Error {
    /// A caller handed arguments the command cannot carry.
    Arguments,
    /// A malformed frame or response: truncated response, bad status value,
    /// text that is not UTF-8.
    Parse,
    /// The device answered with a non-success status.
    CommandNotRecognized,
    /// The device reported a failure while executing a command.
    Execution,
    /// A response did not belong to the request.
    Sequence,
    /// The transport failed to carry a report.
    Transmission,
}

/// The transport the protocol runs on: one 64-byte HID report out, one in.
/// Implemented by [`crate::mock::MyMock`] for tests; a real HID device is
/// wrapped outside the library.
pub trait ReadWrite {
    /// Send one report to the device. The count of bytes accepted is
    /// returned; a failed or timed-out write is an error.
    fn hf2_write(&mut self, data: &Vec<u8>) -> (r: Result<usize, Error>);

    /// Receive one report from the device into `buf`, which keeps its
    /// length; at most `buf.len()` bytes are filled.
    fn hf2_read(&mut self, buf: &mut Vec<u8>) -> (r: Result<usize, Error>)
        ensures
            final(buf)@.len() == old(buf)@.len(),
            r is Ok ==> r->Ok_0 <= old(buf)@.len(),
    ;
}

} // verus!

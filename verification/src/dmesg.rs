//! The Dmesg command: the device hands out its internal log buffer, when it
//! supports one; a device without the command reports a normal failure
//! status, which surfaces as an error and not as a panic.
use vstd::prelude::*;

use crate::command::{check_status, check_tag, rx, xmit};
use crate::text::{decode_utf8, utf8_chars};
use crate::Error;
use crate::ReadWrite;

verus! {

/// Opcode of the Dmesg command.
pub const DMESG_ID: u32 = 0x0010;

/// The Dmesg command itself; it carries no payload.
pub struct Dmesg {}

/// What the device answered to Dmesg.
#[derive(Debug, PartialEq, Eq)]
pub struct DmesgResponse {
    /// The device's log buffer.
    pub logs: String,
}

impl DmesgResponse {
    /// Parse a Dmesg response: the whole data is one UTF-8 string, and
    /// anything else is a parse error.
    pub fn decode(data: &Vec<u8>) -> (r: Result<DmesgResponse, Error>)
        ensures
            r is Ok <==> utf8_chars(data@) is Some,
            r is Ok ==> r->Ok_0.logs@ == utf8_chars(data@)->Some_0,
            r is Err ==> r->Err_0 == Error::Parse,
    {
        match decode_utf8(data) {
            Ok(logs) => Ok(DmesgResponse { logs }),
            Err(e) => Err(e),
        }
    }
}

impl Dmesg {
    /// Query the device: send Dmesg, receive one response, check its echoed
    /// tag and its status, and decode its data. A success is the UTF-8
    /// reading of some response data; a failure is a transport error, a
    /// malformed response, a wrong tag, or a refusing status — a device
    /// without the command refuses it by status, which is recoverable.
    pub fn send<T: ReadWrite>(&self, d: &mut T) -> (r: Result<DmesgResponse, Error>)
        ensures
            r is Ok ==> exists|data: Seq<u8>|
                (#[trigger] utf8_chars(data)) is Some && r->Ok_0.logs@ == utf8_chars(
                    data,
                )->Some_0,
            r is Err ==> (r->Err_0 == Error::Transmission || r->Err_0 == Error::Parse || r->Err_0
                == Error::Sequence || r->Err_0 == Error::CommandNotRecognized),
    {
        let payload: Vec<u8> = Vec::new();
        xmit(DMESG_ID, 0, &payload, d)?;
        let rsp = rx(d)?;
        let rsp = check_tag(0, rsp)?;
        let data = check_status(rsp)?;
        let r = DmesgResponse::decode(&data);
        proof {
            if r is Ok {
                assert(utf8_chars(data@) is Some && r->Ok_0.logs@ == utf8_chars(data@)->Some_0);
            }
        }
        r
    }
}

} // verus!

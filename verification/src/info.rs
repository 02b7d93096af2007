//! The Info command: the device describes itself in a line of text.
use vstd::prelude::*;

use crate::command::{check_status, check_tag, rx, xmit};
use crate::text::{decode_utf8, utf8_chars};
use crate::Error;
use crate::ReadWrite;

verus! {

/// Opcode of the Info command.
pub const INFO_ID: u32 = 0x0002;

/// The Info command itself; it carries no payload.
pub struct Info {}

/// What the device answered to Info.
#[derive(Debug, PartialEq, Eq)]
pub struct InfoResponse {
    /// The device's description of itself.
    pub info: String,
}

impl InfoResponse {
    /// Parse an Info response: the whole data is one UTF-8 string, and
    /// anything else is a parse error.
    pub fn decode(data: &Vec<u8>) -> (r: Result<InfoResponse, Error>)
        ensures
            r is Ok <==> utf8_chars(data@) is Some,
            r is Ok ==> r->Ok_0.info@ == utf8_chars(data@)->Some_0,
            r is Err ==> r->Err_0 == Error::Parse,
    {
        match decode_utf8(data) {
            Ok(info) => Ok(InfoResponse { info }),
            Err(e) => Err(e),
        }
    }
}

impl Info {
    /// Query the device: send Info, receive one response, check its echoed
    /// tag and its status, and decode its data. A success is the UTF-8
    /// reading of some response data; a failure is a transport error, a
    /// malformed response, a wrong tag, or a refusing status.
    pub fn send<T: ReadWrite>(&self, d: &mut T) -> (r: Result<InfoResponse, Error>)
        ensures
            r is Ok ==> exists|data: Seq<u8>|
                (#[trigger] utf8_chars(data)) is Some && r->Ok_0.info@ == utf8_chars(
                    data,
                )->Some_0,
            r is Err ==> (r->Err_0 == Error::Transmission || r->Err_0 == Error::Parse || r->Err_0
                == Error::Sequence || r->Err_0 == Error::CommandNotRecognized),
    {
        let payload: Vec<u8> = Vec::new();
        xmit(INFO_ID, 0, &payload, d)?;
        let rsp = rx(d)?;
        let rsp = check_tag(0, rsp)?;
        let data = check_status(rsp)?;
        let r = InfoResponse::decode(&data);
        proof {
            if r is Ok {
                assert(utf8_chars(data@) is Some && r->Ok_0.info@ == utf8_chars(data@)->Some_0);
            }
        }
        r
    }
}

} // verus!

//! The BinInfo command: the device states its current mode, its flash
//! geometry, the largest message it accepts, and its chip family.
use vstd::prelude::*;

use crate::command::{check_status, check_tag, le32_at, read_u32_at, rx, xmit};
use crate::Error;
use crate::ReadWrite;

verus! {

/// Opcode of the BinInfo command.
pub const BIN_INFO_ID: u32 = 0x0001;

/// The mode a device reports itself in.
#[derive(Clone, Copy, Debug, PartialEq, Eq, Structural)]
pub enum BinInfoMode {
    /// The bootloader runs, and user-space programs may be flashed.
    Bootloader,
    /// A user-space program runs; StartFlash hands over to the bootloader.
    User,
}

/// The chip family a device belongs to, with a fallback that keeps
/// unrecognized values instead of failing.
#[allow(non_camel_case_types)]
#[derive(Clone, Copy, Debug, PartialEq, Eq, Structural)]
pub enum FamilyId {
    ATSAMD21,
    ATSAMD51,
    NRF52840,
    STM32F103,
    STM32F401,
    ATMEGA32,
    CYPRESS_FX2,
    UNKNOWN(u32),
}

/// Which family a raw identifier word names.
pub open spec fn spec_family_id(val: u32) -> FamilyId {
    if val == 0x68ed_2b88 {
        FamilyId::ATSAMD21
    } else if val == 0x5511_4460 {
        FamilyId::ATSAMD51
    } else if val == 0x1b57_745f {
        FamilyId::NRF52840
    } else if val == 0x5ee2_1072 {
        FamilyId::STM32F103
    } else if val == 0x5775_5a57 {
        FamilyId::STM32F401
    } else if val == 0x1657_3617 {
        FamilyId::ATMEGA32
    } else if val == 0x5a18_069b {
        FamilyId::CYPRESS_FX2
    } else {
        FamilyId::UNKNOWN(val)
    }
}

impl core::convert::From<u32> for FamilyId {
    fn from(val: u32) -> (r: FamilyId) {
        match val {
            0x68ed_2b88 => FamilyId::ATSAMD21,
            0x5511_4460 => FamilyId::ATSAMD51,
            0x1b57_745f => FamilyId::NRF52840,
            0x5ee2_1072 => FamilyId::STM32F103,
            0x5775_5a57 => FamilyId::STM32F401,
            0x1657_3617 => FamilyId::ATMEGA32,
            0x5a18_069b => FamilyId::CYPRESS_FX2,
            _ => FamilyId::UNKNOWN(val),
        }
    }
}

impl vstd::std_specs::convert::FromSpecImpl<u32> for FamilyId {
    open spec fn obeys_from_spec() -> bool {
        true
    }

    open spec fn from_spec(val: u32) -> FamilyId {
        spec_family_id(val)
    }
}

/// The BinInfo command itself; it carries no payload.
pub struct BinInfo {}

/// What the device answered to BinInfo.
#[derive(Clone, Copy, Debug, PartialEq)]
pub struct BinInfoResponse {
    /// Whether the bootloader or a user-space program runs.
    pub mode: BinInfoMode,
    /// Flash is written in pages of this many bytes.
    pub flash_page_size: u32,
    /// How many pages the flash holds.
    pub flash_num_pages: u32,
    /// The largest message the device accepts.
    pub max_message_size: u32,
    /// The chip family, when the device reports one.
    pub family_id: Option<FamilyId>,
}

/// The response `b` is what the data bytes `data` decode to: four
/// little-endian words (mode, page size, page count, message size) and an
/// optional fifth, the family.
pub open spec fn spec_bininfo_fields(data: Seq<u8>, b: BinInfoResponse) -> bool {
    &&& data.len() >= 16
    &&& (le32_at(data, 0) == 1 || le32_at(data, 0) == 2)
    &&& b.mode == (if le32_at(data, 0) == 1 {
        BinInfoMode::Bootloader
    } else {
        BinInfoMode::User
    })
    &&& b.flash_page_size == le32_at(data, 4)
    &&& b.flash_num_pages == le32_at(data, 8)
    &&& b.max_message_size == le32_at(data, 12)
    &&& b.family_id == (if data.len() >= 20 {
        Some(spec_family_id(le32_at(data, 16) as u32))
    } else {
        None::<FamilyId>
    })
}

impl BinInfoResponse {
    /// Parse a BinInfo response: four little-endian words (mode, page size,
    /// page count, message size) and an optional fifth, the family.
    /// A mode outside {1, 2} or a short buffer is a parse error.
    pub fn decode(data: &Vec<u8>) -> (r: Result<BinInfoResponse, Error>)
        ensures
            r is Ok <==> (data@.len() >= 16 && (le32_at(data@, 0) == 1 || le32_at(data@, 0) == 2)),
            r is Ok ==> spec_bininfo_fields(data@, r->Ok_0),
            r is Err ==> r->Err_0 == Error::Parse,
    {
        if data.len() < 16 {
            return Err(Error::Parse);
        }
        let mode_val = read_u32_at(data, 0);
        let mode = if mode_val == 1 {
            BinInfoMode::Bootloader
        } else if mode_val == 2 {
            BinInfoMode::User
        } else {
            return Err(Error::Parse);
        };
        let flash_page_size = read_u32_at(data, 4);
        let flash_num_pages = read_u32_at(data, 8);
        let max_message_size = read_u32_at(data, 12);
        let family_id = if data.len() >= 20 {
            Some(FamilyId::from(read_u32_at(data, 16)))
        } else {
            None
        };
        Ok(BinInfoResponse { mode, flash_page_size, flash_num_pages, max_message_size, family_id })
    }
}

impl BinInfo {
    /// Query the device: send BinInfo, receive one response, check its
    /// echoed tag and its status, and decode its data. A success is the
    /// decoder's reading of some response data; a failure is a transport
    /// error, a malformed response, a wrong tag, or a refusing status.
    pub fn send<T: ReadWrite>(&self, d: &mut T) -> (r: Result<BinInfoResponse, Error>)
        ensures
            r is Ok ==> exists|data: Seq<u8>| #[trigger] spec_bininfo_fields(data, r->Ok_0),
            r is Err ==> (r->Err_0 == Error::Transmission || r->Err_0 == Error::Parse || r->Err_0
                == Error::Sequence || r->Err_0 == Error::CommandNotRecognized),
    {
        let payload: Vec<u8> = Vec::new();
        xmit(BIN_INFO_ID, 0, &payload, d)?;
        let rsp = rx(d)?;
        let rsp = check_tag(0, rsp)?;
        let data = check_status(rsp)?;
        let r = BinInfoResponse::decode(&data);
        proof {
            if r is Ok {
                assert(spec_bininfo_fields(data@, r->Ok_0));
            }
        }
        r
    }
}

} // verus!

//! The 64-byte HID report: a one-byte header (packet kind in the top two
//! bits, payload length in the low six) followed by up to 63 payload bytes.
use vstd::prelude::*;

verus! {

/// Every report is exactly this many bytes.
pub const REPORT_SIZE: usize = 64;

/// A report carries at most this many payload bytes.
pub const MAX_PAYLOAD: usize = 63;

/// The kind of one report, held in bits 7..6 of its header byte.
#[derive(Clone, Copy, Debug, PartialEq, Eq, Structural)]
pub enum PacketKind {
    /// More reports of the same message follow.
    Inner,
    /// The last report of a message.
    Final,
    /// A byte of the device's standard output stream.
    StdOut,
    /// A byte of the device's standard error stream.
    Stderr,
}

/// The value a kind occupies in the header's top two bits.
pub open spec fn kind_value(k: PacketKind) -> u8 {
    match k {
        PacketKind::Inner => 0,
        PacketKind::Final => 1,
        PacketKind::StdOut => 2,
        PacketKind::Stderr => 3,
    }
}

/// The kind bits of an encoded report.
pub open spec fn report_kind_bits(r: Seq<u8>) -> int {
    r[0] as int / 64
}

/// The payload length an encoded report declares.
pub open spec fn report_len(r: Seq<u8>) -> int {
    r[0] as int % 64
}

/// The payload bytes an encoded report carries.
pub open spec fn report_payload(r: Seq<u8>) -> Seq<u8>
    recommends
        r.len() == REPORT_SIZE,
{
    r.subrange(1, 1 + report_len(r))
}

/// Build one report: header byte, payload, zero padding up to 64 bytes.
pub fn encode_report(kind: PacketKind, payload: &Vec<u8>) -> (r: Vec<u8>)
    requires
        payload@.len() <= MAX_PAYLOAD,
    ensures
        r@.len() == REPORT_SIZE,
        report_kind_bits(r@) == kind_value(kind),
        report_len(r@) == payload@.len(),
        report_payload(r@) == payload@,
        forall|i: int| 1 + payload@.len() <= i < REPORT_SIZE ==> r@[i] == 0,
{
    let kv: u8 = match kind {
        PacketKind::Inner => 0,
        PacketKind::Final => 1,
        PacketKind::StdOut => 2,
        PacketKind::Stderr => 3,
    };
    let header: u8 = kv * 64 + payload.len() as u8;
    let mut r: Vec<u8> = Vec::new();
    r.push(header);
    let mut i: usize = 0;
    while i < payload.len()
        invariant
            i <= payload@.len(),
            payload@.len() <= MAX_PAYLOAD,
            r@.len() == 1 + i,
            r@[0] == header,
            r@.subrange(1, 1 + i as int) == payload@.subrange(0, i as int),
        decreases payload@.len() - i,
    {
        r.push(payload[i]);
        assert(r@.subrange(1, 2 + i as int) == payload@.subrange(0, i as int + 1));
        i = i + 1;
    }
    assert(payload@.subrange(0, payload@.len() as int) == payload@);
    while r.len() < REPORT_SIZE
        invariant
            1 + payload@.len() <= r@.len() <= REPORT_SIZE,
            payload@.len() <= MAX_PAYLOAD,
            r@[0] == header,
            r@.subrange(1, 1 + payload@.len() as int) == payload@,
            forall|i: int| 1 + payload@.len() <= i < r@.len() ==> r@[i] == 0,
        decreases REPORT_SIZE - r@.len(),
    {
        r.push(0u8);
        assert(r@.subrange(1, 1 + payload@.len() as int) == payload@);
    }
    assert(header == kv * 64 + payload@.len());
    assert(report_kind_bits(r@) == kv && report_len(r@) == payload@.len()) by {
        assert((kv * 64 + payload@.len()) as int / 64 == kv && (kv * 64 + payload@.len()) as int
            % 64 == payload@.len()) by (nonlinear_arith)
            requires
                kv <= 3,
                payload@.len() <= 63,
        ;
    }
    assert(report_payload(r@) == payload@);
    r
}

/// Split one report into its kind and a copy of its payload bytes.
pub fn decode_report(report: &Vec<u8>) -> (r: (PacketKind, Vec<u8>))
    requires
        report@.len() == REPORT_SIZE,
    ensures
        kind_value(r.0) == report_kind_bits(report@),
        r.1@ == report_payload(report@),
{
    let header: u8 = report[0];
    let kind: PacketKind = match header / 64 {
        0 => PacketKind::Inner,
        1 => PacketKind::Final,
        2 => PacketKind::StdOut,
        _ => PacketKind::Stderr,
    };
    assert(header / 64 <= 3) by (bit_vector);
    let len: usize = (header % 64) as usize;
    assert(header % 64 <= 63) by (bit_vector);
    let mut payload: Vec<u8> = Vec::new();
    let mut i: usize = 0;
    while i < len
        invariant
            i <= len,
            len == report_len(report@),
            report@.len() == REPORT_SIZE,
            payload@ == report@.subrange(1, 1 + i as int),
        decreases len - i,
    {
        payload.push(report[1 + i]);
        assert(payload@ == report@.subrange(1, 2 + i as int));
        i = i + 1;
    }
    (kind, payload)
}

} // verus!

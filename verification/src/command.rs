//! The command channel: an arbitrary-length command is fragmented onto
//! 64-byte reports, and the reports of a response are reassembled and parsed
//! into a [`CommandResponse`].
use vstd::prelude::*;

use crate::report::{
    decode_report, encode_report, kind_value, report_kind_bits, report_len, report_payload,
    PacketKind, MAX_PAYLOAD, REPORT_SIZE,
};
use crate::Error;
use crate::ReadWrite;

verus! {

/// Copy the bytes `v[start..end]` into a fresh vector.
pub fn copy_range(v: &Vec<u8>, start: usize, end: usize) -> (r: Vec<u8>)
    requires
        start <= end <= v@.len(),
    ensures
        r@ == v@.subrange(start as int, end as int),
{
    vstd::slice::slice_to_vec(vstd::slice::slice_subrange(v.as_slice(), start, end))
}

/// The value of the little-endian u16 at offset `i` of `b`.
pub open spec fn le16_at(b: Seq<u8>, i: int) -> int {
    b[i] + 0x100 * b[i + 1]
}

/// The value of the little-endian u32 at offset `i` of `b`.
pub open spec fn le32_at(b: Seq<u8>, i: int) -> int {
    b[i] + 0x100 * b[i + 1] + 0x1_0000 * b[i + 2] + 0x100_0000 * b[i + 3]
}

/// The two little-endian bytes of `x`.
pub open spec fn u16_le(x: u16) -> Seq<u8> {
    seq![(x % 0x100) as u8, ((x / 0x100) % 0x100) as u8]
}

/// The four little-endian bytes of `x`.
pub open spec fn u32_le(x: u32) -> Seq<u8> {
    seq![
        (x % 0x100) as u8,
        ((x / 0x100) % 0x100) as u8,
        ((x / 0x1_0000) % 0x100) as u8,
        ((x / 0x100_0000) % 0x100) as u8,
    ]
}

/// Read the little-endian u16 at offset `i` of `v`.
pub fn read_u16_at(v: &Vec<u8>, i: usize) -> (r: u16)
    requires
        i + 2 <= v@.len(),
    ensures
        r == le16_at(v@, i as int),
{
    let n = v.len();
    assert(i + 2 <= n);
    let b0 = v[i] as u16;
    let b1 = v[i + 1] as u16;
    b0 + b1 * 0x100
}

/// Read the little-endian u32 at offset `i` of `v`.
pub fn read_u32_at(v: &Vec<u8>, i: usize) -> (r: u32)
    requires
        i + 4 <= v@.len(),
    ensures
        r == le32_at(v@, i as int),
{
    let n = v.len();
    assert(i + 4 <= n);
    let b0 = v[i] as u32;
    let b1 = v[i + 1] as u32;
    let b2 = v[i + 2] as u32;
    let b3 = v[i + 3] as u32;
    b0 + b1 * 0x100 + b2 * 0x1_0000 + b3 * 0x100_0000
}

/// Append the two little-endian bytes of `x` to `out`.
pub fn push_u16_le(out: &mut Vec<u8>, x: u16)
    ensures
        final(out)@ == old(out)@ + u16_le(x),
{
    let ghost before = out@;
    out.push((x % 0x100) as u8);
    out.push(((x / 0x100) % 0x100) as u8);
    assert(out@ =~= before + u16_le(x));
}

/// Append the four little-endian bytes of `x` to `out`.
pub fn push_u32_le(out: &mut Vec<u8>, x: u32)
    ensures
        final(out)@ == old(out)@ + u32_le(x),
{
    let ghost before = out@;
    out.push((x % 0x100) as u8);
    out.push(((x / 0x100) % 0x100) as u8);
    out.push(((x / 0x1_0000) % 0x100) as u8);
    out.push(((x / 0x100_0000) % 0x100) as u8);
    assert(out@ =~= before + u32_le(x));
}

/// The views of a sequence of byte vectors.
pub open spec fn views_of(rs: Seq<Vec<u8>>) -> Seq<Seq<u8>> {
    rs.map_values(|v: Vec<u8>| v@)
}

/// How many reports a message of `n` bytes needs: 63 payload bytes each,
/// rounded up.
pub open spec fn num_reports(n: int) -> int {
    (n + 62) / 63
}

/// Where the payload of report `i` ends within the message.
pub open spec fn chunk_end(n: int, i: int) -> int {
    if 63 * (i + 1) <= n {
        63 * (i + 1)
    } else {
        n
    }
}

/// The reports `rs` carry the message `m`: one report per 63-byte chunk,
/// each 64 bytes long, its header declaring the chunk's length, `Final` on
/// the report that reaches the end of `m` and `Inner` before it.
pub open spec fn is_report_stream_for(rs: Seq<Seq<u8>>, m: Seq<u8>) -> bool {
    &&& rs.len() == num_reports(m.len() as int)
    &&& forall|i: int| 0 <= i < rs.len() ==> (#[trigger] rs[i]).len() == REPORT_SIZE
    &&& forall|i: int|
        0 <= i < rs.len() ==> report_payload(#[trigger] rs[i]) == m.subrange(
            63 * i,
            chunk_end(m.len() as int, i),
        )
    &&& forall|i: int|
        0 <= i < rs.len() ==> report_kind_bits(#[trigger] rs[i]) == (if 63 * (i + 1) < m.len() {
            kind_value(PacketKind::Inner) as int
        } else {
            kind_value(PacketKind::Final) as int
        })
}

/// The payload bytes of `rs`, concatenated in order.
pub open spec fn concat_payloads(rs: Seq<Seq<u8>>) -> Seq<u8>
    decreases rs.len(),
{
    if rs.len() == 0 {
        Seq::empty()
    } else {
        report_payload(rs[0]) + concat_payloads(rs.subrange(1, rs.len() as int))
    }
}

/// Reassembling a report stream gives back the message it was made from,
/// byte for byte; `Final` marks exactly the last report, `Inner` all the
/// ones before it, and no report carries more than 63 payload bytes.
pub proof fn lemma_report_stream_reassembles(rs: Seq<Seq<u8>>, m: Seq<u8>)
    requires
        m.len() >= 1,
        is_report_stream_for(rs, m),
    ensures
        concat_payloads(rs) == m,
        rs.len() >= 1,
        forall|i: int|
            0 <= i < rs.len() - 1 ==> report_kind_bits(#[trigger] rs[i]) == kind_value(
                PacketKind::Inner,
            ),
        report_kind_bits(rs[rs.len() - 1]) == kind_value(PacketKind::Final),
        forall|i: int| 0 <= i < rs.len() ==> 0 <= report_len(#[trigger] rs[i]) <= MAX_PAYLOAD,
    decreases rs.len(),
{
    let n = m.len() as int;
    assert(num_reports(n) >= 1 && 63 * (num_reports(n) - 1) < n <= 63 * num_reports(n))
        by (nonlinear_arith)
        requires
            n >= 1,
    ;
    assert forall|i: int| 0 <= i < rs.len() implies 0 <= report_len(#[trigger] rs[i])
        <= MAX_PAYLOAD by {
        assert(report_payload(rs[i]).len() == chunk_end(n, i) - 63 * i);
        assert(report_len(rs[i]) == chunk_end(n, i) - 63 * i);
        assert(chunk_end(n, i) - 63 * i <= 63);
    }
    assert forall|i: int|
        0 <= i < rs.len() - 1 implies report_kind_bits(#[trigger] rs[i]) == kind_value(
        PacketKind::Inner,
    ) by {
        assert(63 * (i + 1) <= 63 * (rs.len() - 1)) by (nonlinear_arith)
            requires
                i + 1 <= rs.len() - 1,
        ;
    }
    if m.len() <= 63 {
        assert(rs.len() == 1);
        assert(report_payload(rs[0]) == m.subrange(0, n));
        assert(m.subrange(0, n) =~= m);
        assert(concat_payloads(rs.subrange(1, 1)) == Seq::<u8>::empty());
        assert(concat_payloads(rs) =~= m);
    } else {
        let m2 = m.subrange(63, n);
        let rs2 = rs.subrange(1, rs.len() as int);
        assert(num_reports(n - 63) == num_reports(n) - 1) by (nonlinear_arith)
            requires
                n > 63,
        ;
        assert forall|i: int| 0 <= i < rs2.len() implies report_payload(#[trigger] rs2[i])
            == m2.subrange(63 * i, chunk_end(m2.len() as int, i)) by {
            assert(rs2[i] == rs[i + 1]);
            assert(report_payload(rs[i + 1]) == m.subrange(63 * (i + 1), chunk_end(n, i + 1)));
            assert(m2.subrange(63 * i, chunk_end(m2.len() as int, i)) =~= m.subrange(
                63 * (i + 1),
                chunk_end(n, i + 1),
            ));
        }
        assert forall|i: int| 0 <= i < rs2.len() implies report_kind_bits(#[trigger] rs2[i]) == (
        if 63 * (i + 1) < m2.len() {
            kind_value(PacketKind::Inner) as int
        } else {
            kind_value(PacketKind::Final) as int
        }) by {
            assert(rs2[i] == rs[i + 1]);
            assert(63 * (i + 2) == 63 * (i + 1) + 63);
        }
        assert(is_report_stream_for(rs2, m2));
        lemma_report_stream_reassembles(rs2, m2);
        assert(report_payload(rs[0]) == m.subrange(0, 63));
        assert(concat_payloads(rs) == report_payload(rs[0]) + concat_payloads(rs2));
        assert(m =~= m.subrange(0, 63) + m2);
    }
}

/// Fragment `message` into its stream of reports.
pub fn encode_reports(message: &Vec<u8>) -> (rs: Vec<Vec<u8>>)
    requires
        1 <= message@.len() <= usize::MAX - 62,
    ensures
        is_report_stream_for(views_of(rs@), message@),
{
    let total: usize = message.len();
    let mut rs: Vec<Vec<u8>> = Vec::new();
    let mut off: usize = 0;
    while off < total
        invariant
            total == message@.len(),
            1 <= total <= usize::MAX - 62,
            off <= total,
            off < total ==> off == 63 * rs@.len(),
            off == total ==> rs@.len() == num_reports(total as int),
            rs@.len() <= num_reports(total as int),
            forall|i: int| 0 <= i < rs@.len() ==> (#[trigger] rs@[i])@.len() == REPORT_SIZE,
            forall|i: int|
                0 <= i < rs@.len() ==> report_payload((#[trigger] rs@[i])@) == message@.subrange(
                    63 * i,
                    chunk_end(total as int, i),
                ),
            forall|i: int|
                0 <= i < rs@.len() ==> report_kind_bits((#[trigger] rs@[i])@) == (if 63 * (i + 1)
                    < total {
                    kind_value(PacketKind::Inner) as int
                } else {
                    kind_value(PacketKind::Final) as int
                }),
        decreases total - off,
    {
        let ghost k = rs@.len() as int;
        let end: usize = if total - off > 63 {
            off + 63
        } else {
            total
        };
        let chunk = copy_range(message, off, end);
        let kind = if end == total {
            PacketKind::Final
        } else {
            PacketKind::Inner
        };
        let rep = encode_report(kind, &chunk);
        rs.push(rep);
        proof {
            assert(off == 63 * k);
            assert(chunk_end(total as int, k) == end);
            assert(report_payload(rep@) == chunk@);
            if end == total {
                assert(rs@.len() == num_reports(total as int)) by (nonlinear_arith)
                    requires
                        rs@.len() == k + 1,
                        63 * k < total <= 63 * (k + 1),
                        total == end,
                ;
            } else {
                assert(end == 63 * (k + 1));
            }
        }
        off = end;
    }
    rs
}

/// The fixed 8-byte command header (id, tag, two reserved zero bytes)
/// followed by the command's payload.
pub open spec fn spec_command_bytes(id: u32, tag: u16, payload: Seq<u8>) -> Seq<u8> {
    u32_le(id) + u16_le(tag) + seq![0u8, 0u8] + payload
}

/// Build the logical byte stream of one command.
pub fn command_bytes(id: u32, tag: u16, payload: &Vec<u8>) -> (r: Vec<u8>)
    requires
        payload@.len() <= usize::MAX - 8,
    ensures
        r@ == spec_command_bytes(id, tag, payload@),
        r@.len() == payload@.len() + 8,
{
    let mut r: Vec<u8> = Vec::new();
    push_u32_le(&mut r, id);
    push_u16_le(&mut r, tag);
    r.push(0u8);
    r.push(0u8);
    let mut p = copy_range(payload, 0, payload.len());
    assert(p@ =~= payload@);
    r.append(&mut p);
    assert(r@ =~= spec_command_bytes(id, tag, payload@));
    r
}

/// The status a device reports in a response.
#[derive(Clone, Copy, Debug, PartialEq, Eq, Structural)]
pub enum CommandResponseStatus {
    /// The command was executed.
    Success,
    /// The device could not parse the command.
    ParseError,
    /// The device failed while executing the command.
    ExecutionError,
}

/// The byte value of a status.
pub open spec fn status_value(s: CommandResponseStatus) -> u8 {
    match s {
        CommandResponseStatus::Success => 0,
        CommandResponseStatus::ParseError => 1,
        CommandResponseStatus::ExecutionError => 2,
    }
}

/// One reassembled response: the echoed tag, the status pair, and the
/// command-specific data that follows them.
#[derive(Debug, PartialEq)]
pub struct CommandResponse {
    /// The correlation number echoed from the request.
    pub tag: u16,
    /// Whether the device accepted the command.
    pub status: CommandResponseStatus,
    /// Additional device-specific status detail.
    pub status_info: u8,
    /// The bytes after the 4-byte response header.
    pub data: Vec<u8>,
}

/// The response `rsp` is what the buffer `b` parses to: `tag`
/// (little-endian u16), a status byte, a status-info byte, and the rest as
/// data.
pub open spec fn spec_response_ok(b: Seq<u8>, rsp: CommandResponse) -> bool {
    &&& b.len() >= 4
    &&& b[2] <= 2
    &&& rsp.tag == le16_at(b, 0)
    &&& status_value(rsp.status) == b[2]
    &&& rsp.status_info == b[3]
    &&& rsp.data@ == b.subrange(4, b.len() as int)
}

/// Parse a reassembled response buffer: `tag` (little-endian u16), a status
/// byte, a status-info byte, and the rest as data.
pub fn parse_response(buf: &Vec<u8>) -> (r: Result<CommandResponse, Error>)
    ensures
        r is Ok <==> (buf@.len() >= 4 && buf@[2] <= 2),
        r is Ok ==> spec_response_ok(buf@, r->Ok_0),
        r is Err ==> r->Err_0 == Error::Parse,
{
    if buf.len() < 4 {
        return Err(Error::Parse);
    }
    let status = match buf[2] {
        0u8 => CommandResponseStatus::Success,
        1u8 => CommandResponseStatus::ParseError,
        2u8 => CommandResponseStatus::ExecutionError,
        _ => {
            return Err(Error::Parse);
        },
    };
    let tag = read_u16_at(buf, 0);
    let status_info = buf[3];
    let data = copy_range(buf, 4, buf.len());
    Ok(CommandResponse { tag, status, status_info, data })
}

/// Appending one report to a stream appends its payload to the
/// reassembled bytes.
proof fn lemma_concat_payloads_push(rs: Seq<Seq<u8>>, x: Seq<u8>)
    ensures
        concat_payloads(rs.push(x)) == concat_payloads(rs) + report_payload(x),
    decreases rs.len(),
{
    let s = rs.push(x);
    if rs.len() == 0 {
        assert(s.len() == 1);
        assert(s[0] == x);
        assert(s.subrange(1, 1) =~= Seq::<Seq<u8>>::empty());
        assert(concat_payloads(s.subrange(1, 1)) =~= Seq::<u8>::empty());
        assert(concat_payloads(s) =~= report_payload(x));
        assert(concat_payloads(rs) =~= Seq::<u8>::empty());
        assert(concat_payloads(rs) + report_payload(x) =~= report_payload(x));
    } else {
        let tail = rs.subrange(1, rs.len() as int);
        assert(s.subrange(1, s.len() as int) =~= tail.push(x));
        lemma_concat_payloads_push(tail, x);
        assert(s[0] == rs[0]);
        assert(concat_payloads(s) == report_payload(s[0]) + concat_payloads(
            s.subrange(1, s.len() as int),
        ));
        assert(concat_payloads(rs) == report_payload(rs[0]) + concat_payloads(tail));
        assert(report_payload(rs[0]) + (concat_payloads(tail) + report_payload(x)) =~= (
        report_payload(rs[0]) + concat_payloads(tail)) + report_payload(x));
    }
}

/// Reassemble one response from the reports of its stream, however the
/// device split it: the payloads are concatenated in arrival order and the
/// whole buffer parsed. The result depends only on that concatenation, not
/// on how the bytes were chunked onto reports.
pub fn reassemble_response(reports: &Vec<Vec<u8>>) -> (r: Result<CommandResponse, Error>)
    requires
        forall|i: int| 0 <= i < reports@.len() ==> (#[trigger] reports@[i])@.len() == REPORT_SIZE,
    ensures
        ({
            let b = concat_payloads(views_of(reports@));
            &&& (r is Ok <==> (b.len() >= 4 && b[2] <= 2))
            &&& (r is Ok ==> spec_response_ok(b, r->Ok_0))
            &&& (r is Err ==> r->Err_0 == Error::Parse)
        }),
{
    let mut acc: Vec<u8> = Vec::new();
    proof {
        assert(views_of(reports@.subrange(0, 0)) =~= Seq::<Seq<u8>>::empty());
    }
    let mut i: usize = 0;
    while i < reports.len()
        invariant
            i <= reports@.len(),
            forall|j: int|
                0 <= j < reports@.len() ==> (#[trigger] reports@[j])@.len() == REPORT_SIZE,
            acc@ == concat_payloads(views_of(reports@.subrange(0, i as int))),
        decreases reports@.len() - i,
    {
        let (_, mut payload) = decode_report(&reports[i]);
        acc.append(&mut payload);
        proof {
            let prev = views_of(reports@.subrange(0, i as int));
            let cur = views_of(reports@.subrange(0, i as int + 1));
            assert(cur =~= prev.push(reports@[i as int]@));
            lemma_concat_payloads_push(prev, reports@[i as int]@);
        }
        i = i + 1;
    }
    proof {
        assert(reports@.subrange(0, reports@.len() as int) =~= reports@);
    }
    parse_response(&acc)
}

/// Refuse a response whose echoed tag is not the request's own: such a
/// reply belongs to another exchange.
pub fn check_tag(tag: u16, rsp: CommandResponse) -> (r: Result<CommandResponse, Error>)
    ensures
        r is Ok <==> rsp.tag == tag,
        r is Ok ==> r->Ok_0 == rsp,
        r is Err ==> r->Err_0 == Error::Sequence,
{
    if rsp.tag == tag {
        Ok(rsp)
    } else {
        Err(Error::Sequence)
    }
}

/// Hand out a response's data only when its status is `Success`; any other
/// status is refused without the data being looked at.
pub fn check_status(rsp: CommandResponse) -> (r: Result<Vec<u8>, Error>)
    ensures
        r is Ok <==> rsp.status == CommandResponseStatus::Success,
        r is Ok ==> r->Ok_0 == rsp.data,
        r is Err ==> r->Err_0 == Error::CommandNotRecognized,
{
    match rsp.status {
        CommandResponseStatus::Success => Ok(rsp.data),
        _ => Err(Error::CommandNotRecognized),
    }
}

/// Send one command: fragment the header and payload onto reports and write
/// them in order. A failed write aborts the send.
pub fn xmit<T: ReadWrite>(id: u32, tag: u16, payload: &Vec<u8>, d: &mut T) -> (r: Result<
    (),
    Error,
>)
    requires
        payload@.len() <= usize::MAX - 70,
    ensures
        r is Err ==> r->Err_0 == Error::Transmission,
{
    let msg = command_bytes(id, tag, payload);
    let reports = encode_reports(&msg);
    let mut i: usize = 0;
    while i < reports.len()
        invariant
            i <= reports@.len(),
        decreases reports@.len() - i,
    {
        match d.hf2_write(&reports[i]) {
            Ok(_) => {},
            Err(_) => {
                return Err(Error::Transmission);
            },
        }
        i = i + 1;
    }
    Ok(())
}

/// A fresh zeroed buffer of one report's size.
fn report_buffer() -> (r: Vec<u8>)
    ensures
        r@.len() == REPORT_SIZE,
{
    let mut r: Vec<u8> = Vec::new();
    while r.len() < REPORT_SIZE
        invariant
            r@.len() <= REPORT_SIZE,
        decreases REPORT_SIZE - r@.len(),
    {
        r.push(0u8);
    }
    r
}

/// No response is allowed to span more reports than this; a device that
/// streams further without a `Final` report is refused.
pub const MAX_RESPONSE_REPORTS: usize = 65536;

/// Receive one response: read reports until one that is not `Inner`
/// arrives, then reassemble and parse them. A success is the parse of some
/// well-formed response buffer.
pub fn rx<T: ReadWrite>(d: &mut T) -> (r: Result<CommandResponse, Error>)
    ensures
        r is Err ==> (r->Err_0 == Error::Transmission || r->Err_0 == Error::Parse),
        r is Ok ==> exists|b: Seq<u8>| #[trigger] spec_response_ok(b, r->Ok_0),
{
    let mut reports: Vec<Vec<u8>> = Vec::new();
    let mut reports_read: usize = 0;
    while reports_read < MAX_RESPONSE_REPORTS
        invariant
            reports_read <= MAX_RESPONSE_REPORTS,
            forall|j: int|
                0 <= j < reports@.len() ==> (#[trigger] reports@[j])@.len() == REPORT_SIZE,
        decreases MAX_RESPONSE_REPORTS - reports_read,
    {
        let mut buf = report_buffer();
        match d.hf2_read(&mut buf) {
            Ok(n) => {
                if n == 0 {
                    return Err(Error::Transmission);
                }
            },
            Err(_) => {
                return Err(Error::Transmission);
            },
        }
        let header = buf[0];
        reports.push(buf);
        reports_read = reports_read + 1;
        if header / 64 != 0 {
            let res = reassemble_response(&reports);
            proof {
                if res is Ok {
                    assert(spec_response_ok(concat_payloads(views_of(reports@)), res->Ok_0));
                }
            }
            return res;
        }
    }
    Err(Error::Parse)
}

} // verus!

use hf2::bininfo::{BinInfo, BinInfoMode, BinInfoResponse, FamilyId};
use hf2::chksumpages::{ChksumPages, ChksumPagesResponse};
use hf2::command::{command_bytes, encode_reports};
use hf2::dmesg::DmesgResponse;
use hf2::mock::MyMock;
use hf2::readwords::{ReadWords, ReadWordsResponse};
use hf2::writeflashpage::WriteFlashPage;
use hf2::writewords::WriteWords;
use hf2::Error;

fn le32(v: u32) -> [u8; 4] {
    v.to_le_bytes()
}

#[test]
fn command_header_layout() {
    let payload = vec![0xAB, 0xCD];
    let bytes = command_bytes(0x0007, 0x1234, &payload);
    assert_eq!(bytes.len(), 10);
    assert_eq!(&bytes[0..4], &le32(0x0007));
    assert_eq!(&bytes[4..6], &[0x34, 0x12]);
    assert_eq!(&bytes[6..8], &[0, 0], "reserved bytes must be zero");
    assert_eq!(&bytes[8..], &[0xAB, 0xCD]);
}

#[test]
fn bininfo_decode_with_family() {
    let mut data = Vec::new();
    data.extend_from_slice(&le32(2));
    data.extend_from_slice(&le32(256));
    data.extend_from_slice(&le32(64));
    data.extend_from_slice(&le32(320));
    data.extend_from_slice(&le32(0x5511_4460));
    let b = BinInfoResponse::decode(&data).unwrap();
    assert_eq!(b.mode, BinInfoMode::User);
    assert_eq!(b.flash_page_size, 256);
    assert_eq!(b.flash_num_pages, 64);
    assert_eq!(b.max_message_size, 320);
    assert_eq!(b.family_id, Some(FamilyId::ATSAMD51));
}

#[test]
fn bininfo_decode_without_family() {
    let mut data = Vec::new();
    data.extend_from_slice(&le32(1));
    data.extend_from_slice(&le32(1024));
    data.extend_from_slice(&le32(16));
    data.extend_from_slice(&le32(4096));
    let b = BinInfoResponse::decode(&data).unwrap();
    assert_eq!(b.mode, BinInfoMode::Bootloader);
    assert_eq!(b.family_id, None);
}

#[test]
fn bininfo_decode_unknown_family() {
    let mut data = Vec::new();
    data.extend_from_slice(&le32(1));
    data.extend_from_slice(&le32(1024));
    data.extend_from_slice(&le32(16));
    data.extend_from_slice(&le32(4096));
    data.extend_from_slice(&le32(0xDEAD_BEEF));
    let b = BinInfoResponse::decode(&data).unwrap();
    assert_eq!(b.family_id, Some(FamilyId::UNKNOWN(0xDEAD_BEEF)));
}

#[test]
fn bininfo_decode_rejects_bad_mode() {
    let mut data = Vec::new();
    data.extend_from_slice(&le32(3));
    data.extend_from_slice(&le32(256));
    data.extend_from_slice(&le32(64));
    data.extend_from_slice(&le32(320));
    assert_eq!(BinInfoResponse::decode(&data), Err(Error::Parse));
}

#[test]
fn bininfo_decode_rejects_short_buffer() {
    assert_eq!(BinInfoResponse::decode(&vec![2, 0, 0, 0]), Err(Error::Parse));
}

#[test]
fn bininfo_over_mock() {
    let mut message = vec![0, 0, 0, 0];
    message.extend_from_slice(&le32(2));
    message.extend_from_slice(&le32(256));
    message.extend_from_slice(&le32(64));
    message.extend_from_slice(&le32(320));
    message.extend_from_slice(&le32(0x68ed_2b88));
    let mut mock = MyMock::new(encode_reports(&message));
    let b = (BinInfo {}).send(&mut mock).unwrap();
    assert_eq!(b.mode, BinInfoMode::User);
    assert_eq!(b.family_id, Some(FamilyId::ATSAMD21));
    // The query itself is a single report carrying only the 8-byte header.
    assert_eq!(mock.writes.len(), 1);
    assert_eq!(&mock.writes[0][0..5], &[0x48, 0x01, 0x00, 0x00, 0x00]);
}

#[test]
fn chksumpages_encode_layout() {
    let payload = (ChksumPages { target_address: 0x4000, num_pages: 2 }).encode();
    assert_eq!(&payload[0..4], &le32(0x4000));
    assert_eq!(&payload[4..8], &le32(2));
}

#[test]
fn chksumpages_iter_decodes_words() {
    let rsp = ChksumPagesResponse { chksums: vec![0x34, 0x12, 0x78, 0x56, 0xFF] };
    assert_eq!(rsp.iter(), vec![0x1234u16, 0x5678]);
}

#[test]
fn chksumpages_decode_rejects_short_data() {
    assert_eq!(ChksumPagesResponse::decode(vec![1]), Err(Error::Parse));
}

#[test]
fn readwords_encode_layout() {
    let payload = (ReadWords { target_address: 0x2000_0000, num_words: 3 }).encode();
    assert_eq!(&payload[0..4], &le32(0x2000_0000));
    assert_eq!(&payload[4..8], &le32(3));
}

#[test]
fn readwords_iter_decodes_words() {
    let rsp = ReadWordsResponse { words: vec![0x78, 0x56, 0x34, 0x12, 0x01, 0x00, 0x00, 0x00] };
    assert_eq!(rsp.iter(), vec![0x1234_5678u32, 1]);
}

#[test]
fn readwords_decode_rejects_short_data() {
    assert_eq!(ReadWordsResponse::decode(vec![1, 2, 3]), Err(Error::Parse));
}

#[test]
fn writewords_encode_layout() {
    let cmd = WriteWords { target_address: 0x10, num_words: 2, words: vec![1, 0x0A0B_0C0D] };
    let payload = cmd.encode();
    assert_eq!(&payload[0..4], &le32(0x10));
    assert_eq!(&payload[4..8], &le32(2));
    assert_eq!(&payload[8..12], &le32(1));
    assert_eq!(&payload[12..16], &le32(0x0A0B_0C0D));
}

#[test]
fn writeflashpage_encode_layout() {
    let cmd = WriteFlashPage { target_address: 0x4100, data: vec![9, 8, 7] };
    let payload = cmd.encode();
    assert_eq!(&payload[0..4], &le32(0x4100));
    assert_eq!(&payload[4..], &[9, 8, 7]);
}

#[test]
fn dmesg_decode_text() {
    let data = b"boot ok\n".to_vec();
    let rsp = DmesgResponse::decode(&data).unwrap();
    assert_eq!(rsp.logs, "boot ok\n");
}

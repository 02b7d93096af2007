use hf2::bininfo::{BinInfoMode, BinInfoResponse};
use hf2::command::encode_reports;
use hf2::crc16::page_checksums;
use hf2::mock::MyMock;
use hf2::utils::{
    build_plan, fetch_checksums, pad_to_page_size, pages_to_write, flash_bin, verify_bin,
    UtilError,
};
use hf2::Error;

fn success_response(data: &[u8]) -> Vec<Vec<u8>> {
    let mut message = vec![0, 0, 0, 0];
    message.extend_from_slice(data);
    encode_reports(&message)
}

fn checksum_bytes(sums: &[u16]) -> Vec<u8> {
    let mut out = Vec::new();
    for s in sums {
        out.extend_from_slice(&s.to_le_bytes());
    }
    out
}

/// Split the recorded reports back into commands: (id, payload) pairs.
fn written_commands(writes: &[Vec<u8>]) -> Vec<(u32, Vec<u8>)> {
    let mut commands = Vec::new();
    let mut buf: Vec<u8> = Vec::new();
    for rep in writes {
        assert_eq!(rep.len(), 64);
        let len = (rep[0] & 0x3F) as usize;
        buf.extend_from_slice(&rep[1..1 + len]);
        if rep[0] >> 6 == 1 {
            let id = u32::from_le_bytes(buf[0..4].try_into().unwrap());
            commands.push((id, buf[8..].to_vec()));
            buf.clear();
        }
    }
    assert!(buf.is_empty(), "an unterminated command was written");
    commands
}

fn sample_image(len: usize) -> Vec<u8> {
    let mut v = Vec::new();
    for i in 0..len {
        v.push((i * 7 % 256) as u8);
    }
    v
}

#[test]
fn padding_correctness() {
    let image = sample_image(100);
    let padded = pad_to_page_size(&image, 64);
    assert_eq!(padded.len(), 128);
    assert_eq!(&padded[0..100], &image[..]);
    assert!(padded[100..].iter().all(|b| *b == 0));
}

#[test]
fn padding_keeps_full_pages() {
    let image = sample_image(128);
    let padded = pad_to_page_size(&image, 64);
    assert_eq!(padded, image);
}

#[test]
fn crc16_known_value() {
    // CRC-16/XMODEM of "123456789" is 0x31C3.
    let image = b"123456789".to_vec();
    assert_eq!(page_checksums(&image, 9), vec![0x31C3]);
}

#[test]
fn checksum_plan_batches() {
    assert_eq!(build_plan(300, 126), vec![(0, 126), (126, 126), (252, 48)]);
    assert_eq!(build_plan(0, 126), vec![]);
    assert_eq!(build_plan(5, 126), vec![(0, 5)]);
    // Every page is covered exactly once, ascending, within the batch cap.
    let plan = build_plan(1000, 7);
    let mut next = 0u32;
    for (off, batch) in &plan {
        assert_eq!(*off, next);
        assert!(*batch >= 1 && *batch <= 7);
        next = off + batch;
    }
    assert_eq!(next, 1000);
}

#[test]
fn diff_write_minimality() {
    let local = vec![10u16, 20, 30, 40];
    let same = local.clone();
    assert_eq!(pages_to_write(&local, &same), vec![]);
    let mut one_off = local.clone();
    one_off[2] = 31;
    assert_eq!(pages_to_write(&local, &one_off), vec![2]);
}

#[test]
fn fetch_checksums_splits_requests() {
    // 5 pages with a 2-page batch cap: three requests, answers concatenated.
    let reads = vec![
        success_response(&checksum_bytes(&[1, 2])),
        success_response(&checksum_bytes(&[3, 4])),
        success_response(&checksum_bytes(&[5])),
    ]
    .concat();
    let mut mock = MyMock::new(reads);
    let table = fetch_checksums(&mut mock, 0x1000, 5, 16, 2).unwrap();
    assert_eq!(table, vec![1, 2, 3, 4, 5]);
    let cmds = written_commands(&mock.writes);
    assert_eq!(cmds.len(), 3);
    for (i, (id, payload)) in cmds.iter().enumerate() {
        assert_eq!(*id, 0x0007);
        let target = u32::from_le_bytes(payload[0..4].try_into().unwrap());
        let pages = u32::from_le_bytes(payload[4..8].try_into().unwrap());
        assert_eq!(target, 0x1000 + 2 * 16 * i as u32);
        assert_eq!(pages, if i < 2 { 2 } else { 1 });
    }
}

#[test]
fn fetch_checksums_rejects_short_answer() {
    let reads = success_response(&checksum_bytes(&[1]));
    let mut mock = MyMock::new(reads);
    assert_eq!(fetch_checksums(&mut mock, 0, 2, 16, 4), Err(Error::Parse));
}

fn test_bininfo(mode: BinInfoMode) -> BinInfoResponse {
    BinInfoResponse {
        mode,
        flash_page_size: 256,
        flash_num_pages: 64,
        max_message_size: 256,
        family_id: None,
    }
}

#[test]
fn clean_flash_scenario() {
    // A 512-byte image at 0x4000 on a device in user mode whose two pages
    // both differ: StartFlash, one checksum query, exactly two page
    // writes, a matching verify query, and a reset into the application.
    let image = sample_image(512);
    let bininfo = test_bininfo(BinInfoMode::User);
    let local = page_checksums(&image, 256);
    let wrong = vec![local[0] ^ 0xFFFF, local[1] ^ 0xFFFF];
    let reads = vec![
        success_response(&[]),                           // StartFlash ack
        success_response(&checksum_bytes(&wrong)),       // initial query
        success_response(&checksum_bytes(&local)),       // verify query
    ]
    .concat();
    let mut mock = MyMock::new(reads);
    flash_bin(&image, 0x4000, &bininfo, &mut mock).unwrap();

    let cmds = written_commands(&mock.writes);
    let ids: Vec<u32> = cmds.iter().map(|(id, _)| *id).collect();
    assert_eq!(ids, vec![0x0005, 0x0007, 0x0006, 0x0006, 0x0007, 0x0003]);

    // The checksum query asks for both pages at the image's address.
    assert_eq!(&cmds[1].1[0..4], &0x4000u32.to_le_bytes());
    assert_eq!(&cmds[1].1[4..8], &2u32.to_le_bytes());

    // Each written page carries its address and its exact bytes.
    assert_eq!(&cmds[2].1[0..4], &0x4000u32.to_le_bytes());
    assert_eq!(&cmds[2].1[4..], &image[0..256]);
    assert_eq!(&cmds[3].1[0..4], &0x4100u32.to_le_bytes());
    assert_eq!(&cmds[3].1[4..], &image[256..512]);
}

#[test]
fn flash_skips_matching_pages() {
    // In bootloader mode with one of two pages already correct, only the
    // differing page is written and no StartFlash is issued.
    let image = sample_image(512);
    let bininfo = test_bininfo(BinInfoMode::Bootloader);
    let local = page_checksums(&image, 256);
    let device = vec![local[0], local[1] ^ 1];
    let reads = vec![
        success_response(&checksum_bytes(&device)),
        success_response(&checksum_bytes(&local)),
    ]
    .concat();
    let mut mock = MyMock::new(reads);
    flash_bin(&image, 0x4000, &bininfo, &mut mock).unwrap();
    let cmds = written_commands(&mock.writes);
    let ids: Vec<u32> = cmds.iter().map(|(id, _)| *id).collect();
    assert_eq!(ids, vec![0x0007, 0x0006, 0x0007, 0x0003]);
    assert_eq!(&cmds[1].1[0..4], &0x4100u32.to_le_bytes());
}

#[test]
fn flash_detects_different_contents() {
    // The verify query still disagrees: the flash fails and the device is
    // not rebooted into the image.
    let image = sample_image(256);
    let bininfo = test_bininfo(BinInfoMode::Bootloader);
    let local = page_checksums(&image, 256);
    let wrong = vec![local[0] ^ 2];
    let reads = vec![
        success_response(&checksum_bytes(&wrong)),
        success_response(&checksum_bytes(&wrong)),
    ]
    .concat();
    let mut mock = MyMock::new(reads);
    let r = flash_bin(&image, 0x4000, &bininfo, &mut mock);
    assert_eq!(r, Err(UtilError::ContentsDifferent));
    let cmds = written_commands(&mock.writes);
    assert!(cmds.iter().all(|(id, _)| *id != 0x0003), "no reset after a failed verify");
}

#[test]
fn flash_rejects_empty_binary() {
    let bininfo = test_bininfo(BinInfoMode::Bootloader);
    let mut mock = MyMock::new(Vec::new());
    let r = flash_bin(&Vec::new(), 0x4000, &bininfo, &mut mock);
    assert_eq!(r, Err(UtilError::InvalidBinary));
    assert!(mock.writes.is_empty());
}

#[test]
fn flash_surfaces_transport_failure() {
    // The device never answers the checksum query.
    let image = sample_image(256);
    let bininfo = test_bininfo(BinInfoMode::Bootloader);
    let mut mock = MyMock::new(Vec::new());
    let r = flash_bin(&image, 0x4000, &bininfo, &mut mock);
    assert_eq!(r, Err(UtilError::Communication));
}

#[test]
fn verify_accepts_matching_flash() {
    let image = sample_image(300);
    let bininfo = test_bininfo(BinInfoMode::Bootloader);
    let padded = pad_to_page_size(&image, 256);
    let local = page_checksums(&padded, 256);
    let reads = success_response(&checksum_bytes(&local));
    let mut mock = MyMock::new(reads);
    verify_bin(&image, 0x4000, &bininfo, &mut mock).unwrap();
    let cmds = written_commands(&mock.writes);
    let ids: Vec<u32> = cmds.iter().map(|(id, _)| *id).collect();
    assert_eq!(ids, vec![0x0007], "verify only queries checksums");
}

#[test]
fn verify_rejects_different_flash() {
    let image = sample_image(300);
    let bininfo = test_bininfo(BinInfoMode::Bootloader);
    let padded = pad_to_page_size(&image, 256);
    let local = page_checksums(&padded, 256);
    let device = vec![local[0], local[1] ^ 0x0F00];
    let reads = success_response(&checksum_bytes(&device));
    let mut mock = MyMock::new(reads);
    let r = verify_bin(&image, 0x4000, &bininfo, &mut mock);
    assert_eq!(r, Err(UtilError::ContentsDifferent));
}

#[test]
fn verify_rejects_empty_binary() {
    let bininfo = test_bininfo(BinInfoMode::Bootloader);
    let mut mock = MyMock::new(Vec::new());
    assert_eq!(verify_bin(&Vec::new(), 0, &bininfo, &mut mock), Err(UtilError::InvalidBinary));
}

#[test]
fn util_error_from_protocol_error() {
    assert_eq!(UtilError::from(Error::Parse), UtilError::Communication);
    assert_eq!(UtilError::from(Error::Transmission), UtilError::Communication);
    assert_eq!(UtilError::from(Error::Execution), UtilError::Internal);
    assert_eq!(UtilError::from(Error::CommandNotRecognized), UtilError::Internal);
}

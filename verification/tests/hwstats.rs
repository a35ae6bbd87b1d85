use aoostar::le_bytes::{read_u32, read_u64, write_u32, write_u64};
use aoostar::payload::{parse_key_value, parse_key_value_text};
use aoostar::slot::{
    in_progress_sequence, read_attempt_step, slot_header_check, ReadStep, READ_ATTEMPTS,
    begin_write, publish, read_slot, slot_range, store_payload, write_slot, write_slot_traced,
};
use aoostar::stats::{
    Error, Producer, MAGIC, MAX_PAYLOAD, REGION_SIZE, SEQUENCE_OFFSET, SLOT_SIZE, VERSION,
    VERSION_OFFSET,
};

fn region() -> Vec<u8> {
    vec![0u8; REGION_SIZE]
}

#[test]
fn parses_key_value_payload() {
    let map = parse_key_value(b"cpu_temperature: 45.5\n gpu_core: 12 \n");
    assert_eq!(map.len(), 2);
    assert_eq!(map.get("cpu_temperature").unwrap(), "45.5");
    assert_eq!(map.get("gpu_core").unwrap(), "12");
}

#[test]
fn skips_empty_comments_and_invalid_lines() {
    let map = parse_key_value(b"\n# comment\nvalid: 1\nno separator here\n  \nvalid2:2\n");
    assert_eq!(map.len(), 2);
    assert_eq!(map.get("valid").unwrap(), "1");
    assert_eq!(map.get("valid2").unwrap(), "2");
}

#[test]
fn handles_truncated_utf8_lossily() {
    let map = parse_key_value(b"key: \xFF\xFE\n");
    assert_eq!(map.len(), 1);
}

#[test]
fn empty_payload_gives_empty_map() {
    assert!(parse_key_value(b"").is_empty());
}

#[test]
fn later_lines_override_earlier_ones() {
    let map = parse_key_value_text("a: 1\r\nb : two words \na:3");
    assert_eq!(map.len(), 2);
    assert_eq!(map.get("a").unwrap(), "3");
    assert_eq!(map.get("b").unwrap(), "two words");
    assert!(map.get("c").is_none());
}

#[test]
fn value_keeps_text_after_first_colon() {
    let map = parse_key_value_text("  time: 12:30:01  \n#x: 1\n:empty\n");
    assert_eq!(map.get("time").unwrap(), "12:30:01");
    assert_eq!(map.get("").unwrap(), "empty");
    assert_eq!(map.len(), 2);
}

#[test]
fn producer_slots_do_not_overlap() {
    assert_eq!(Producer::HwBridge.slot_offset(), 0);
    assert_eq!(Producer::SysInfo.slot_offset(), SLOT_SIZE);
    assert_eq!(slot_range(REGION_SIZE, SLOT_SIZE), Some(SLOT_SIZE..REGION_SIZE));
    assert_eq!(slot_range(REGION_SIZE - 1, SLOT_SIZE), None);
    assert_eq!(slot_range(10, usize::MAX), None);
}

#[test]
fn uninitialized_slot_reads_none() {
    let mut bytes = region();
    // slot 1 never written
    assert_eq!(read_slot(&bytes, SLOT_SIZE).unwrap(), None);
    // writing slot 0 must not touch slot 1
    write_slot(&mut bytes, 0, b"a: 1\n", 2, 1000).unwrap();
    assert_eq!(read_slot(&bytes, SLOT_SIZE).unwrap(), None);
}

#[test]
fn write_read_roundtrip() {
    let mut bytes = region();
    let payload = b"cpu_temperature: 45.5\ngpu_core: 12\n";
    let n = write_slot(&mut bytes, 0, payload, 8, 1234).unwrap();
    assert_eq!(n, payload.len());

    let snap = read_slot(&bytes, 0).unwrap().unwrap();
    assert_eq!(snap.sequence, 8);
    assert_eq!(snap.timestamp_ms, 1234);
    assert_eq!(snap.payload, payload);
}

#[test]
fn sequence_is_even_after_write_at_expected_offset() {
    let mut bytes = region();
    write_slot(&mut bytes, 0, b"k: v\n", 42, 99).unwrap();
    // header fields in the documented byte positions
    assert_eq!(read_u32(&bytes[..], 0), MAGIC);
    assert_eq!(read_u32(&bytes[..], 4), VERSION);
    assert_eq!(read_u64(&bytes[..], 8), 42); // sequence at offset 8
    assert_eq!(read_u64(&bytes[..], 16), 99); // timestamp at offset 16
    assert_eq!(read_u32(&bytes[..], 24), 5); // payload len "k: v\n"
}

#[test]
fn overwrite_updates_snapshot() {
    let mut bytes = region();
    write_slot(&mut bytes, 0, b"a: 1\n", 2, 100).unwrap();
    write_slot(&mut bytes, 0, b"a: 2\n", 4, 200).unwrap();
    let snap = read_slot(&bytes, 0).unwrap().unwrap();
    assert_eq!(snap.sequence, 4);
    assert_eq!(snap.timestamp_ms, 200);
    assert_eq!(snap.payload, b"a: 2\n");
}

#[test]
fn payload_is_truncated_to_slot_capacity() {
    let mut bytes = region();
    let big = vec![b'x'; MAX_PAYLOAD + 1000];
    let n = write_slot(&mut bytes, 0, &big, 2, 1).unwrap();
    assert_eq!(n, MAX_PAYLOAD);
    let snap = read_slot(&bytes, 0).unwrap().unwrap();
    assert_eq!(snap.payload.len(), MAX_PAYLOAD);
}

#[test]
fn version_mismatch_is_reported() {
    let mut bytes = region();
    write_slot(&mut bytes, 0, b"a: 1\n", 2, 1).unwrap();
    write_u32(&mut bytes, VERSION_OFFSET, VERSION + 1);
    assert!(matches!(
        read_slot(&bytes, 0),
        Err(Error::VersionMismatch(v)) if v == VERSION + 1
    ));
}

#[test]
fn odd_sequence_is_rejected_as_in_progress() {
    let mut bytes = region();
    write_slot(&mut bytes, 0, b"a: 1\n", 2, 1).unwrap();
    // simulate a writer stuck between the odd and even stores
    write_u64(&mut bytes, SEQUENCE_OFFSET, 3); // odd
    assert!(matches!(read_slot(&bytes, 0), Err(Error::Contended)));
}

#[test]
fn oversized_length_field_is_rejected_as_torn() {
    let mut bytes = region();
    write_slot(&mut bytes, 0, b"a: 1\n", 2, 1).unwrap();
    write_u32(&mut bytes, 24, (MAX_PAYLOAD + 1) as u32);
    assert!(matches!(read_slot(&bytes, 0), Err(Error::Contended)));
}

#[test]
fn small_region_is_a_bad_region() {
    let mut bytes = vec![0u8; SLOT_SIZE - 1];
    assert!(matches!(read_slot(&bytes, 0), Err(Error::BadRegion)));
    assert!(matches!(write_slot(&mut bytes, 0, b"a: 1\n", 2, 1), Err(Error::BadRegion)));
    assert!(bytes.iter().all(|b| *b == 0));
}

#[test]
fn writes_leave_other_slot_bytes_alone() {
    let mut bytes = region();
    write_slot(&mut bytes, SLOT_SIZE, b"sys: 2\n", 2, 5).unwrap();
    let before = bytes[..SLOT_SIZE].to_vec();
    write_slot(&mut bytes, SLOT_SIZE, b"sys: 3\n", 4, 6).unwrap();
    assert_eq!(&bytes[..SLOT_SIZE], &before[..]);
    let snap = read_slot(&bytes, SLOT_SIZE).unwrap().unwrap();
    assert_eq!(snap.payload, b"sys: 3\n");
}

#[test]
fn slot_layout_matches_csharp_writer() {
    // Golden bytes: the exact header a writer must produce for a known
    // payload/sequence/timestamp.
    let mut bytes = region();
    write_slot(&mut bytes, 0, b"cpu_temperature: 45.5\n", 6, 1_700_000_000_123).unwrap();
    let header: Vec<u8> = bytes[..32].to_vec();
    assert_eq!(
        header,
        vec![
            0x31, 0x53, 0x57, 0x48, // magic "HWS1" (LE)
            0x01, 0x00, 0x00, 0x00, // version 1
            0x06, 0x00, 0x00, 0x00, 0x00, 0x00, 0x00, 0x00, // sequence 6
            0x7B, 0x68, 0xE5, 0xCF, 0x8B, 0x01, 0x00, 0x00, // 1700000000123 LE
            0x16, 0x00, 0x00, 0x00, // payload len 22
            0x00, 0x00, 0x00, 0x00, // reserved
        ]
    );
}

#[test]
fn write_steps_keep_readers_out_until_published() {
    let mut bytes = region();
    write_slot(&mut bytes, 0, b"a: 1\n", 2, 10).unwrap();

    begin_write(&mut bytes, 0, 4);
    assert_eq!(read_u64(&bytes[..], 8), 3);
    assert!(matches!(read_slot(&bytes, 0), Err(Error::Contended)));

    let n = store_payload(&mut bytes, 0, b"a: 2\n", 20);
    assert_eq!(n, 5);
    assert_eq!(read_u64(&bytes[..], 8), 3);
    assert!(matches!(read_slot(&bytes, 0), Err(Error::Contended)));

    publish(&mut bytes, 0, 4);
    let snap = read_slot(&bytes, 0).unwrap().unwrap();
    assert_eq!(snap.sequence, 4);
    assert_eq!(snap.timestamp_ms, 20);
    assert_eq!(snap.payload, b"a: 2\n");
}

#[test]
fn first_write_in_progress_reads_as_unwritten() {
    let mut bytes = region();
    begin_write(&mut bytes, SLOT_SIZE, 2);
    assert_eq!(read_slot(&bytes, SLOT_SIZE).unwrap(), None);
    let (r, _trace) = write_slot_traced(&mut bytes, SLOT_SIZE, b"b: 1\n", 2, 1);
    assert_eq!(r.unwrap(), 5);
    assert_eq!(read_slot(&bytes, SLOT_SIZE).unwrap().unwrap().payload, b"b: 1\n");
}

#[test]
fn read_attempts_accept_only_a_stable_even_sequence() {
    assert_eq!(READ_ATTEMPTS, 4);
    assert_eq!(read_attempt_step(0, 4, 10, 4), ReadStep::Accept);
    assert_eq!(read_attempt_step(3, 4, MAX_PAYLOAD as u32, 4), ReadStep::Accept);
    // a writer bumped the sequence between the two reads
    assert_eq!(read_attempt_step(0, 4, 10, 6), ReadStep::Retry);
    // write in progress
    assert_eq!(read_attempt_step(1, 5, 0, 5), ReadStep::Retry);
    // torn length
    assert_eq!(read_attempt_step(2, 4, MAX_PAYLOAD as u32 + 1, 4), ReadStep::Retry);
    // attempts used up
    assert_eq!(read_attempt_step(3, 5, 0, 5), ReadStep::GiveUp);
    assert_eq!(read_attempt_step(3, 4, 10, 6), ReadStep::GiveUp);
}

#[test]
fn header_check_and_marker() {
    assert_eq!(slot_header_check(0, 0), Ok(false));
    assert_eq!(slot_header_check(MAGIC, VERSION), Ok(true));
    assert_eq!(slot_header_check(MAGIC, 7), Err(Error::VersionMismatch(7)));
    assert_eq!(in_progress_sequence(8), 7);
}

use std::time::Duration;

use aoostar::lcd::{
    backoff_delay, check_init_response, find_usb_serial_port, hex_u16,
    next_write_retry, parse_usb_id, AooScreenBuilder, FrameCache, InitError, SerialPortEntry,
    UsbIdError, DISPLAY_OFF, DISPLAY_ON, DISPLAY_SIZE, HEADER, HEADER_END, HEADER_START,
    IMG_CHUNK_SIZE, SERIAL_RETRY, USB_UART_PID, USB_UART_VID,
};

#[test]
fn backoff_delay_grows_then_caps_at_60s() {
    assert_eq!(Duration::from_secs(backoff_delay(0)), Duration::from_secs(1));
    assert_eq!(Duration::from_secs(backoff_delay(1)), Duration::from_secs(2));
    assert_eq!(Duration::from_secs(backoff_delay(2)), Duration::from_secs(4));
    assert_eq!(Duration::from_secs(backoff_delay(3)), Duration::from_secs(8));
    assert_eq!(Duration::from_secs(backoff_delay(4)), Duration::from_secs(16));
    assert_eq!(Duration::from_secs(backoff_delay(5)), Duration::from_secs(32));
    assert_eq!(Duration::from_secs(backoff_delay(6)), Duration::from_secs(60));
    assert_eq!(Duration::from_secs(backoff_delay(99)), Duration::from_secs(60));
}

#[test]
fn builder_defaults_and_settings() {
    let b = AooScreenBuilder::new();
    assert_eq!(b.timeout_setting(), None);
    assert!(b.cache_enabled());
    assert!(!b.init_check_skipped());

    let mut b = AooScreenBuilder::default();
    b.timeout(Duration::from_millis(250))
        .enable_cache(false)
        .no_init_check(true);
    assert_eq!(b.timeout_setting(), Some(Duration::from_millis(250)));
    assert!(!b.cache_enabled());
    assert!(b.init_check_skipped());
    assert!(!b.frame_cache().is_cache_enabled());
}

#[test]
fn write_retries_three_times_then_gives_up() {
    assert_eq!(SERIAL_RETRY, 3);
    let mut attempts = 1;
    let mut retry = 0u8;
    while let Some(next) = next_write_retry(retry) {
        retry = next;
        attempts += 1;
    }
    assert_eq!(attempts, 4);
    assert_eq!(next_write_retry(0), Some(1));
    assert_eq!(next_write_retry(3), None);
}

#[test]
fn init_response_needs_an_a() {
    assert_eq!(check_init_response(&[]), Err(InitError::NoResponse));
    assert_eq!(check_init_response(b"xyz"), Err(InitError::UnexpectedResponse));
    assert_eq!(check_init_response(b"A"), Ok(()));
    assert_eq!(check_init_response(b"\x00\x01A\x02"), Ok(()));
    assert_eq!(check_init_response(b"a"), Err(InitError::UnexpectedResponse));
}

fn chars(s: &str) -> Vec<char> {
    s.chars().collect()
}

#[test]
fn hex_ids_follow_from_str_radix() {
    for s in ["416", "90A1", "90a1", "+ff", "0", "FFFF", "0000ffff", "", "+", "-1", "10000", "g1", " 1", "1 "] {
        assert_eq!(
            hex_u16(&chars(s)),
            u16::from_str_radix(s, 16).ok(),
            "input {s:?}"
        );
    }
}

#[test]
fn parses_usb_ids_in_lsusb_notation() {
    assert_eq!(parse_usb_id("416:90A1"), Ok((USB_UART_VID, USB_UART_PID)));
    assert_eq!(parse_usb_id("0416:90a1"), Ok((0x416, 0x90A1)));
    assert_eq!(parse_usb_id("41690A1"), Err(UsbIdError::MissingSeparator));
    assert_eq!(parse_usb_id("zz:90A1"), Err(UsbIdError::InvalidVid));
    assert_eq!(parse_usb_id(":90A1"), Err(UsbIdError::InvalidVid));
    assert_eq!(parse_usb_id("416:"), Err(UsbIdError::InvalidPid));
    assert_eq!(parse_usb_id("416:90A1:1"), Err(UsbIdError::InvalidPid));
    assert_eq!(parse_usb_id("10000:1"), Err(UsbIdError::InvalidVid));
}

#[test]
fn finds_first_usb_port_with_matching_ids() {
    let ports = vec![
        SerialPortEntry { port_name: "/dev/ttyS0".to_string(), usb_ids: None },
        SerialPortEntry { port_name: "/dev/ttyUSB0".to_string(), usb_ids: Some((0x1234, 0x90A1)) },
        SerialPortEntry { port_name: "/dev/ttyUSB1".to_string(), usb_ids: Some((0x416, 0x90A1)) },
        SerialPortEntry { port_name: "/dev/ttyUSB2".to_string(), usb_ids: Some((0x416, 0x90A1)) },
    ];
    assert_eq!(
        find_usb_serial_port(&ports, USB_UART_VID, USB_UART_PID),
        Some("/dev/ttyUSB1".to_string())
    );
    assert_eq!(find_usb_serial_port(&ports, 0x416, 0x1), None);
    assert_eq!(find_usb_serial_port(&[], 0x416, 0x90A1), None);
}

#[test]
fn command_packets() {
    assert_eq!(DISPLAY_ON[4], 0x0B);
    assert_eq!(DISPLAY_OFF[4], 0x0A);
    assert_eq!(HEADER_START.len(), 16);
    assert_eq!(DISPLAY_SIZE, (960, 376));
    assert_eq!((DISPLAY_SIZE.0 * DISPLAY_SIZE.1 * 2) as usize % IMG_CHUNK_SIZE, 0);
}

fn frame(len: usize, seed: u8) -> Vec<u8> {
    (0..len).map(|i| (i as u8).wrapping_mul(31).wrapping_add(seed)).collect()
}

#[test]
fn uncached_upload_sends_every_chunk_with_offsets() {
    let cache = FrameCache::new(false);
    let img = frame(100, 1);
    let packets = cache.plan_frame(&img);
    // start, 3 chunks (47 + 47 + 6 bytes), end
    assert_eq!(packets.len(), 5);
    assert_eq!(packets[0], HEADER_START.to_vec());
    assert_eq!(packets[4], HEADER_END.to_vec());
    for (idx, p) in packets[1..4].iter().enumerate() {
        let offset = idx * IMG_CHUNK_SIZE;
        let end = (offset + IMG_CHUNK_SIZE).min(img.len());
        let mut expected = HEADER.to_vec();
        expected.extend_from_slice(&(offset as u32).to_le_bytes());
        expected.extend_from_slice(&img[offset..end]);
        assert_eq!(*p, expected);
    }
}

#[test]
fn cached_upload_skips_unchanged_chunks() {
    let mut cache = FrameCache::new(true);
    let first = frame(47 * 4, 3);
    let packets = cache.plan_frame(&first);
    assert_eq!(packets.len(), 6);
    cache.commit_frame(&first);
    assert!(cache.has_previous_frame());

    // Same frame again: only the headers.
    let again = cache.plan_frame(&first);
    assert_eq!(again, vec![HEADER_START.to_vec(), HEADER_END.to_vec()]);

    // One byte changed in chunk 2: only that chunk is sent.
    let mut second = first.clone();
    second[47 * 2 + 5] ^= 0xFF;
    let diff = cache.plan_frame(&second);
    assert_eq!(diff.len(), 3);
    assert_eq!(diff[1][8..12], (94u32).to_le_bytes());
}

#[test]
fn partial_last_chunk_is_always_sent() {
    let mut cache = FrameCache::new(true);
    let img = frame(50, 9);
    cache.commit_frame(&img);
    let packets = cache.plan_frame(&img);
    assert_eq!(packets.len(), 3);
    assert_eq!(packets[1].len(), 8 + 4 + 3);
}

#[test]
fn clearing_or_disabling_cache_forces_full_frame() {
    let mut cache = FrameCache::new(true);
    let img = frame(94, 5);
    cache.commit_frame(&img);
    cache.clear_cache();
    assert!(!cache.has_previous_frame());
    assert_eq!(cache.plan_frame(&img).len(), 4);

    cache.commit_frame(&img);
    cache.enable_cache(false);
    assert!(!cache.is_cache_enabled());
    assert!(!cache.has_previous_frame());
    cache.commit_frame(&img);
    assert!(!cache.has_previous_frame());
    assert_eq!(cache.plan_frame(&img).len(), 4);
}

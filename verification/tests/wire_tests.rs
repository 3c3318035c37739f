use ntp_client::wire::{
    build_ntp_request, compute_offset_delay, decode_reference_id, extract_ntp_timestamp,
    ntp_error, ntp_to_unix_micros, parse_ntp_response, NtpErrorKind,
};

#[test]
fn request_is_48_bytes_with_client_header() {
    let pkt = build_ntp_request();
    assert_eq!(pkt.len(), 48);
    assert_eq!(pkt[0], 0x1b);
    for i in 1..48 {
        assert_eq!(pkt[i], 0);
    }
}

#[test]
fn extracts_seconds_and_fraction_words() {
    let mut pkt = vec![0u8; 48];
    // seconds 0x83AA7E80 (= 2208988800), fraction 0x80000000 at offset 40
    pkt[40] = 0x83;
    pkt[41] = 0xaa;
    pkt[42] = 0x7e;
    pkt[43] = 0x80;
    pkt[44] = 0x80;
    let (sec, frac) = extract_ntp_timestamp(&pkt, 40);
    assert_eq!(sec, 2_208_988_800);
    assert_eq!(frac, 0x8000_0000);
}

#[test]
fn unix_epoch_converts_to_zero() {
    assert_eq!(ntp_to_unix_micros(2_208_988_800, 0), 0);
}

#[test]
fn zero_timestamp_is_zero_not_an_error() {
    assert_eq!(ntp_to_unix_micros(0, 0), 0);
}

#[test]
fn pre_epoch_timestamp_is_zero() {
    assert_eq!(ntp_to_unix_micros(2_208_988_799, 4_000_000_000), 0);
}

#[test]
fn fraction_scales_to_microseconds() {
    // one second past the Unix epoch, half a second of fraction
    assert_eq!(ntp_to_unix_micros(2_208_988_801, 0x8000_0000), 1_500_000);
}

#[test]
fn offset_and_delay_follow_the_formulas() {
    // positive drift: server ahead
    let (offset, delay) = compute_offset_delay(1_000, 2_000, 2_100, 1_200);
    assert_eq!(offset, ((2_000 - 1_000) + (2_100 - 1_200)) / 2);
    assert_eq!(delay, (1_200 - 1_000) - (2_100 - 2_000));
}

#[test]
fn offset_is_exact_for_negative_drift() {
    // negative drift: server behind
    let (offset, delay) = compute_offset_delay(5_000, 3_000, 3_100, 5_200);
    assert_eq!(offset, -2_050);
    assert_eq!(delay, 100);
}

#[test]
fn stratum_one_ref_id_reads_as_ascii() {
    let s = decode_reference_id([b'G', b'P', b'S', 0], 1);
    assert_eq!(s, "GPS");
}

#[test]
fn stratum_two_ref_id_reads_as_dotted_quad() {
    let s = decode_reference_id([192, 168, 1, 1], 2);
    assert_eq!(s, "192.168.1.1");
}

#[test]
fn stratum_zero_ref_id_trims_spaces() {
    let s = decode_reference_id([b' ', b'A', b'B', b' '], 0);
    assert_eq!(s, "AB");
}

#[test]
fn short_reply_is_incomplete() {
    let short = vec![0u8; 47];
    let r = parse_ntp_response("pool", "1.2.3.4", &short, 0, 0);
    assert!(matches!(r, Err(NtpErrorKind::Incomplete)));
}

#[test]
fn full_reply_parses_header_and_times() {
    let mut pkt = vec![0u8; 48];
    pkt[0] = 0x1c; // LI=0 VN=3 Mode=4 (server)
    pkt[1] = 2; // stratum
    pkt[2] = 6; // poll
    pkt[3] = 0xe8 as u8; // precision -24
    // root delay 1.0 s -> 0x00010000
    pkt[5] = 0x01;
    // ref id 10.0.0.1
    pkt[12] = 10;
    pkt[15] = 1;
    // t2 at offset 32: epoch + 10 s
    pkt[32] = 0x83;
    pkt[33] = 0xaa;
    pkt[34] = 0x7e;
    pkt[35] = 0x8a;
    // t3 at offset 40: epoch + 11 s
    pkt[40] = 0x83;
    pkt[41] = 0xaa;
    pkt[42] = 0x7e;
    pkt[43] = 0x8b;
    let t1 = 9_500_000i64;
    let t4 = 11_700_000i64;
    let m = parse_ntp_response("pool", "10.0.0.1", &pkt, t1, t4).unwrap();
    assert!(m.success);
    assert_eq!(m.leap, 0);
    assert_eq!(m.version, 3);
    assert_eq!(m.mode, 4);
    assert_eq!(m.stratum, 2);
    assert_eq!(m.poll, 6);
    assert_eq!(m.precision, -24);
    assert_eq!(m.root_delay, 1_000_000);
    assert_eq!(m.root_dispersion, 0);
    assert_eq!(m.ref_id, "10.0.0.1");
    assert_eq!(m.ref_time, 0);
    assert_eq!(m.t1, t1);
    assert_eq!(m.t2, 10_000_000);
    assert_eq!(m.t3, 11_000_000);
    assert_eq!(m.t4, t4);
    assert_eq!(m.offset, ((10_000_000 - 9_500_000) + (11_000_000 - 11_700_000)) / 2);
    assert_eq!(m.delay, (11_700_000 - 9_500_000) - (11_000_000 - 10_000_000));
    assert_eq!(m.server, "pool");
    assert_eq!(m.server_ip, "10.0.0.1");
}

#[test]
fn ntp_error_codes_are_stable() {
    let cases = [
        (NtpErrorKind::SocketBind, "SOCKET_BIND"),
        (NtpErrorKind::SocketTimeout, "SOCKET_TIMEOUT"),
        (NtpErrorKind::SendError, "SEND_ERROR"),
        (NtpErrorKind::RecvError, "RECV_ERROR"),
        (NtpErrorKind::TimeError, "TIME_ERROR"),
        (NtpErrorKind::Incomplete, "INCOMPLETE"),
    ];
    for (kind, code) in cases {
        let e = ntp_error(kind, String::from("boom"));
        assert!(!e.success);
        assert_eq!(e.code, code);
        assert_eq!(e.error, "boom");
    }
}

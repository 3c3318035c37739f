use ntp_client::setter::{sidecar_failure_verdict, SetTimeErrorKind, SidecarFailureKind};
use ntp_client::sidecar::{
    encode_time_set_request, encode_time_set_response, parse_time_set_request,
    parse_time_set_response, response_for_parse_failure, response_for_write,
    sidecar_reply_verdict, sidecar_status, SetTimeRequest, SetTimeResponse,
};

#[test]
fn request_renders_milliseconds_with_three_fraction_digits() {
    let r = SetTimeRequest { unix_us: 1_700_000_123_456_789 };
    assert_eq!(encode_time_set_request(&r), "{\"unix_ms\":1700000123456.789}");
    let r = SetTimeRequest { unix_us: 0 };
    assert_eq!(encode_time_set_request(&r), "{\"unix_ms\":0.000}");
}

#[test]
fn request_parses_its_own_rendering() {
    for us in [0i64, 999, 1_000, 1_700_000_123_456_789, 253_402_300_800_000_000] {
        let text = encode_time_set_request(&SetTimeRequest { unix_us: us });
        let back = parse_time_set_request(&text).unwrap();
        assert_eq!(back.unix_us, us);
    }
}

#[test]
fn request_accepts_a_whole_number_and_a_long_fraction() {
    let q = parse_time_set_request("{\"unix_ms\":1234}").unwrap();
    assert_eq!(q.unix_us, 1_234_000);
    // digits beyond the third fraction digit are ignored
    let q = parse_time_set_request("{\"unix_ms\":1234.56789}").unwrap();
    assert_eq!(q.unix_us, 1_234_567);
    let q = parse_time_set_request("{\"unix_ms\":1234.5}").unwrap();
    assert_eq!(q.unix_us, 1_234_500);
}

#[test]
fn request_rejects_malformed_datagrams() {
    for text in [
        "",
        "{}",
        "{\"unix_ms\":}",
        "{\"unix_ms\":-5}",
        "{\"unix_ms\": 5}",
        "{\"unix_ms\":5.}",
        "{\"unix_ms\":5.5.5}",
        "{\"unix_ms\":abc}",
        "{\"other\":5}",
        "{\"unix_ms\":5",
        "{\"unix_ms\":99999999999999999}",
        "{\"unix_ms\":999999999999999}",
    ] {
        assert!(parse_time_set_request(text).is_none(), "accepted: {}", text);
    }
}

#[test]
fn response_renders_with_and_without_an_error_member() {
    let ok = SetTimeResponse {
        success: true,
        message: String::from("system time set"),
        error: None,
    };
    assert_eq!(
        encode_time_set_response(&ok),
        "{\"success\":true,\"message\":\"system time set\"}"
    );
    let bad = SetTimeResponse {
        success: false,
        message: String::from("settimeofday failed"),
        error: Some(String::from("errno 1")),
    };
    assert_eq!(
        encode_time_set_response(&bad),
        "{\"success\":false,\"message\":\"settimeofday failed\",\"error\":\"errno 1\"}"
    );
}

#[test]
fn response_parses_its_own_rendering() {
    let cases = [
        (true, "all good", None),
        (false, "no", Some("errno 13")),
        (true, "", None),
    ];
    for (success, message, error) in cases {
        let resp = SetTimeResponse {
            success,
            message: String::from(message),
            error: error.map(String::from),
        };
        let text = encode_time_set_response(&resp);
        let back = parse_time_set_response(&text).unwrap();
        assert_eq!(back.success, success);
        assert_eq!(back.message, message);
        assert_eq!(back.error.as_deref(), error);
    }
}

#[test]
fn response_rejects_malformed_datagrams() {
    for text in [
        "",
        "{\"success\":maybe,\"message\":\"x\"}",
        "{\"success\":true,\"message\":\"x\"",
        "{\"success\":true,\"message\":\"x\"}}",
        "{\"success\":true}",
        "{\"success\":true,\"message\":\"x\",\"error\":\"y\"",
    ] {
        assert!(parse_time_set_response(text).is_none(), "accepted: {}", text);
    }
}

#[test]
fn a_mock_sidecar_round_trip_succeeds() {
    // client side: build the request datagram
    let request = SetTimeRequest { unix_us: 1_700_000_000_000_000 };
    let datagram = encode_time_set_request(&request);
    // service side: parse it, perform the write, answer
    let received = parse_time_set_request(&datagram).unwrap();
    assert_eq!(received.unix_us, request.unix_us);
    let reply = response_for_write(true, 0);
    let reply_datagram = encode_time_set_response(&reply);
    // client side: read the reply and judge it
    let parsed = parse_time_set_response(&reply_datagram).unwrap();
    assert!(parsed.success);
    let verdict = sidecar_reply_verdict(parsed);
    assert_eq!(verdict.ok().as_deref(), Some("system time set"));
}

#[test]
fn no_reply_maps_to_sidecar_not_running() {
    // a receive timeout is the only liveness signal
    assert_eq!(
        sidecar_failure_verdict(SidecarFailureKind::Recv),
        SetTimeErrorKind::SidecarNotRunning
    );
    assert_eq!(
        sidecar_failure_verdict(SidecarFailureKind::Send),
        SetTimeErrorKind::SidecarNotRunning
    );
    assert_eq!(
        sidecar_failure_verdict(SidecarFailureKind::Remote),
        SetTimeErrorKind::SidecarError
    );
    assert_eq!(
        sidecar_failure_verdict(SidecarFailureKind::BadReply),
        SetTimeErrorKind::SidecarError
    );
}

#[test]
fn a_malformed_datagram_gets_a_failure_response_not_a_crash() {
    let reply = response_for_parse_failure();
    assert!(!reply.success);
    assert_eq!(reply.message, "invalid request");
    let text = encode_time_set_response(&reply);
    let back = parse_time_set_response(&text).unwrap();
    assert!(!back.success);
}

#[test]
fn a_failed_write_reports_the_os_error() {
    let reply = response_for_write(false, 1);
    assert!(!reply.success);
    assert_eq!(reply.message, "settimeofday failed");
    assert_eq!(reply.error.as_deref(), Some("errno 1"));
}

#[test]
fn status_composes_the_three_probes() {
    let s = sidecar_status(true, true, true);
    assert!(s.installed && s.running);
    assert_eq!(s.message, "sidecar installed and running");
    let s = sidecar_status(true, true, false);
    assert!(s.installed && !s.running);
    assert_eq!(s.message, "sidecar installed but not running");
    let s = sidecar_status(false, false, false);
    assert!(!s.installed && !s.running);
    assert_eq!(s.message, "sidecar not installed");
}

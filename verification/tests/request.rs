use my_http_server::body_content_type::BodyContentType;
use my_http_server::body_pump::{
    BodyExpectations, BodyPump, EndStreamWatch, HttpVersion, PumpAction, PumpEvent,
};
use my_http_server::convert::{to_bool, to_simple_value};
use my_http_server::headers::{HeaderValue, HttpHeaders};
use my_http_server::request_ip::RequestIp;
use my_http_server::request_parts::{
    body_content_type_of, content_length_of, cookies_of, header_text, host_of, is_websocket_connect,
    parse_u64, path_and_query_of, scheme_of,
};

#[test]
fn header_values_read_as_text_only_when_utf8() {
    let v = HeaderValue::new("x-name", b"value");
    assert_eq!(v.as_str().unwrap(), "value");
    let bad = HeaderValue::new("x-name", &[0xc3, 0x28]);
    let err = bad.as_str().unwrap_err();
    assert_eq!(err.output.get_status_code(), 400);
    assert_eq!(
        err.output.get_text_as_error(),
        "Can not parse header value in header"
    );
}

#[test]
fn the_last_header_of_a_name_is_read() {
    let headers = HttpHeaders::new(vec![("a", "1"), ("b", "2"), ("a", "3")]);
    assert_eq!(headers.get("a"), Some(&"3"));
    assert_eq!(headers.get("b"), Some(&"2"));
    assert_eq!(headers.get("A"), None);
}

#[test]
fn simple_values_parse_or_name_the_parameter() {
    let v: u32 = to_simple_value("limit", "42", "query").unwrap();
    assert_eq!(v, 42);
    let err = to_simple_value::<u32>("limit", "x", "query").unwrap_err();
    assert_eq!(err.output.get_status_code(), 400);
    assert_eq!(err.output.get_text_as_error(), "Can not parse [limit] from [query]");
}

#[test]
fn booleans() {
    assert_eq!(to_bool("f", "1", "q").unwrap(), true);
    assert_eq!(to_bool("f", "TRUE", "q").unwrap(), true);
    assert_eq!(to_bool("f", "0", "q").unwrap(), false);
    assert_eq!(to_bool("f", "False", "q").unwrap(), false);
    let err = to_bool("f", "yes", "q").unwrap_err();
    assert_eq!(err.output.get_text_as_error(), "Can not parse [f] as boolean from [q]");
}

#[test]
fn numbers_parse_as_std_parses_them() {
    assert_eq!(parse_u64("0"), Some(0));
    assert_eq!(parse_u64("+17"), Some(17));
    assert_eq!(parse_u64("18446744073709551615"), Some(u64::MAX));
    assert_eq!(parse_u64("18446744073709551616"), None);
    assert_eq!(parse_u64(""), None);
    assert_eq!(parse_u64("+"), None);
    assert_eq!(parse_u64("-1"), None);
    assert_eq!(parse_u64("1 2"), None);
    for n in [0u64, 7, 10, 999, 123456789, u64::MAX] {
        assert_eq!(parse_u64(&n.to_string()), Some(n));
        assert_eq!(parse_u64(&n.to_string()), n.to_string().parse::<u64>().ok());
    }
}

#[test]
fn content_length_is_read_from_the_raw_header() {
    assert_eq!(content_length_of(Some(b" 123 ")), Some(123));
    assert_eq!(content_length_of(Some(b"12a")), None);
    assert_eq!(content_length_of(Some(&[0x31, 0x80])), None);
    assert_eq!(content_length_of(None), None);
    assert!(header_text(b"a\tb").is_some());
    assert!(header_text(b"a\nb").is_none());
}

#[test]
fn content_type_is_read_from_the_raw_header() {
    assert!(matches!(body_content_type_of(None).unwrap(), BodyContentType::Unknown));
    assert!(matches!(
        body_content_type_of(Some(b"application/json")).unwrap(),
        BodyContentType::Json
    ));
    let err = body_content_type_of(Some(&[0xff])).unwrap_err();
    assert_eq!(
        err.output.get_text_as_error(),
        "Validation error: header content-type has response is not as string"
    );
}

#[test]
fn host_scheme_and_path() {
    assert_eq!(host_of(Some("a"), Some("b"), Some("c")), Some("a"));
    assert_eq!(host_of(None, Some("b"), Some("c")), Some("b"));
    assert_eq!(host_of(None, None, Some("c")), Some("c"));
    assert_eq!(host_of(None, None, None), None);
    assert_eq!(scheme_of(Some("https"), Some("http")), "https");
    assert_eq!(scheme_of(None, Some("ws")), "ws");
    assert_eq!(scheme_of(None, None), "http");
    assert_eq!(path_and_query_of(Some("/a?b=1"), "/a"), "/a?b=1");
    assert_eq!(path_and_query_of(None, "/a"), "/a");
    assert_eq!(path_and_query_of(None, ""), "/");
    assert!(is_websocket_connect(true, Some("WebSocket")));
    assert!(!is_websocket_connect(false, Some("websocket")));
    assert!(!is_websocket_connect(true, None));
}

#[test]
fn cookies_come_from_a_utf8_header_only() {
    assert_eq!(cookies_of(Some(b"a=1")).get("a"), Some("1"));
    assert_eq!(cookies_of(Some(&[0xff])).get("a"), None);
    assert_eq!(cookies_of(None).get("a"), None);
}

#[test]
fn the_real_ip_is_the_first_forwarded_one() {
    let ip = RequestIp::new("10.0.0.1".to_string(), Some(" 1.2.3.4 , 5.6.7.8"));
    assert_eq!(ip.get_real_ip(), "1.2.3.4");
    let single = RequestIp::new("10.0.0.1".to_string(), None);
    assert_eq!(single.get_real_ip(), "10.0.0.1");
    assert_eq!(RequestIp::create_as_single_ip("9.9.9.9".to_string()).get_real_ip_as_string(), "9.9.9.9");
}

fn expectations(version: HttpVersion, content_length: Option<u64>) -> BodyExpectations {
    BodyExpectations { version, content_length, read_timeout: None }
}

#[test]
fn an_announced_length_must_be_met() {
    let e = expectations(HttpVersion::Http11, Some(10));
    assert_eq!(e.incomplete_reason(10, false), None);
    assert_eq!(
        e.incomplete_reason(4, true).as_deref(),
        Some("Request body delivered 4 bytes out of the 10 announced")
    );
}

#[test]
fn an_http2_body_without_length_needs_end_stream() {
    let e = expectations(HttpVersion::Http2, None);
    assert_eq!(e.incomplete_reason(3, true), None);
    assert!(e.incomplete_reason(3, false).unwrap().starts_with("HTTP/2 stream was reset"));
    let e1 = expectations(HttpVersion::Http11, None);
    assert_eq!(e1.incomplete_reason(3, false), None);
    let d = BodyExpectations::default();
    assert_eq!(d.version, HttpVersion::Http11);
}

#[test]
fn end_stream_is_latched() {
    let mut w = EndStreamWatch::new();
    assert!(!w.end_stream_seen());
    w.sample(true);
    w.sample(false);
    assert!(w.end_stream_seen());
}

#[test]
fn the_pump_forwards_pieces_and_finishes_only_a_complete_body() {
    let mut pump = BodyPump::new(expectations(HttpVersion::Http2, Some(5)));
    assert!(matches!(pump.on_event(PumpEvent::Chunk { len: 3, end_stream: false }), PumpAction::Forward));
    assert!(matches!(pump.on_event(PumpEvent::Chunk { len: 2, end_stream: true }), PumpAction::Forward));
    assert_eq!(pump.delivered, 5);
    assert!(matches!(pump.on_event(PumpEvent::Ended { end_stream: false }), PumpAction::Finish));

    let mut short = BodyPump::new(expectations(HttpVersion::Http11, Some(5)));
    short.on_event(PumpEvent::Chunk { len: 1, end_stream: false });
    match short.on_event(PumpEvent::Ended { end_stream: true }) {
        PumpAction::Fail(reason) => {
            assert_eq!(reason, "Request body delivered 1 bytes out of the 5 announced")
        }
        _ => panic!("expected a failure"),
    }

    let mut reset = BodyPump::new(expectations(HttpVersion::Http2, None));
    reset.on_event(PumpEvent::Chunk { len: 1, end_stream: true });
    assert!(matches!(reset.on_event(PumpEvent::Ended { end_stream: false }), PumpAction::Finish));
}

#[test]
fn the_pump_stops_on_everything_else() {
    let mut pump = BodyPump::new(BodyExpectations::default());
    pump.on_event(PumpEvent::Chunk { len: 7, end_stream: false });
    assert!(matches!(pump.on_event(PumpEvent::ReaderClosed), PumpAction::Stop));
    assert!(matches!(
        pump.on_event(PumpEvent::TimedOut),
        PumpAction::ReportTimeout { delivered: 7 }
    ));
    match pump.on_event(PumpEvent::ReadFailed("reset".to_string())) {
        PumpAction::Fail(t) => assert_eq!(t, "Can not read request body chunk: reset"),
        _ => panic!("expected a failure"),
    }
    match pump.on_event(PumpEvent::AlreadyConsumed) {
        PumpAction::Fail(t) => assert_eq!(t, "Request body was already consumed"),
        _ => panic!("expected a failure"),
    }
}

use my_http_server::content_encoding::ContentEncoding;
use my_http_server::headers::RequestHeaders;
use my_http_server::key_values::KeyValues;

#[test]
fn request_headers_are_found_whatever_their_case() {
    let headers = RequestHeaders::new(vec![
        ("content-type", &b"text/plain"[..]),
        ("x-token", &b"a"[..]),
        ("x-token", &b"b"[..]),
        ("x-bad", &[0x01][..]),
    ]);
    assert_eq!(headers.try_get_case_insensitive("X-Token").unwrap().value, b"a");
    assert_eq!(headers.try_get_case_sensitive("x-token").unwrap().name, "x-token");
    assert!(headers.try_get_case_insensitive("missing").is_none());
    assert_eq!(headers.try_get_case_insensitive_as_str("Content-Type").unwrap(), Some("text/plain"));
    assert_eq!(headers.try_get_case_sensitive_as_str("nope").unwrap(), None);
    let err = headers.try_get_case_insensitive_as_str("x-bad").unwrap_err();
    assert_eq!(
        err.output.get_text_as_error(),
        "Validation error: Header value is not a valid string. Header name: x-bad"
    );
    let missing = headers.get_required_case_insensitive("authorization").err().unwrap();
    assert_eq!(
        missing.output.get_text_as_error(),
        "Required parameter [authorization] is missing in header"
    );
    assert!(headers.get_required_case_sensitive("x-token").is_ok());
}

#[test]
fn the_content_encoding_header_is_read() {
    let none = RequestHeaders::new(vec![]);
    assert_eq!(none.get_content_encoding().unwrap(), ContentEncoding::Identity);
    let gzip = RequestHeaders::new(vec![("content-encoding", &b" GZIP "[..])]);
    assert_eq!(gzip.get_content_encoding().unwrap(), ContentEncoding::GZip);
    let bad = RequestHeaders::new(vec![("content-encoding", &b"deflate"[..])]);
    assert!(bad.get_content_encoding().is_err());
}

#[test]
fn a_key_value_reads_back_what_was_set() {
    let mut kv = KeyValues::new();
    assert_eq!(kv.get_key_value("user"), None);
    assert_eq!(kv.set_key_value("user".to_string(), b"alice".to_vec()), None);
    assert_eq!(kv.get_key_value("user"), Some(&b"alice"[..]));
    assert_eq!(kv.set_key_value("user".to_string(), b"bob".to_vec()), Some(b"alice".to_vec()));
    assert_eq!(kv.get_key_value("user"), Some(&b"bob"[..]));
    assert_eq!(kv.set_key_value("role".to_string(), b"admin".to_vec()), None);
    assert_eq!(kv.get_key_value("user"), Some(&b"bob"[..]));
    assert_eq!(kv.get_key_value("role"), Some(&b"admin"[..]));
}

#[test]
fn a_body_read_in_full_is_handed_on_whole() {
    let mut pump = BodyPump::new(BodyExpectations::default());
    assert!(matches!(pump.on_event(PumpEvent::WholeBody { len: 3 }), PumpAction::ForwardAndFinish));
    assert!(matches!(pump.on_event(PumpEvent::WholeBody { len: 0 }), PumpAction::Finish));
}

#[test]
fn a_read_body_is_accepted_only_when_complete() {
    let e = expectations(HttpVersion::Http11, Some(3));
    let ok = e.accept_body(3, false, b"abc".to_vec(), ContentEncoding::Identity).unwrap();
    assert_eq!(ok, b"abc".to_vec());
    let err = e
        .accept_body(2, false, b"ab".to_vec(), ContentEncoding::Identity)
        .unwrap_err();
    assert_eq!(err.output.get_status_code(), 400);
    assert_eq!(
        err.output.get_text_as_error(),
        "Request body delivered 2 bytes out of the 3 announced"
    );
    let h2 = expectations(HttpVersion::Http2, None);
    assert!(h2.accept_body(2, false, b"ab".to_vec(), ContentEncoding::Identity).is_err());
    assert!(h2.accept_body(2, true, b"ab".to_vec(), ContentEncoding::Identity).is_ok());
}

#[test]
fn the_pump_over_a_whole_body_counts_and_latches() {
    let mut pump = BodyPump::new(expectations(HttpVersion::Http2, Some(6)));
    for (len, end) in [(2u64, false), (3, true), (1, false)] {
        assert!(matches!(pump.on_event(PumpEvent::Chunk { len, end_stream: end }), PumpAction::Forward));
    }
    assert_eq!(pump.delivered, 6);
    assert!(pump.watch.end_stream_seen());
    assert!(matches!(pump.on_event(PumpEvent::Ended { end_stream: false }), PumpAction::Finish));
}

#[test]
fn a_watch_keeps_end_stream_through_every_later_sample() {
    let mut w = EndStreamWatch::new();
    for flag in [false, false, true, false, false, false] {
        w.sample(flag);
    }
    assert!(w.end_stream_seen());
    let mut never = EndStreamWatch::default();
    for _ in 0..5 {
        never.sample(false);
    }
    assert!(!never.end_stream_seen());
}

#[test]
fn an_http2_body_that_never_saw_end_stream_fails_once() {
    let mut pump = BodyPump::new(expectations(HttpVersion::Http2, None));
    for len in [4u64, 4, 2] {
        assert!(matches!(pump.on_event(PumpEvent::Chunk { len, end_stream: false }), PumpAction::Forward));
    }
    assert_eq!(pump.delivered, 10);
    match pump.on_event(PumpEvent::Ended { end_stream: false }) {
        PumpAction::Fail(reason) => assert_eq!(
            reason,
            "HTTP/2 stream was reset before END_STREAM was observed — the request body may be incomplete"
        ),
        _ => panic!("expected a failure"),
    }
}

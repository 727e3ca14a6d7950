use my_http_server::body_content_type::{extract_web_form_boundary, BodyContentType};
use my_http_server::request_content::HttpRequestBodyContent;

#[test]
fn test_boundary_extractor() {
    let content_type_header = "multipart/form-data; boundary=----WebKitFormBoundaryXayIfSQWkEtJ6k10";

    let boundary = extract_web_form_boundary(content_type_header).unwrap();

    assert_eq!("----WebKitFormBoundaryXayIfSQWkEtJ6k10", boundary);
}

#[test]
fn content_types_are_recognised() {
    assert!(matches!(
        BodyContentType::from_content_type("application/json; charset=utf-8").unwrap(),
        BodyContentType::Json
    ));
    assert!(matches!(
        BodyContentType::from_content_type("application/X-WWW-Form-Urlencoded").unwrap(),
        BodyContentType::UrlEncoded
    ));
    assert!(matches!(
        BodyContentType::from_content_type("text/plain").unwrap(),
        BodyContentType::Unknown
    ));
    assert!(matches!(BodyContentType::from_content_type("").unwrap(), BodyContentType::Unknown));
    match BodyContentType::from_content_type("multipart/form-data; boundary=XyZ").unwrap() {
        BodyContentType::FormData(b) => assert_eq!(b, "XyZ"),
        other => panic!("expected form data, got {:?}", other),
    }
    let err = BodyContentType::from_content_type("multipart/form-data").unwrap_err();
    assert_eq!(err.output.get_status_code(), 500);
    assert_eq!(
        err.output.get_text_as_error(),
        "Can not extract FromData boundary from content type 'multipart/form-data'"
    );
}

#[test]
fn bodies_are_recognised() {
    assert!(matches!(BodyContentType::detect_from_body(b"  {\"a\":1}"), Some(BodyContentType::Json)));
    assert!(matches!(BodyContentType::detect_from_body(b"[1]"), Some(BodyContentType::Json)));
    assert!(matches!(
        BodyContentType::detect_from_body(b"a=1&b=%20x"),
        Some(BodyContentType::UrlEncoded)
    ));
    assert!(BodyContentType::detect_from_body(b"a=1&b=%2").is_none());
    assert!(BodyContentType::detect_from_body(b"plain").is_none());
    assert!(BodyContentType::Unknown.is_unknown_or_empty());
    assert!(BodyContentType::Empty.is_unknown_or_empty());
    assert!(!BodyContentType::Json.is_unknown_or_empty());
}

#[test]
fn a_body_of_unknown_kind_is_recognised_from_its_bytes() {
    let body = HttpRequestBodyContent::new(b"x=1".to_vec(), BodyContentType::Unknown).unwrap();
    assert_eq!(body.content_type_header().as_deref(), Some("application/x-www-form-urlencoded"));
    assert_eq!(body.as_str().unwrap(), "x=1");
    assert_eq!(body.as_slice(), b"x=1");

    let declared = HttpRequestBodyContent::new(
        b"x=1".to_vec(),
        BodyContentType::FormData("B".to_string()),
    )
    .unwrap();
    assert_eq!(
        declared.content_type_header().as_deref(),
        Some("multipart/form-data; boundary=B")
    );

    let unknown = HttpRequestBodyContent::new(b"???".to_vec(), BodyContentType::Empty).unwrap();
    assert_eq!(unknown.content_type_header(), None);
    assert_eq!(unknown.get_body(), b"???".to_vec());
}

#[test]
fn a_body_that_is_not_text_is_a_fatal_error() {
    let body = HttpRequestBodyContent::new(vec![0xff, 0xfe], BodyContentType::Unknown).unwrap();
    let err = body.as_str().unwrap_err();
    assert_eq!(err.output.get_status_code(), 500);
    let text = err.output.get_text_as_error();
    assert!(text.starts_with("Can not convert body to str. Err: Utf8Error"));
}

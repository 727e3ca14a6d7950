use my_http_server::output::{HttpOutput, HttpResponseHeaders, WebContentType};
use my_http_server::result_builder::HttpResultBuilder;

fn find_header<'a>(headers: &'a HttpResponseHeaders, name: &str) -> Option<&'a str> {
    headers
        .headers
        .iter()
        .find(|(k, _)| k.as_str().eq_ignore_ascii_case(name))
        .map(|(_, v)| v.as_str())
}

#[test]
fn empty_is_noop() {
    let built = HttpResultBuilder::new().with_compression(1024).build();
    match built {
        HttpOutput::Empty => {}
        other => panic!("expected Empty, got {:?}", other),
    }
}

#[test]
fn redirect_is_noop() {
    let built = HttpOutput::as_redirect("/elsewhere", false)
        .with_compression(1)
        .build();
    match built {
        HttpOutput::Redirect { headers, .. } => {
            assert!(find_header(&headers, "Content-Encoding").is_none());
        }
        other => panic!("expected Redirect, got {:?}", other),
    }
}

#[test]
fn body_below_threshold_is_unchanged() {
    let raw = vec![b'a'; 5 * 1024];
    let built = HttpResultBuilder {
        output: HttpOutput::as_content(raw.clone(), None),
    }
    .with_compression(10 * 1024)
    .build();

    match built {
        HttpOutput::Content {
            content, headers, ..
        } => {
            assert_eq!(content, raw);
            assert!(find_header(&headers, "Content-Encoding").is_none());
        }
        other => panic!("expected Content, got {:?}", other),
    }
}

#[test]
fn highly_compressible_body_is_compressed() {
    let raw = vec![b'a'; 50 * 1024];
    let built = HttpResultBuilder {
        output: HttpOutput::as_content(raw.clone(), None),
    }
    .with_compression(10 * 1024)
    .build();

    match built {
        HttpOutput::Content {
            content, headers, ..
        } => {
            assert!(content.len() * 100 <= raw.len() * 80);
            assert_eq!(find_header(&headers, "Content-Encoding"), Some("zstd"));
            let roundtrip = zstd::decode_all(content.as_slice()).unwrap();
            assert_eq!(roundtrip, raw);
        }
        other => panic!("expected Content, got {:?}", other),
    }
}

#[test]
fn incompressible_body_is_left_alone() {
    let mut raw = Vec::with_capacity(50 * 1024);
    let mut seed: u32 = 0x9E37_79B1;
    for _ in 0..50 * 1024 {
        seed = seed.wrapping_mul(1664525).wrapping_add(1013904223);
        raw.push((seed >> 24) as u8);
    }

    let built = HttpResultBuilder {
        output: HttpOutput::as_content(raw.clone(), None),
    }
    .with_compression(10 * 1024)
    .build();

    match built {
        HttpOutput::Content {
            content, headers, ..
        } => {
            assert_eq!(content, raw);
            assert!(find_header(&headers, "Content-Encoding").is_none());
        }
        other => panic!("expected Content, got {:?}", other),
    }
}

#[test]
fn compression_keeps_the_status_code() {
    let built = HttpResultBuilder::new()
        .set_status_code(201)
        .set_content(vec![b'z'; 40 * 1024])
        .with_compression(1024)
        .build();
    assert_eq!(built.get_status_code(), 201);
}

#[test]
fn a_compressed_body_that_does_not_pay_is_not_used() {
    let b = HttpResultBuilder::new().set_content(vec![1, 2, 3, 4, 5]);
    let kept = b.use_compressed(Some(vec![9, 9, 9, 9, 9])).build();
    match kept {
        HttpOutput::Content { content, headers, .. } => {
            assert_eq!(content, vec![1, 2, 3, 4, 5]);
            assert!(find_header(&headers, "Content-Encoding").is_none());
        }
        other => panic!("expected Content, got {:?}", other),
    }
    let b = HttpResultBuilder::new().set_content(vec![1, 2, 3, 4, 5]);
    let used = b.use_compressed(Some(vec![7, 7, 7, 7])).build();
    match used {
        HttpOutput::Content { content, headers, .. } => {
            assert_eq!(content, vec![7, 7, 7, 7]);
            assert_eq!(find_header(&headers, "Content-Encoding"), Some("zstd"));
        }
        other => panic!("expected Content, got {:?}", other),
    }
}

#[test]
fn a_header_on_an_empty_output_makes_a_no_content_response() {
    let built = HttpResultBuilder::new()
        .add_header("X-A".to_string(), "1".to_string())
        .build();
    assert_eq!(built.get_status_code(), 204);
    match built {
        HttpOutput::Content { headers, .. } => {
            assert_eq!(find_header(&headers, "X-A"), Some("1"));
        }
        other => panic!("expected Content, got {:?}", other),
    }
}

#[test]
fn text_content_sets_text_type_and_status_200() {
    let built = HttpResultBuilder::new()
        .set_content_as_text("hi".to_string())
        .build();
    assert_eq!(built.get_status_code(), 200);
    assert_eq!(built.get_content_type_as_str(), Some(WebContentType::Text.as_str()));
    assert_eq!(built.get_content_size(), 2);
}

#[test]
fn ready_made_errors_carry_their_status() {
    assert_eq!(HttpOutput::as_not_found("x").build().get_status_code(), 404);
    assert_eq!(HttpOutput::as_unauthorized(None).build().get_status_code(), 401);
    assert_eq!(
        HttpOutput::as_unauthorized(Some("why")).build().get_text_as_error(),
        "Unauthorized request: why"
    );
    assert_eq!(HttpOutput::as_forbidden(None).build().get_text_as_error(), "Forbidden");
    assert_eq!(HttpOutput::as_validation_error("bad").build().get_status_code(), 400);
    assert_eq!(HttpOutput::as_fatal_error("boom").build().get_status_code(), 500);
    assert_eq!(
        HttpOutput::as_not_supported_content_type("x").build().get_status_code(),
        415
    );
    assert_eq!(
        HttpOutput::required_parameter_is_missing("id", "query")
            .build()
            .get_text_as_error(),
        "Required parameter [id] is missing in query"
    );
}

#[test]
fn permanent_redirect_is_301() {
    assert_eq!(HttpOutput::as_redirect("/x", true).build().get_status_code(), 301);
    assert_eq!(HttpOutput::as_redirect("/x", false).build().get_status_code(), 302);
}

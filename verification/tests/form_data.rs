use my_http_server::form_data::{FormDataItem, FormDataReader};

#[test]
fn test_value_as_string_parser() {
    let msg = vec![
        67, 111, 110, 116, 101, 110, 116, 45, 68, 105, 115, 112, 111, 115, 105, 116, 105, 111,
        110, 58, 32, 102, 111, 114, 109, 45, 100, 97, 116, 97, 59, 32, 110, 97, 109, 101, 61, 34,
        100, 116, 70, 114, 111, 109, 34, 13, 10, 13, 10, 50, 13, 10,
    ];

    let item = FormDataItem::parse(&msg);

    match item {
        FormDataItem::ValueAsString { value, name } => {
            assert_eq!(name, "dtFrom");
            assert_eq!(value, Some("2"));
        }
        FormDataItem::File { .. } => {
            panic!("Should be value as string");
        }
    }
}

#[test]
fn test_value_file_parser() {
    let msg = vec![
        67, 111, 110, 116, 101, 110, 116, 45, 68, 105, 115, 112, 111, 115, 105, 116, 105, 111,
        110, 58, 32, 102, 111, 114, 109, 45, 100, 97, 116, 97, 59, 32, 110, 97, 109, 101, 61, 34,
        102, 105, 108, 101, 34, 59, 32, 102, 105, 108, 101, 110, 97, 109, 101, 61, 34, 116, 101,
        115, 116, 45, 112, 97, 121, 108, 111, 97, 100, 46, 116, 120, 116, 34, 13, 10, 67, 111,
        110, 116, 101, 110, 116, 45, 84, 121, 112, 101, 58, 32, 116, 101, 120, 116, 47, 112, 108,
        97, 105, 110, 13, 10, 13, 10, 49, 50, 51, 13, 10,
    ];

    let item = FormDataItem::parse(&msg);

    match item {
        FormDataItem::ValueAsString { value: _, name: _ } => {
            panic!("Should be value as string");
        }
        FormDataItem::File {
            name,
            file_name,
            content_type,
            content,
        } => {
            assert_eq!(name, "file");
            assert_eq!(file_name, "test-payload.txt");
            assert_eq!(content_type, "text/plain");
            assert_eq!(std::str::from_utf8(content).unwrap(), "123");
        }
    }
}

#[test]
fn test_content_disposition_test_real_data() {
    let src: Vec<u8> = vec![
        67, 111, 110, 116, 101, 110, 116, 45, 68, 105, 115, 112, 111, 115, 105, 116, 105, 111,
        110, 58, 32, 102, 111, 114, 109, 45, 100, 97, 116, 97, 59, 32, 110, 97, 109, 101, 61, 34,
        100, 111, 99, 73, 100, 34, 13, 10, 13, 10, 48, 13, 10,
    ];

    println!("src: {:?}", std::str::from_utf8(src.as_slice()).unwrap());

    let result = FormDataItem::parse(&src);

    assert_eq!(result.get_name(), "docId");
    assert_eq!(result.unwrap_as_string().unwrap(), "0");
}

#[test]
fn an_empty_value_reads_as_none() {
    let src = b"Content-Disposition: form-data; name=\"empty\"\r\n\r\n\r\n";
    let item = FormDataItem::parse(src);
    match item {
        FormDataItem::ValueAsString { name, value } => {
            assert_eq!(name, "empty");
            assert_eq!(value, None);
        }
        FormDataItem::File { .. } => panic!("expected a value"),
    }
    let err = item.unwrap_as_string().unwrap_err();
    assert_eq!(err.output.get_status_code(), 400);
    assert_eq!(
        err.output.get_text_as_error(),
        "Required parameter [empty] is missing in FormData"
    );
}

#[test]
fn a_file_does_not_unwrap_as_string() {
    let src = b"content-disposition: form-data; name=\"f\"; filename=\"a.bin\"\r\ncontent-type: application/octet-stream\r\n\r\n\x00\x01\r\n";
    let item = FormDataItem::parse(src);
    assert_eq!(item.unwrap_as_file_name(), "a.bin");
    assert_eq!(item.get_name(), "f");
    let err = item.unwrap_as_string().unwrap_err();
    assert_eq!(
        err.output.get_text_as_error(),
        "Validation error: Can not unwrap FormDataItem as string. It is file"
    );
}

#[test]
fn malformed_parts_are_refused() {
    // no blank line between headers and content
    assert!(FormDataItem::try_parse(b"Content-Disposition: form-data; name=\"x\"\r\n").is_none());
    // no name
    assert!(FormDataItem::try_parse(b"Content-Disposition: form-data\r\n\r\nv\r\n").is_none());
    // a file without a file name
    assert!(FormDataItem::try_parse(
        b"Content-Disposition: form-data; name=\"f\"\r\nContent-Type: text/plain\r\n\r\nv\r\n"
    )
    .is_none());
    // a header line without a colon
    assert!(FormDataItem::try_parse(b"Content-Disposition form-data\r\n\r\nv\r\n").is_none());
}

#[test]
fn later_name_parameters_win_and_unknown_headers_are_skipped() {
    let src = b"X-Other: 1\r\nContent-Disposition: form-data; name=\"a\"; name = \"b\"\r\n\r\nvalue\r\n";
    let item = FormDataItem::parse(src);
    assert_eq!(item.get_name(), "b");
    assert_eq!(item.unwrap_as_string().unwrap(), "value");
}

const BODY: &[u8] = b"------B\r\nContent-Disposition: form-data; name=\"a\"\r\n\r\n1\r\n------B\r\nContent-Disposition: form-data; name=\"file\"; filename=\"t.txt\"\r\nContent-Type: text/plain\r\n\r\nhello\r\n------B\r\nContent-Disposition: form-data; name=\"a\"\r\n\r\n2\r\n------B--\r\n";

#[test]
fn a_body_is_split_into_its_parts() {
    let reader = FormDataReader::new(BODY);
    let a = reader.get_required("a").unwrap();
    assert_eq!(a.unwrap_as_string().unwrap(), "1");
    let file = reader.get_optional("file").unwrap();
    assert_eq!(file.unwrap_as_file_name(), "t.txt");
    match file {
        FormDataItem::File { content, content_type, .. } => {
            assert_eq!(*content, &b"hello"[..]);
            assert_eq!(*content_type, "text/plain");
        }
        _ => panic!("expected a file"),
    }
    assert!(reader.get_optional("missing").is_none());
    let err = reader.get_required("missing").unwrap_err();
    assert_eq!(err.output.get_status_code(), 400);
    assert_eq!(
        err.output.get_text_as_error(),
        "Required parameter [missing] is missing in form data"
    );
}

#[test]
fn a_body_with_a_broken_part_is_refused() {
    let body = b"--B\r\nContent-Disposition: form-data\r\n\r\nx\r\n--B--\r\n";
    assert!(FormDataReader::try_new(body).is_none());
    assert!(FormDataReader::try_new(BODY).is_some());
}

#[test]
fn a_written_field_reads_back() {
    let mut part = b"Content-Disposition: form-data; name=\"".to_vec();
    part.extend_from_slice(b"a=b\"c");
    part.extend_from_slice(b"\"\r\n\r\n");
    part.extend_from_slice("välue".as_bytes());
    part.extend_from_slice(b"\r\n");
    let item = FormDataItem::parse(&part);
    assert_eq!(item.get_name(), "a=b\"c");
    assert_eq!(item.unwrap_as_string().unwrap(), "välue");
}

#[test]
fn the_content_is_what_follows_the_first_empty_line() {
    let src = b"X-Trace: 1\r\nContent-Disposition: form-data; name=\"n\"\r\n\r\nline1\r\n\r\nline2\r\n";
    let item = FormDataItem::parse(src);
    assert_eq!(item.unwrap_as_string().unwrap(), "line1\r\n\r\nline2");
}

#[test]
fn a_content_type_header_in_any_case_makes_a_file() {
    let src = b"content-TYPE:   image/png\r\nContent-Disposition: form-data; name=\"f\"; filename=\"a.png\"\r\n\r\n\x89PNG\r\n";
    match FormDataItem::parse(src) {
        FormDataItem::File { name, file_name, content_type, content } => {
            assert_eq!(name, "f");
            assert_eq!(file_name, "a.png");
            assert_eq!(content_type, "image/png");
            assert_eq!(content, &b"\x89PNG"[..]);
        }
        _ => panic!("expected a file"),
    }
    // a header whose name only ends in content-type does not make a file
    let other = b"X-Content-Type: image/png\r\nContent-Disposition: form-data; name=\"v\"\r\n\r\n\r\n";
    match FormDataItem::parse(other) {
        FormDataItem::ValueAsString { name, value } => {
            assert_eq!(name, "v");
            assert_eq!(value, None);
        }
        _ => panic!("expected a value"),
    }
}

#[test]
fn the_last_content_type_line_gives_the_content_type() {
    let src = b"Content-Type: text/plain\r\nContent-Disposition: form-data; name=\"f\"; filename=\"a\"\r\ncontent-type: application/json\r\n\r\n{}\r\n";
    match FormDataItem::parse(src) {
        FormDataItem::File { content_type, content, .. } => {
            assert_eq!(content_type, "application/json");
            assert_eq!(content, &b"{}"[..]);
        }
        _ => panic!("expected a file"),
    }
}

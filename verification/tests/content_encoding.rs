use std::io::Write;

use my_http_server::content_encoding::ContentEncoding;

fn gzip(raw: &[u8]) -> Vec<u8> {
    let mut encoder = flate2::write::GzEncoder::new(Vec::new(), flate2::Compression::fast());
    encoder.write_all(raw).unwrap();
    encoder.finish().unwrap()
}

fn zstd(raw: &[u8]) -> Vec<u8> {
    ruzstd::encoding::compress_to_vec(raw, ruzstd::encoding::CompressionLevel::Fastest)
}

const BODY: &[u8] = br#"{"email":"a@b.com","name":"John Doe, who compresses well"}"#;

#[test]
fn an_absent_or_identity_header_means_no_encoding() {
    assert_eq!(ContentEncoding::new(None).unwrap(), ContentEncoding::Identity);
    assert_eq!(ContentEncoding::new(Some("")).unwrap(), ContentEncoding::Identity);
    assert_eq!(
        ContentEncoding::new(Some(" identity ")).unwrap(),
        ContentEncoding::Identity
    );
}

#[test]
fn the_header_is_matched_case_insensitively() {
    assert_eq!(ContentEncoding::new(Some("GZip")).unwrap(), ContentEncoding::GZip);
    assert_eq!(ContentEncoding::new(Some("x-gzip")).unwrap(), ContentEncoding::GZip);
    assert_eq!(ContentEncoding::new(Some("BR")).unwrap(), ContentEncoding::Br);
    assert_eq!(ContentEncoding::new(Some("zstd")).unwrap(), ContentEncoding::Zstd);
}

#[test]
fn an_encoding_we_can_not_undo_is_rejected() {
    assert!(ContentEncoding::new(Some("deflate")).is_err());
    // A list of codecs is not supported either: exactly one layer is decoded.
    assert!(ContentEncoding::new(Some("gzip, br")).is_err());
}

#[test]
fn an_unencoded_body_is_passed_through_untouched() {
    let body = ContentEncoding::Identity
        .decompress_if_needed(BODY.to_vec())
        .unwrap();

    assert_eq!(body.as_slice(), BODY);
}

#[test]
fn a_gzip_body_is_decompressed() {
    let body = ContentEncoding::GZip.decompress_if_needed(gzip(BODY)).unwrap();

    assert_eq!(body.as_slice(), BODY);
}

#[test]
fn a_zstd_body_is_decompressed() {
    let compressed = zstd(BODY);
    assert_ne!(compressed.as_slice(), BODY);

    let body = ContentEncoding::Zstd.decompress_if_needed(compressed).unwrap();

    assert_eq!(body.as_slice(), BODY);
}

#[test]
fn a_body_encoded_with_a_codec_other_than_the_announced_one_still_decodes() {
    let body = ContentEncoding::Zstd.decompress_if_needed(gzip(BODY)).unwrap();
    assert_eq!(body.as_slice(), BODY);

    let body = ContentEncoding::GZip.decompress_if_needed(zstd(BODY)).unwrap();
    assert_eq!(body.as_slice(), BODY);
}

#[test]
fn unsupported_encoding_error_names_the_trimmed_value() {
    let err = ContentEncoding::new(Some("  deflate ")).unwrap_err();
    assert_eq!(err.output.get_status_code(), 400);
    assert_eq!(
        err.output.get_text_as_error(),
        "Validation error: Unsupported content encoding: deflate"
    );
}

#[test]
fn a_body_nothing_decodes_is_a_fatal_error() {
    let err = ContentEncoding::GZip
        .decompress_if_needed(b"plain text, not compressed".to_vec())
        .unwrap_err();
    assert_eq!(err.output.get_status_code(), 500);
    assert_eq!(
        err.output.get_text_as_error(),
        "Can not decompress body using GZip method"
    );
}

#[test]
fn fall_back_with_identity_announced_tries_gzip() {
    let body = ContentEncoding::Identity.decompress_fall_back(&gzip(BODY)).unwrap();
    assert_eq!(body.as_slice(), BODY);
}

// A brotli stream holding one uncompressed meta-block with `hello\n`.
const HELLO_BR: &[u8] = b"\x8f\x02\x80\x68\x65\x6c\x6c\x6f\x0a\x03";

#[test]
fn a_brotli_body_is_decompressed() {
    let body = ContentEncoding::Br.decompress_if_needed(HELLO_BR.to_vec()).unwrap();
    assert_eq!(body.as_slice(), b"hello\n");
}

#[test]
fn a_gzip_body_announced_as_brotli_still_decodes() {
    let body = ContentEncoding::Br.decompress_if_needed(gzip(BODY)).unwrap();
    assert_eq!(body.as_slice(), BODY);
}

//! `Content-Encoding` of a request body, and undoing it.
use std::io::Read;
use vstd::prelude::*;
use vstd::string::*;
use crate::output::{HttpFailResult, text_output};
use crate::text::{trim_str, trimmed, ascii_equals_ignore_case, eq_ignore_case};

verus! {

/// How a request body is encoded.
#[derive(Debug, Clone, Copy, PartialEq, Eq, Structural)]
pub enum ContentEncoding {
    Identity,
    GZip,
    Br,
    /// Decoding only - the server never answers with zstd.
    Zstd,
}

/// The encoding a `Content-Encoding` header value names: `None` for an absent,
/// empty or `identity` header; `None` (the outer option) for one we can not undo.
/// Names are matched with ASCII case ignored, after trimming white space.
pub open spec fn encoding_named(header_value: Option<Seq<char>>) -> Option<ContentEncoding> {
    match header_value {
        None => Some(ContentEncoding::Identity),
        Some(v) => {
            let t = trimmed(v);
            if t.len() == 0 || eq_ignore_case(t, "identity"@) {
                Some(ContentEncoding::Identity)
            } else if eq_ignore_case(t, "gzip"@) || eq_ignore_case(t, "x-gzip"@) {
                Some(ContentEncoding::GZip)
            } else if eq_ignore_case(t, "br"@) {
                Some(ContentEncoding::Br)
            } else if eq_ignore_case(t, "zstd"@) {
                Some(ContentEncoding::Zstd)
            } else {
                None
            }
        },
    }
}

/// The debug name of an encoding.
pub open spec fn encoding_name(e: ContentEncoding) -> Seq<char> {
    match e {
        ContentEncoding::Identity => "None"@,
        ContentEncoding::GZip => "GZip"@,
        ContentEncoding::Br => "Br"@,
        ContentEncoding::Zstd => "Zstd"@,
    }
}

/// What `flate2::read::GzDecoder` reads out of `body` (`None` when it fails).
pub uninterp spec fn gzip_decoded(body: Seq<u8>) -> Option<Seq<u8>>;

/// What `ruzstd::decoding::StreamingDecoder` reads out of `body` (`None` when it fails).
pub uninterp spec fn zstd_decoded(body: Seq<u8>) -> Option<Seq<u8>>;

/// What `brotli_decompressor::Decompressor` reads out of `body` (`None` when it fails).
pub uninterp spec fn brotli_decoded(body: Seq<u8>) -> Option<Seq<u8>>;

/// `flate2::read::GzDecoder`: the whole output read from a gzip decoder over
/// `body`, or `None` on a read error. Its result is named: `gzip_decoded(body)`.
#[verifier::external_body]
fn decompress_gzip(body: &[u8]) -> (r: Option<Vec<u8>>)
    ensures
        match r {
            Some(v) => gzip_decoded(body@) == Some(v@),
            None => gzip_decoded(body@) is None,
        },
{
    let mut result = Vec::new();
    match flate2::read::GzDecoder::new(body).read_to_end(&mut result) {
        Ok(_) => Some(result),
        Err(_) => None,
    }
}

/// `ruzstd::decoding::StreamingDecoder`: the whole output read from a zstd
/// decoder over `body`, or `None` when the frame header or a read is refused.
/// Its result is named: `zstd_decoded(body)`.
#[verifier::external_body]
fn decompress_zstd(body: &[u8]) -> (r: Option<Vec<u8>>)
    ensures
        match r {
            Some(v) => zstd_decoded(body@) == Some(v@),
            None => zstd_decoded(body@) is None,
        },
{
    let mut decoder = match ruzstd::decoding::StreamingDecoder::new(body) {
        Ok(d) => d,
        Err(_) => return None,
    };
    let mut result = Vec::new();
    match decoder.read_to_end(&mut result) {
        Ok(_) => Some(result),
        Err(_) => None,
    }
}

/// `brotli_decompressor::Decompressor` with a 4096-byte buffer: the whole
/// output read from it over `body`, or `None` on a read error. Its result is
/// named: `brotli_decoded(body)`.
#[verifier::external_body]
fn decompress_br(body: &[u8]) -> (r: Option<Vec<u8>>)
    ensures
        match r {
            Some(v) => brotli_decoded(body@) == Some(v@),
            None => brotli_decoded(body@) is None,
        },
{
    let mut result = Vec::new();
    match brotli_decompressor::Decompressor::new(body, 4096).read_to_end(&mut result) {
        Ok(_) => Some(result),
        Err(_) => None,
    }
}

/// The result of decoding `body` with `codec`.
pub open spec fn decoded_with(codec: ContentEncoding, body: Seq<u8>) -> Option<Seq<u8>> {
    match codec {
        ContentEncoding::Identity => Some(body),
        ContentEncoding::GZip => gzip_decoded(body),
        ContentEncoding::Br => brotli_decoded(body),
        ContentEncoding::Zstd => zstd_decoded(body),
    }
}

/// After the announced codec failed: the first of gzip, zstd and brotli (in
/// that order, the announced one skipped) that decodes `body`.
pub open spec fn fall_back(announced: ContentEncoding, body: Seq<u8>) -> Option<Seq<u8>> {
    if announced != ContentEncoding::GZip && gzip_decoded(body) is Some {
        gzip_decoded(body)
    } else if announced != ContentEncoding::Zstd && zstd_decoded(body) is Some {
        zstd_decoded(body)
    } else if announced != ContentEncoding::Br && brotli_decoded(body) is Some {
        brotli_decoded(body)
    } else {
        None
    }
}

/// What a body announced as `announced` decodes to: the announced codec's
/// output, else the fall-back's.
pub open spec fn body_decoded(announced: ContentEncoding, body: Seq<u8>) -> Option<Seq<u8>> {
    match decoded_with(announced, body) {
        Some(b) => Some(b),
        None => fall_back(announced, body),
    }
}

/// The message of the error a body that nothing decodes is answered with.
pub open spec fn undecodable_text(announced: ContentEncoding) -> Seq<char> {
    "Can not decompress body using "@ + encoding_name(announced) + " method"@
}

impl ContentEncoding {
    /// Reads a `Content-Encoding` header value.
    pub fn new(header_value: Option<&str>) -> (r: Result<Self, HttpFailResult>)
        ensures
            match encoding_named(match header_value {
                Some(v) => Some(v@),
                None => None,
            }) {
                Some(e) => r == Ok::<ContentEncoding, HttpFailResult>(e),
                None => r matches Err(err) && err.output@ == text_output(
                    400,
                    "Validation error: "@ + ("Unsupported content encoding: "@ + trimmed(
                        header_value->0@,
                    )),
                ) && !err.write_to_log && err.write_telemetry,
            },
    {
        let header_value = match header_value {
            Some(value) => trim_str(value),
            None => return Ok(ContentEncoding::Identity),
        };
        if header_value.is_empty() || ascii_equals_ignore_case(header_value, "identity") {
            return Ok(ContentEncoding::Identity);
        }
        if ascii_equals_ignore_case(header_value, "gzip") || ascii_equals_ignore_case(header_value, "x-gzip") {
            return Ok(ContentEncoding::GZip);
        }
        if ascii_equals_ignore_case(header_value, "br") {
            return Ok(ContentEncoding::Br);
        }
        if ascii_equals_ignore_case(header_value, "zstd") {
            return Ok(ContentEncoding::Zstd);
        }
        let mut text = String::from_str("Unsupported content encoding: ");
        text.append(header_value);
        Err(HttpFailResult::as_validation_error(text.as_str()))
    }

    /// The body with its encoding undone. When the announced codec fails the
    /// others are tried (see [`ContentEncoding::decompress_fall_back`]).
    pub fn decompress_if_needed(&self, body: Vec<u8>) -> (r: Result<Vec<u8>, HttpFailResult>)
        ensures
            match body_decoded(*self, body@) {
                Some(b) => r matches Ok(v) && v@ == b,
                None => r matches Err(e) && e.output@ == text_output(500, undecodable_text(*self))
                    && e.write_to_log && e.write_telemetry,
            },
    {
        match self {
            ContentEncoding::Identity => Ok(body),
            ContentEncoding::GZip => match decompress_gzip(body.as_slice()) {
                Some(result) => Ok(result),
                None => self.decompress_fall_back(body.as_slice()),
            },
            ContentEncoding::Br => match decompress_br(body.as_slice()) {
                Some(result) => Ok(result),
                None => self.decompress_fall_back(body.as_slice()),
            },
            ContentEncoding::Zstd => match decompress_zstd(body.as_slice()) {
                Some(result) => Ok(result),
                None => self.decompress_fall_back(body.as_slice()),
            },
        }
    }

    /// The announced codec did not decode the body - so the header is probably
    /// wrong. The others are tried before giving up: gzip and zstd first, as
    /// they recognise their own input by its magic number; brotli, which turns
    /// arbitrary bytes into arbitrary bytes, last.
    pub fn decompress_fall_back(&self, body: &[u8]) -> (r: Result<Vec<u8>, HttpFailResult>)
        ensures
            match fall_back(*self, body@) {
                Some(b) => r matches Ok(v) && v@ == b,
                None => r matches Err(e) && e.output@ == text_output(500, undecodable_text(*self))
                    && e.write_to_log && e.write_telemetry,
            },
    {
        if *self != ContentEncoding::GZip {
            if let Some(result) = decompress_gzip(body) {
                return Ok(result);
            }
        }
        if *self != ContentEncoding::Zstd {
            if let Some(result) = decompress_zstd(body) {
                return Ok(result);
            }
        }
        if *self != ContentEncoding::Br {
            if let Some(result) = decompress_br(body) {
                return Ok(result);
            }
        }
        let mut text = String::from_str("Can not decompress body using ");
        match self {
            ContentEncoding::Identity => text.append("None"),
            ContentEncoding::GZip => text.append("GZip"),
            ContentEncoding::Br => text.append("Br"),
            ContentEncoding::Zstd => text.append("Zstd"),
        }
        text.append(" method");
        Err(HttpFailResult::as_fatal_error(text.as_str()))
    }
}


/// A body announced as not encoded is taken as it is.
pub proof fn law_identity_body_is_kept(body: Seq<u8>)
    ensures
        body_decoded(ContentEncoding::Identity, body) == Some(body),
{
}

/// When the announced codec decodes the body, its output is the body.
pub proof fn law_announced_codec_first(announced: ContentEncoding, body: Seq<u8>)
    requires
        decoded_with(announced, body) is Some,
    ensures
        body_decoded(announced, body) == decoded_with(announced, body),
{
}

/// A body that any of the codecs decodes is accepted, whatever the header
/// announced.
pub proof fn law_decodable_body_is_accepted(announced: ContentEncoding, body: Seq<u8>)
    requires
        gzip_decoded(body) is Some || zstd_decoded(body) is Some || brotli_decoded(body) is Some,
    ensures
        body_decoded(announced, body) is Some,
{
}

/// When the announced codec fails, a codec that recognises its input by a
/// magic number answers before brotli: gzip first, then zstd.
pub proof fn law_fall_back_prefers_magic_numbers(announced: ContentEncoding, body: Seq<u8>)
    requires
        decoded_with(announced, body) is None,
    ensures
        gzip_decoded(body) is Some ==> body_decoded(announced, body) == gzip_decoded(body),
        gzip_decoded(body) is None && zstd_decoded(body) is Some ==> body_decoded(announced, body)
            == zstd_decoded(body),
{
}

} // verus!

//! Reading simple values out of request parameters.
use vstd::prelude::*;
use crate::output::{HttpFailResult, text_output};
use crate::text::{eq_ignore_case, str_equals, ascii_equals_ignore_case};

verus! {

/// `value.parse::<T>()`, its error dropped. What comes back is decided by
/// `T`'s own `FromStr`, so nothing is stated of it.
#[verifier::external_body]
fn parse_as<T: std::str::FromStr>(value: &str) -> (r: Option<T>) {
    value.parse::<T>().ok()
}

/// The text of the answer to a parameter that does not parse.
pub open spec fn not_parsed_text(param_name: Seq<char>, src: Seq<char>) -> Seq<char> {
    "Can not parse ["@ + param_name + "] from ["@ + src + "]"@
}

/// The text of the answer to a parameter that is not a boolean.
pub open spec fn not_bool_text(param_name: Seq<char>, src: Seq<char>) -> Seq<char> {
    "Can not parse ["@ + param_name + "] as boolean from ["@ + src + "]"@
}

/// What becomes of a parsed parameter: the value, or `400` naming the
/// parameter and where it came from.
pub fn simple_value_result<T>(parsed: Option<T>, param_name: &str, src: &str) -> (r: Result<
    T,
    HttpFailResult,
>)
    ensures
        match parsed {
            Some(v) => r == Ok::<T, HttpFailResult>(v),
            None => r matches Err(e) && e.output@ == text_output(
                400,
                not_parsed_text(param_name@, src@),
            ) && e.write_to_log && e.write_telemetry,
        },
{
    match parsed {
        Some(v) => Ok(v),
        None => {
            let mut text = String::from_str("Can not parse [");
            text.append(param_name);
            text.append("] from [");
            text.append(src);
            text.append("]");
            Err(HttpFailResult::invalid_value_to_parse(text.as_str()))
        },
    }
}

/// Parses a parameter with `T`'s `FromStr`.
pub fn to_simple_value<T: std::str::FromStr>(param_name: &str, value: &str, src: &str) -> (r: Result<
    T,
    HttpFailResult,
>)
    ensures
        r matches Err(e) ==> e.output@ == text_output(400, not_parsed_text(param_name@, src@)),
{
    let parsed = parse_as::<T>(value);
    simple_value_result(parsed, param_name, src)
}

/// What a boolean parameter reads as: `1` and `true` (in any case) are true,
/// `0` and `false` (in any case) are false; anything else is not a boolean.
pub open spec fn bool_of(value: Seq<char>) -> Option<bool> {
    if value == "1"@ || eq_ignore_case(value, "true"@) {
        Some(true)
    } else if value == "0"@ || eq_ignore_case(value, "false"@) {
        Some(false)
    } else {
        None
    }
}

/// Reads a boolean parameter.
pub fn to_bool(param_name: &str, value: &str, src: &str) -> (r: Result<bool, HttpFailResult>)
    ensures
        match bool_of(value@) {
            Some(b) => r == Ok::<bool, HttpFailResult>(b),
            None => r matches Err(e) && e.output@ == text_output(
                400,
                not_bool_text(param_name@, src@),
            ) && e.write_to_log && e.write_telemetry,
        },
{
    if str_equals(value, "1") || ascii_equals_ignore_case(value, "true") {
        return Ok(true);
    }
    if str_equals(value, "0") || ascii_equals_ignore_case(value, "false") {
        return Ok(false);
    }
    let mut text = String::from_str("Can not parse [");
    text.append(param_name);
    text.append("] as boolean from [");
    text.append(src);
    text.append("]");
    Err(HttpFailResult::invalid_value_to_parse(text.as_str()))
}

} // verus!

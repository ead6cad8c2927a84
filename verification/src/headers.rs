//! The response headers of a stream, and the interval they announce.

use crate::interval::{interval_of, is_digit, number_digits, parse_interval};
use http::header::{HeaderMap, HeaderValue};
use vstd::prelude::*;
use vstd::string::StringSliceAdditionalSpecFns;

verus! {

/// `http::header::HeaderMap`, the headers of a response. What it holds is
/// spoken of through [`header_values`].
#[verifier::external_type_specification]
#[verifier::external_body]
#[verifier::reject_recursive_types(T)]
pub struct ExHeaderMap<T>(HeaderMap<T>);

/// `http::header::HeaderValue`, the value of one header. What it holds is
/// spoken of through [`value_bytes`].
#[verifier::external_type_specification]
#[verifier::external_body]
pub struct ExHeaderValue(HeaderValue);

/// The bytes that a header value holds.
pub uninterp spec fn value_bytes(value: HeaderValue) -> Seq<u8>;

/// What a header map holds: for each header name in it, the bytes of the
/// values stored under that name, in the order in which they were added.
pub uninterp spec fn header_values(headers: HeaderMap<HeaderValue>) -> Map<
    Seq<char>,
    Seq<Seq<u8>>,
>;

/// `name` holds no ASCII upper-case letter.
pub open spec fn is_lower_case(name: Seq<char>) -> bool {
    forall|i: int| 0 <= i < name.len() ==> !('A' <= #[trigger] name[i] <= 'Z')
}

/// `b` is a visible ASCII character, a space or a tab.
pub open spec fn is_visible_ascii(b: u8) -> bool {
    32 <= b < 127 || b == 9
}

/// Every byte of `bytes` is a visible ASCII character, a space or a tab.
pub open spec fn all_visible_ascii(bytes: Seq<u8>) -> bool {
    forall|i: int| 0 <= i < bytes.len() ==> is_visible_ascii(#[trigger] bytes[i])
}

/// `HeaderMap::get` with the name given as text: the first value stored
/// under `name`, or nothing where the map has no such header. Names in the
/// map are lower case; the lookup is stated for lower-case names only.
#[verifier::external_body]
fn first_value<'a>(headers: &'a HeaderMap<HeaderValue>, name: &str) -> (value: Option<
    &'a HeaderValue,
>)
    requires
        is_lower_case(name@),
    ensures
        match value {
            Some(v) => {
                &&& header_values(*headers).contains_key(name@)
                &&& header_values(*headers)[name@].len() > 0
                &&& value_bytes(*v) == header_values(*headers)[name@][0]
            },
            None => !header_values(*headers).contains_key(name@),
        },
{
    headers.get(name)
}

/// `HeaderValue::to_str`: the value as text where all its bytes are visible
/// ASCII characters, spaces or tabs, and nothing otherwise. The text has the
/// bytes of the value.
#[verifier::external_body]
fn value_text<'a>(value: &'a HeaderValue) -> (text: Option<&'a str>)
    ensures
        text is Some <==> all_visible_ascii(value_bytes(*value)),
        text matches Some(t) ==> t.spec_bytes() == value_bytes(*value),
{
    value.to_str().ok()
}

/// The name of the request header by which a listener asks for metadata.
pub const REQUEST_HEADER: &'static str = "Icy-MetaData";

/// The value of the request header by which a listener asks for metadata.
pub const REQUEST_VALUE: &'static str = "1";

/// The name of the response header that announces the metadata interval.
pub const INTERVAL_HEADER: &'static str = "icy-metaint";

/// The metadata interval that a response with the headers `values`
/// announces: the number written in the first value of the interval header,
/// and 0 where the header is absent or holds no such number.
pub open spec fn announced_interval(values: Map<Seq<char>, Seq<Seq<u8>>>) -> nat {
    if values.contains_key(INTERVAL_HEADER@) && values[INTERVAL_HEADER@].len() > 0 {
        interval_of(values[INTERVAL_HEADER@][0])
    } else {
        0
    }
}

/// Text that is written as a number holds visible characters only.
proof fn lemma_number_is_visible(text: Seq<u8>)
    requires
        number_digits(text) is Some,
    ensures
        all_visible_ascii(text),
{
    let digits = number_digits(text)->0;
    assert forall|i: int| 0 <= i < text.len() implies is_visible_ascii(#[trigger] text[i]) by {
        if digits.len() == text.len() {
            assert(is_digit(digits[i]));
        } else if i > 0 {
            assert(is_digit(digits[i - 1]));
        }
    }
}

/// Obtains the metadata interval from the headers of a response.
pub fn negotiate(headers: &HeaderMap<HeaderValue>) -> (interval: usize)
    ensures
        interval == announced_interval(header_values(*headers)),
{
    proof {
        reveal_strlit("icy-metaint");
    }
    match first_value(headers, INTERVAL_HEADER) {
        None => 0,
        Some(value) => match value_text(value) {
            None => {
                proof {
                    if number_digits(value_bytes(*value)) is Some {
                        lemma_number_is_visible(value_bytes(*value));
                    }
                }
                0
            },
            Some(text) => parse_interval(text.as_bytes()),
        },
    }
}

} // verus!

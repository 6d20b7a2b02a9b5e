//! HTTP status codes and header values.

use vstd::prelude::*;

use crate::text::decimal;
use crate::types::opt_text;

verus! {

/// Whether `code` can be the status of an answer.
pub open spec fn is_status(code: u16) -> bool {
    100 <= code <= 999
}

/// Whether the status `code` reports success.
pub open spec fn is_success(code: u16) -> bool {
    200 <= code < 300
}

/// Whether the status `code` reports success.
pub fn succeeded(code: u16) -> (success: bool)
    ensures
        success == is_success(code),
{
    200 <= code && code < 300
}

/// The status of an answer to a request without the right to make it.
pub const UNAUTHORIZED: u16 = 401;

/// The status `code` and what it means in words.
pub uninterp spec fn status_line(code: u16) -> Seq<char>;

/// How `reqwest::StatusCode` is displayed: the code in digits, a blank, and the phrase that
/// belongs to the code or a note that it is unknown. The phrases are a long table, so the whole
/// text goes by the name [`status_line`]; of it no more is said than how it starts.
#[verifier::external_body]
pub(crate) fn status_text(code: u16) -> (text: String)
    requires
        is_status(code),
    ensures
        text@ == status_line(code),
        (decimal(code as nat) + " "@).is_prefix_of(text@),
{
    reqwest::StatusCode::from_u16(code).unwrap().to_string()
}

/// Whether `b` may stand in a header value that is text: a visible ASCII character, a blank or a
/// tab.
pub open spec fn is_header_text_byte(b: u8) -> bool {
    32 <= b < 127 || b == 9
}

/// The text of a header value, if it is text.
pub open spec fn header_value_text(value: Seq<u8>) -> Option<Seq<char>> {
    if forall|i: int| 0 <= i < value.len() ==> is_header_text_byte(#[trigger] value[i]) {
        Some(value.map_values(|b: u8| b as char))
    } else {
        None
    }
}

/// `reqwest::header::HeaderValue::to_str` on the value with these bytes: the text, character by
/// byte, where every byte is visible ASCII, a blank or a tab, and nothing otherwise. Bytes that
/// no header value can hold are among those that give nothing.
#[verifier::external_body]
pub(crate) fn header_text(value: &Vec<u8>) -> (text: Option<String>)
    ensures
        opt_text(text) == header_value_text(value@),
{
    let value = reqwest::header::HeaderValue::from_bytes(value.as_slice()).ok()?;
    value.to_str().ok().map(|text| text.to_string())
}

/// The statuses of success are those from 200 to 299, and 401 is not one of them.
pub proof fn success_is_two_hundred_and_something(code: u16)
    ensures
        is_success(code) <==> code / 100 == 2,
        UNAUTHORIZED == 401,
        is_status(code) <==> 1 <= code / 100 <= 9,
{
}

} // verus!

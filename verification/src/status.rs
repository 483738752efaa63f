//! HTTP status codes, as `reqwest` hands them out.

use crate::text::decimal_text;
use reqwest::StatusCode;
use vstd::prelude::*;

verus! {

#[verifier::external_type_specification]
#[verifier::external_body]
pub struct ExStatusCode(reqwest::StatusCode);

/// The number of a status code.
pub uninterp spec fn status_number(s: StatusCode) -> u16;

/// The reason phrase that `Display` writes for the status code of a given
/// number: the canonical one, or a fixed text where the number has none.
pub uninterp spec fn status_reason(code: u16) -> Seq<char>;

/// The text that a status code writes for itself: its number, a space, and
/// its reason phrase.
pub open spec fn status_display(code: u16) -> Seq<char> {
    decimal_text(code as nat) + " "@ + status_reason(code)
}

/// Calls `StatusCode::as_u16`. Trusted: the result is the code's number.
#[verifier::external_body]
pub(crate) fn status_as_u16(s: &StatusCode) -> (r: u16)
    ensures
        r == status_number(*s),
{
    s.as_u16()
}

/// Calls `StatusCode::is_success`. Trusted: true for 200 to 299.
#[verifier::external_body]
pub(crate) fn status_is_success(s: &StatusCode) -> (r: bool)
    ensures
        r == (200 <= status_number(*s) < 300),
{
    s.is_success()
}

/// Calls `StatusCode::is_client_error`. Trusted: true for 400 to 499.
#[verifier::external_body]
pub(crate) fn status_is_client_error(s: &StatusCode) -> (r: bool)
    ensures
        r == (400 <= status_number(*s) < 500),
{
    s.is_client_error()
}

/// Calls `StatusCode::is_server_error`. Trusted: true for 500 to 599.
#[verifier::external_body]
pub(crate) fn status_is_server_error(s: &StatusCode) -> (r: bool)
    ensures
        r == (500 <= status_number(*s) < 600),
{
    s.is_server_error()
}

/// Calls `to_string` on a `StatusCode`, which goes through its `Display`.
/// Trusted: the text is the code's number in decimal, a space, and the reason
/// phrase that `status_reason` names.
#[verifier::external_body]
pub(crate) fn status_to_string(s: &StatusCode) -> (r: String)
    ensures
        r@ == decimal_text(status_number(*s) as nat) + " "@ + status_reason(status_number(*s)),
{
    s.to_string()
}

} // verus!

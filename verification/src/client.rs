//! The HTTP client that the LM Studio providers carry.

use vstd::prelude::*;

verus! {

#[verifier::external_type_specification]
#[verifier::external_body]
pub struct ExClient(reqwest::Client);

/// `reqwest::Client::new`: a client with default settings. Nothing is stated
/// of it. Its documentation says that it panics when a TLS backend cannot be
/// initialized or the resolver cannot load the system configuration; this
/// crate enables no TLS backend, and the default resolver loads nothing when
/// the client is built.
#[verifier::external_body]
pub(crate) fn new_client() -> (r: reqwest::Client) {
    reqwest::Client::new()
}

/// Whether an HTTP status code reports success: the 2xx range, as
/// `StatusCode::is_success` decides.
pub fn is_success_status(code: u16) -> (r: bool)
    ensures
        r == (200 <= code < 300),
{
    200 <= code && code < 300
}

/// What to read after an HTTP response's status: the payload on success,
/// else the error body, to report the failure with it.
#[derive(Clone, Copy, Debug, PartialEq, Eq, Structural)]
pub enum ResponseStep {
    ReadPayload,
    ReadErrorBody,
}

/// The step after a response with status `code`.
pub fn response_step(code: u16) -> (r: ResponseStep)
    ensures
        r == if 200 <= code < 300 {
            ResponseStep::ReadPayload
        } else {
            ResponseStep::ReadErrorBody
        },
{
    if is_success_status(code) {
        ResponseStep::ReadPayload
    } else {
        ResponseStep::ReadErrorBody
    }
}

/// `Clone` of `reqwest::Client`: another handle on the same client. Nothing
/// is stated of it.
pub assume_specification[ <reqwest::Client as Clone>::clone ](client: &reqwest::Client) -> reqwest::Client;

} // verus!

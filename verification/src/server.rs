//! The decisions of the HTTP front end: which requests are let through to
//! lightningd's socket and what the others are answered.

use vstd::prelude::*;
use vstd::string::*;
use crate::json::JsonValue;
use crate::rpc::{RpcRes, RpcResult, RpcError, JsonRpcV2, JsonRpcV2Id, LightningInit, is_error_answer, init_info_of};
use crate::init_info::{basic_header_text, base64_standard, credentials_text};

verus! {

/// The body of the answer to a request without valid credentials.
pub const UNAUTHORIZED_BODY: &'static str = "{\"id\":null,\"jsonrpc\":\"2.0\",\"error\":{\"code\":5,\"message\":\"Unauthorized\"}}";

/// The body of the answer to a request that is not a `POST`.
pub const METHOD_NOT_ALLOWED_BODY: &'static str = "{\"id\":null,\"jsonrpc\":\"2.0\",\"error\":{\"code\":4,\"message\":\"Method Not Allowed\"}}";

/// The content type of every answer.
pub const CONTENT_TYPE: &'static str = "application/json";

/// The HTTP status of a request without valid credentials.
pub const STATUS_UNAUTHORIZED: u16 = 401;

/// The HTTP status of a request that is not a `POST`.
pub const STATUS_METHOD_NOT_ALLOWED: u16 = 405;

/// The HTTP status of a request whose forwarding failed.
pub const STATUS_INTERNAL_SERVER_ERROR: u16 = 500;

/// The error code of a request whose forwarding failed.
pub const INTERNAL_ERROR_CODE: i64 = 0;

/// What follows a forwarded request body on lightningd's socket: two
/// newlines, which end a request there.
pub const REQUEST_TERMINATOR: [u8; 2] = [10u8, 10u8];

/// Whether the `Authorization` header that a request carries (its bytes)
/// matches the header that the configuration expects: it must be present,
/// the configuration must expect one, and their bytes must be equal.
pub open spec fn is_authorized(received: Option<Seq<u8>>, expected: Option<Seq<char>>) -> bool {
    &&& received matches Some(r)
    &&& expected matches Some(e)
    &&& r == vstd::utf8::encode_utf8(e)
}

/// The bytes of an optional header.
pub open spec fn header_bytes(header: Option<&[u8]>) -> Option<Seq<u8>> {
    match header {
        Some(h) => Some(h@),
        None => None,
    }
}

/// The text of an optional expected header.
pub open spec fn header_text(header: Option<&str>) -> Option<Seq<char>> {
    match header {
        Some(h) => Some(h@),
        None => None,
    }
}

/// Checks a request's `Authorization` header against the expected one (see
/// [`is_authorized`]).
pub fn handle_auth(received: Option<&[u8]>, expected: Option<&str>) -> (authorized: bool)
    ensures
        authorized == is_authorized(header_bytes(received), header_text(expected)),
{
    match (received, expected) {
        (Some(r), Some(e)) => {
            let e_bytes = e.as_bytes();
            if r.len() != e_bytes.len() {
                return false;
            }
            let n = r.len();
            let mut i: usize = 0;
            while i < n
                invariant
                    received == Some(r),
                    expected == Some(e),
                    0 <= i <= n,
                    n == r@.len(),
                    n == e_bytes@.len(),
                    e_bytes@ == e.spec_bytes(),
                    forall|j: int| 0 <= j < i ==> r@[j] == e_bytes@[j],
                decreases n - i,
            {
                if r[i] != e_bytes[i] {
                    return false;
                }
                i = i + 1;
            }
            assert(r@ =~= e_bytes@);
            true
        },
        _ => false,
    }
}

/// What the front end does with an HTTP request.
#[derive(Debug)]
pub enum HttpAction {
    /// The body is forwarded to lightningd and its reply streamed back.
    Forward,
    /// The request is answered at once with this status and body.
    Reject(u16, &'static str),
}

/// What the front end does with a request: only a `POST` with valid
/// credentials is forwarded; another method is refused as not allowed, and
/// a `POST` without valid credentials as unauthorized.
pub fn route_request(is_post: bool, authorized: bool) -> (action: HttpAction)
    ensures
        !is_post ==> action == HttpAction::Reject(STATUS_METHOD_NOT_ALLOWED, METHOD_NOT_ALLOWED_BODY),
        is_post && !authorized ==> action == HttpAction::Reject(STATUS_UNAUTHORIZED, UNAUTHORIZED_BODY),
        is_post && authorized ==> action == HttpAction::Forward,
{
    if !is_post {
        HttpAction::Reject(STATUS_METHOD_NOT_ALLOWED, METHOD_NOT_ALLOWED_BODY)
    } else if !authorized {
        HttpAction::Reject(STATUS_UNAUTHORIZED, UNAUTHORIZED_BODY)
    } else {
        HttpAction::Forward
    }
}

/// The answer to a request whose forwarding failed, with the failure's text
/// as data, under a null id.
pub fn internal_error_answer(message: String) -> (answer: RpcRes)
    ensures
        is_error_answer(answer, JsonRpcV2Id::Null, INTERNAL_ERROR_CODE, "Internal Server Error"@, message@),
{
    RpcRes {
        id: JsonRpcV2Id::Null,
        jsonrpc: JsonRpcV2,
        result: RpcResult::Error(
            RpcError {
                code: INTERNAL_ERROR_CODE,
                message: "Internal Server Error",
                data: Some(JsonValue::String(message)),
            },
        ),
    }
}

/// Without a password (`http-pass` empty, its default) every request is
/// refused, whatever `Authorization` header it carries.
pub proof fn lemma_no_password_refuses_every_request(li: LightningInit, received: Option<Seq<u8>>)
    requires
        li.options.http_pass@.len() == 0,
    ensures
        !is_authorized(received, init_info_of(li).auth_header),
{
}

/// With a password, a request is let through exactly when it carries the
/// Basic header of the configured user and password.
pub proof fn lemma_only_configured_credentials_are_accepted(li: LightningInit, received: Option<Seq<u8>>)
    requires
        li.options.http_pass@.len() > 0,
    ensures
        is_authorized(received, init_info_of(li).auth_header) <==> received == Some(
            vstd::utf8::encode_utf8(
                basic_header_text(
                    base64_standard(
                        vstd::utf8::encode_utf8(
                            credentials_text(li.options.http_user@, li.options.http_pass@),
                        ),
                    ),
                ),
            ),
        ),
{
}

} // verus!

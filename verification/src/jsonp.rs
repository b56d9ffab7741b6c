//! The JSONP wrapper of the portal's responses: `token(json)`.
//!
//! Each request carries a fresh callback token, and the portal answers with
//! the JSON document wrapped in a call of that token. Knowing the token, the
//! client strips the wrapper by length alone.

use crate::error::HttpError;
use crate::text::{decimal, decimal_text, lemma_decimal_injective};
use vstd::prelude::*;
use vstd::slice::*;
use vstd::string::*;
use vstd::utf8::*;

verus! {

/// The callback token made at `millis` milliseconds after the epoch.
pub open spec fn callback_token_of(millis: nat) -> Seq<char> {
    "jsonp_"@ + decimal(millis)
}

/// Makes the callback token for a request sent at `millis` milliseconds after
/// the epoch.
pub fn callback_token(millis: u128) -> (r: String)
    ensures
        r@ == callback_token_of(millis as nat),
{
    let digits = decimal_text(millis);
    String::from_str("jsonp_").concat(digits.as_str())
}

/// Requests sent at different milliseconds carry different tokens.
pub proof fn lemma_callback_token_injective(a: nat, b: nat)
    requires
        callback_token_of(a) == callback_token_of(b),
    ensures
        a == b,
{
    let prefix = "jsonp_"@;
    assert(decimal(a) =~= callback_token_of(a).subrange(
        prefix.len() as int,
        callback_token_of(a).len() as int,
    ));
    assert(decimal(b) =~= callback_token_of(b).subrange(
        prefix.len() as int,
        callback_token_of(b).len() as int,
    ));
    lemma_decimal_injective(a, b);
}

/// A document wrapped in a call of the token.
pub open spec fn wrapped(token: Seq<u8>, json: Seq<u8>) -> Seq<u8> {
    token + seq![40u8] + json + seq![41u8]
}

/// What is left of a body once as many bytes as the token has, one more
/// before the document and one after it are taken away: nothing, where the
/// body is too short to hold them.
pub open spec fn unwrapped(body: Seq<u8>, token_len: nat) -> Option<Seq<u8>> {
    if body.len() < token_len + 2 {
        None
    } else {
        Some(body.subrange(token_len as int + 1, body.len() - 1))
    }
}

/// Wraps a document as the portal does.
pub fn wrap(token: &str, json: &[u8]) -> (r: Vec<u8>)
    ensures
        r@ == wrapped(encode_utf8(token@), json@),
{
    let mut r: Vec<u8> = Vec::new();
    r.extend_from_slice(token.as_bytes());
    r.push(40u8);
    r.extend_from_slice(json);
    r.push(41u8);
    assert(r@ =~= wrapped(encode_utf8(token@), json@));
    r
}

/// Strips the wrapper from a response body. A body shorter than the token
/// and the two parentheses is refused.
pub fn unwrap(body: &[u8], token: &str) -> (r: Result<Vec<u8>, HttpError>)
    ensures
        match unwrapped(body@, encode_utf8(token@).len()) {
            Some(json) => r is Ok && r->Ok_0@ == json,
            None => r == Err::<Vec<u8>, HttpError>(
                HttpError::Parse("Response is shorter than its JSONP wrapper"),
            ),
        },
{
    let token_len = token.as_bytes().len();
    if body.len() < 2 || body.len() - 2 < token_len {
        return Err(HttpError::Parse("Response is shorter than its JSONP wrapper"));
    }
    Ok(slice_to_vec(slice_subrange(body, token_len + 1, body.len() - 1)))
}

/// Stripping the wrapper from a wrapped document gives the document back,
/// whatever the token and the document are.
pub proof fn lemma_unwrap_wrap(token: Seq<u8>, json: Seq<u8>)
    ensures
        unwrapped(wrapped(token, json), token.len()) == Some(json),
{
    let body = wrapped(token, json);
    assert(body.subrange(token.len() as int + 1, body.len() - 1) =~= json);
}

} // verus!

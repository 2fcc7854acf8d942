use crate::idempotency::{HeaderPair, ResponseModel, SavedResponse};
use vstd::prelude::*;
use vstd::utf8::encode_utf8;

verus! {

/// A "303 See Other" response to `location`, with no body.
pub open spec fn see_other_model(location: Seq<char>) -> ResponseModel {
    ResponseModel {
        status: 303,
        headers: seq![("location"@, encode_utf8(location))],
        body: Seq::empty(),
    }
}

/// Redirects to `location`.
pub fn see_other(location: &str) -> (r: SavedResponse)
    ensures
        r@ == see_other_model(location@),
{
    let mut headers: Vec<HeaderPair> = Vec::new();
    headers.push(HeaderPair { name: String::from_str("location"), value: location.as_bytes_vec() });
    let r = SavedResponse { status: 303, headers, body: Vec::new() };
    assert(r@.headers =~= seq![("location"@, encode_utf8(location@))]);
    assert(r@.body =~= Seq::<u8>::empty());
    r
}

/// Redirects to the login page.
pub fn see_login() -> (r: SavedResponse)
    ensures
        r@ == see_other_model("/login"@),
{
    see_other("/login")
}

} // verus!

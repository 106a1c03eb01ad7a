//! Bearer-token authorization.
use vstd::prelude::*;
use vstd::string::StringSliceAdditionalSpecFns;
use vstd::utf8::encode_utf8;

use crate::error::Error;

verus! {

#[verifier::external_type_specification]
#[verifier::external_body]
pub struct ExHeaderValue(http::HeaderValue);

#[verifier::external_type_specification]
#[verifier::external_body]
pub struct ExInvalidHeaderValue(http::header::InvalidHeaderValue);

/// Whether HTTP accepts byte `b` in a header value: a tab, or a byte of at
/// least 32 other than 127.
pub open spec fn header_byte_ok(b: u8) -> bool {
    b == 9 || (b >= 32 && b != 127)
}

/// Whether HTTP accepts every byte of `bytes` in a header value.
pub open spec fn header_bytes_ok(bytes: Seq<u8>) -> bool {
    forall|i: int| 0 <= i < bytes.len() ==> header_byte_ok(#[trigger] bytes[i])
}

/// Relies on `http::HeaderValue::from_str`: it fails exactly when a byte of
/// the text is neither a tab nor at least 32 and other than 127.
#[verifier::external_body]
fn header_value_from_str(s: &str) -> (r: Result<http::HeaderValue, http::header::InvalidHeaderValue>)
    ensures
        r is Ok <==> header_bytes_ok(s.spec_bytes()),
{
    http::HeaderValue::from_str(s)
}

/// Bearer token authorization.
#[derive(Debug, Clone)]
pub struct Bearer {
    key: String,
}

impl View for Bearer {
    type V = Seq<char>;

    /// The token.
    closed spec fn view(&self) -> Seq<char> {
        self.key@
    }
}

/// The text of the `Authorization` header for a token.
pub open spec fn bearer_text(key: Seq<char>) -> Seq<char> {
    "Bearer "@ + key
}

impl Bearer {
    /// Authorization with the token `key`.
    pub fn new(key: String) -> (r: Self)
        ensures
            r@ == key@,
    {
        Bearer { key }
    }

    /// The text of the `Authorization` header: `Bearer <token>`.
    pub fn authorization(&self) -> (r: String)
        ensures
            r@ == bearer_text(self@),
    {
        let mut text = "Bearer ".to_owned();
        text.append(self.key.as_str());
        text
    }

    /// The `Authorization` header value; it fails when the token holds a
    /// byte that HTTP does not allow in a header.
    pub fn header_value(&self) -> (r: Result<http::HeaderValue, Error>)
        ensures
            r is Ok <==> header_bytes_ok(encode_utf8(bearer_text(self@))),
            r matches Err(e) ==> e == Error::HeaderValue,
    {
        let text = self.authorization();
        match header_value_from_str(text.as_str()) {
            Ok(v) => Ok(v),
            Err(_) => Err(Error::HeaderValue),
        }
    }
}

} // verus!

//! The text form of a session description exchanged out of band: base64 of
//! the description's UTF-8 bytes.
use vstd::prelude::*;
use vstd::string::StringSliceAdditionalSpecFns;

verus! {

#[verifier::external_type_specification]
#[verifier::external_body]
pub struct ExDecodeError(base64::DecodeError);

/// Why a session text could not be decoded.
#[derive(Debug, Clone, Copy, PartialEq, Eq, Structural)]
pub enum SessionError {
    /// The text is not valid base64.
    Base64,
    /// The decoded bytes are not valid UTF-8.
    Utf8,
}

/// Standard base64 of the bytes, with padding, as `base64::encode` writes it.
pub uninterp spec fn base64_of(b: Seq<u8>) -> Seq<char>;

/// The bytes that `base64::decode` reads from the text, or `None` where it
/// refuses the text.
pub uninterp spec fn base64_decoded(text: Seq<u8>) -> Option<Seq<u8>>;

/// The text that `String::from_utf8` reads from the bytes, or `None` where
/// they are not valid UTF-8.
pub uninterp spec fn utf8_decoded(b: Seq<u8>) -> Option<Seq<char>>;

/// Length of padded standard base64 for `n` bytes.
pub open spec fn base64_len(n: int) -> int {
    4 * ((n + 2) / 3)
}

/// Relies on `base64::encode`: standard alphabet with padding, four characters
/// for each started group of three bytes. It panics only where that length
/// overflows `usize`.
#[verifier::external_body]
fn base64_encode(b: &[u8]) -> (r: String)
    requires
        base64_len(b@.len() as int) <= usize::MAX,
    ensures
        r@ == base64_of(b@),
        r@.len() == base64_len(b@.len() as int),
{
    base64::encode(b)
}

/// Relies on `base64::decode`: the bytes that the standard alphabet text
/// stands for, or its error.
#[verifier::external_body]
fn base64_decode(text: &[u8]) -> (r: Result<Vec<u8>, base64::DecodeError>)
    ensures
        r is Ok <==> base64_decoded(text@) is Some,
        r is Ok ==> base64_decoded(text@) == Some(r->Ok_0@),
{
    base64::decode(text)
}

/// Relies on `String::from_utf8`: the text that the bytes encode, or an error
/// where they are not valid UTF-8.
#[verifier::external_body]
fn utf8_text(b: Vec<u8>) -> (r: Option<String>)
    ensures
        r is Some <==> utf8_decoded(b@) is Some,
        r is Some ==> utf8_decoded(b@) == Some(r->0@),
{
    String::from_utf8(b).ok()
}

/// Decodes the text form of a session description: base64, then UTF-8.
pub fn decode(s: &str) -> (r: Result<String, SessionError>)
    ensures
        base64_decoded(s.spec_bytes()) is None <==> r == Err::<String, SessionError>(SessionError::Base64),
        r is Ok <==> (base64_decoded(s.spec_bytes()) is Some
            && utf8_decoded(base64_decoded(s.spec_bytes())->0) is Some),
        r is Ok ==> r->Ok_0@ == utf8_decoded(base64_decoded(s.spec_bytes())->0)->0,
{
    let bytes = match base64_decode(s.as_bytes()) {
        Ok(b) => b,
        Err(_) => return Err(SessionError::Base64),
    };
    match utf8_text(bytes) {
        Some(t) => Ok(t),
        None => Err(SessionError::Utf8),
    }
}

/// Encodes a session description in its text form: base64 of its UTF-8 bytes.
pub fn encode(b: &str) -> (r: String)
    requires
        base64_len(b.spec_bytes().len() as int) <= usize::MAX,
    ensures
        r@ == base64_of(b.spec_bytes()),
        r@.len() == base64_len(b.spec_bytes().len() as int),
{
    base64_encode(b.as_bytes())
}

} // verus!

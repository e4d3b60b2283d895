//! The calls into other crates, and what is relied on of each.

use base64::engine::general_purpose::STANDARD;
use base64::Engine;
use sha2::{Digest, Sha256};
use uuid::Uuid;
use vstd::prelude::*;

verus! {

/// What decoding a text as standard base64 gives: the bytes, or a description of the fault.
pub uninterp spec fn base64_decoding(data: Seq<char>) -> Result<Seq<u8>, Seq<char>>;

/// The standard base64 text for some bytes.
pub uninterp spec fn base64_encoding(bytes: Seq<u8>) -> Seq<char>;

/// The SHA-256 digest of some bytes.
pub uninterp spec fn sha256_digest(bytes: Seq<u8>) -> Seq<u8>;

/// How a string is shown between quotes with its special characters escaped.
pub uninterp spec fn quoted(text: Seq<char>) -> Seq<char>;

/// Whether a text decodes to some bytes.
pub open spec fn decodes_to(data: Seq<char>, bytes: Seq<u8>) -> bool {
    base64_decoding(data) == Ok::<Seq<u8>, Seq<char>>(bytes)
}

/// Whether the base64 text for this many bytes fits into memory.
pub open spec fn encodable(len: nat) -> bool {
    (len + 2) / 3 * 4 <= isize::MAX
}

/// A lower-case hexadecimal digit.
pub open spec fn is_hex_digit(c: char) -> bool {
    ('0' <= c && c <= '9') || ('a' <= c && c <= 'f')
}

/// Thirty-two lower-case hexadecimal digits.
pub open spec fn simple_uuid(s: Seq<char>) -> bool {
    s.len() == 32 && forall|i: int| 0 <= i < 32 ==> is_hex_digit(#[trigger] s[i])
}

/// Groups of eight, four, four, four and twelve lower-case hexadecimal digits with hyphens between
/// them.
pub open spec fn hyphenated_uuid(s: Seq<char>) -> bool {
    s.len() == 36 && forall|i: int|
        0 <= i < 36 ==> if i == 8 || i == 13 || i == 18 || i == 23 {
            (#[trigger] s[i]) == '-'
        } else {
            is_hex_digit(s[i])
        }
}

/// `base64::Engine::decode` with the standard alphabet and padding. The result depends on the text
/// alone; a fault is described by the `Display` text of `base64::DecodeError`.
#[verifier::external_body]
pub(crate) fn base64_decode(data: &str) -> (r: Result<Vec<u8>, String>)
    ensures
        match r {
            Ok(bytes) => base64_decoding(data@) == Ok::<Seq<u8>, Seq<char>>(bytes@),
            Err(fault) => base64_decoding(data@) == Err::<Seq<u8>, Seq<char>>(fault@),
        },
{
    STANDARD.decode(data).map_err(|error| error.to_string())
}

/// `base64::Engine::encode` with the standard alphabet and padding. The result depends on the bytes
/// alone, and decoding it gives the bytes back. A text that does not fit into memory is left out:
/// the call would panic.
#[verifier::external_body]
pub(crate) fn base64_encode(bytes: &[u8]) -> (r: String)
    requires
        encodable(bytes@.len()),
    ensures
        r@ == base64_encoding(bytes@),
        decodes_to(r@, bytes@),
{
    STANDARD.encode(bytes)
}

/// `sha2::Sha256::digest`: thirty-two bytes that depend on the input alone. What they are is
/// not stated.
#[verifier::external_body]
pub(crate) fn sha256(bytes: &[u8]) -> (digest: Vec<u8>)
    ensures
        digest@ == sha256_digest(bytes@),
        digest@.len() == 32,
{
    Sha256::digest(bytes).to_vec()
}

/// `uuid::Uuid::new_v4` shown by `Display`. The digits are random: only their form is stated. The call
/// panics where the system has no random bytes to give, which no argument decides.
#[verifier::external_body]
pub(crate) fn fresh_uuid() -> (id: String)
    ensures
        hyphenated_uuid(id@),
{
    Uuid::new_v4().to_string()
}

/// `uuid::Uuid::simple` of `uuid::Uuid::new_v4`, shown by `Display`. The digits are random: only their
/// form is stated. The call panics where the system has no random bytes to give, which no argument
/// decides.
#[verifier::external_body]
pub(crate) fn fresh_simple_uuid() -> (id: String)
    ensures
        simple_uuid(id@),
{
    Uuid::new_v4().simple().to_string()
}

/// The `Debug` text of `str` in the standard library, which depends on the string alone. Which
/// characters are escaped is not stated.
#[verifier::external_body]
pub(crate) fn quote(text: &str) -> (r: String)
    ensures
        r@ == quoted(text@),
{
    format!("{:?}", text)
}

} // verus!

//! HTTP Basic credentials: the text `username:password` in base64, behind
//! the word `Basic`.

use crate::header::{
    header_safe, is_header_safe, is_header_safe_char, lemma_header_safe_keeps_to_one_line,
};
use vstd::prelude::*;
use vstd::string::*;
use vstd::utf8::*;

verus! {

/// A character of the standard base64 alphabet, or the padding sign `=`.
pub open spec fn is_base64_char(c: char) -> bool {
    ('A' <= c && c <= 'Z') || ('a' <= c && c <= 'z') || ('0' <= c && c <= '9') || c == '+' || c
        == '/' || c == '='
}

/// The base64 text of `bytes`, in the standard alphabet and padded to a
/// multiple of four characters.
pub uninterp spec fn base64_standard(bytes: Seq<u8>) -> Seq<char>;

/// Whether an input of `len` bytes can be encoded: its base64 text, four
/// characters for every three bytes begun, has to fit in one buffer.
pub open spec fn fits_encoder(len: nat) -> bool {
    len / 3 < isize::MAX / 4
}

/// Calls `base64::encode`, which encodes with the crate's `STANDARD` engine:
/// the alphabet `A-Z a-z 0-9 + /` with `=` padding. Claimed: the text depends
/// on the bytes alone, and is named `base64_standard`; and every character of
/// it is of that alphabet or the padding sign. The call panics where the
/// length of the text overflows, which the bound on the input rules out.
#[verifier::external_body]
#[allow(deprecated)]
fn encode_base64(bytes: &[u8]) -> (text: String)
    requires
        fits_encoder(bytes@.len()),
    ensures
        text@ == base64_standard(bytes@),
        forall|i: int| 0 <= i < text@.len() ==> is_base64_char(#[trigger] text@[i]),
{
    base64::encode(bytes)
}

/// The credential text of a user: name and password around a colon.
pub open spec fn credential_text(username: Seq<char>, password: Seq<char>) -> Seq<char> {
    username + seq![':'] + password
}

/// The value of an `Authorization` header that carries `encoded`.
pub open spec fn authorization_text(encoded: Seq<char>) -> Seq<char> {
    seq!['B', 'a', 's', 'i', 'c', ' '] + encoded
}

/// The `Authorization` value of a user: `Basic`, a space, and the base64
/// text of the UTF-8 bytes of the credential text.
pub open spec fn basic_authorization(username: Seq<char>, password: Seq<char>) -> Seq<char> {
    authorization_text(base64_standard(encode_utf8(credential_text(username, password))))
}

/// Credentials that a client accepts: name and password are header-safe, and
/// the credential text is short enough to encode.
pub open spec fn acceptable_credentials(username: Seq<char>, password: Seq<char>) -> bool {
    &&& is_header_safe(username)
    &&& is_header_safe(password)
    &&& fits_encoder(credential_text(username, password).len())
}

/// Joins name and password with a colon.
pub fn join_credentials(username: &str, password: &str) -> (text: String)
    ensures
        text@ == credential_text(username@, password@),
{
    let mut text = String::from_str(username);
    text.append(":");
    text.append(password);
    proof {
        reveal_strlit(":");
        assert(":"@ =~= seq![':']);
    }
    text
}

/// Puts `Basic` and a space before already encoded credentials.
pub fn authorization_value(encoded: &str) -> (value: String)
    ensures
        value@ == authorization_text(encoded@),
{
    let mut value = String::from_str("Basic ");
    value.append(encoded);
    proof {
        reveal_strlit("Basic ");
        assert("Basic "@ =~= seq!['B', 'a', 's', 'i', 'c', ' ']);
    }
    value
}

/// Header-safe text takes one byte for each character.
pub proof fn lemma_header_safe_bytes(text: Seq<char>)
    requires
        is_header_safe(text),
    ensures
        encode_utf8(text).len() == text.len(),
{
    lemma_header_safe_keeps_to_one_line(text);
    is_ascii_chars_encode_utf8(text);
}

/// Text in the base64 alphabet behind `Basic ` is header-safe.
pub proof fn lemma_authorization_header_safe(encoded: Seq<char>)
    requires
        forall|i: int| 0 <= i < encoded.len() ==> is_base64_char(#[trigger] encoded[i]),
    ensures
        is_header_safe(authorization_text(encoded)),
{
    let value = authorization_text(encoded);
    assert forall|i: int| 0 <= i < value.len() implies is_header_safe_char(#[trigger] value[i]) by {
        if i >= 6 {
            assert(value[i] == encoded[i - 6]);
            assert(is_base64_char(encoded[i - 6]));
        }
    }
}

/// The `Authorization` value for a user, or `None` for credentials that a
/// client does not accept.
pub fn basic_authorization_value(username: &str, password: &str) -> (value: Option<String>)
    ensures
        value is Some <==> acceptable_credentials(username@, password@),
        value matches Some(text) ==> text@ == basic_authorization(username@, password@)
            && is_header_safe(text@),
{
    if !header_safe(username) || !header_safe(password) {
        return None;
    }
    let text = join_credentials(username, password);
    proof {
        assert forall|i: int| 0 <= i < text@.len() implies is_header_safe_char(
            #[trigger] text@[i],
        ) by {
            if i < username@.len() {
                assert(text@[i] == username@[i]);
            } else if i > username@.len() {
                assert(text@[i] == password@[i - username@.len() - 1]);
            }
        }
        lemma_header_safe_bytes(text@);
    }
    let bytes = text.as_str().as_bytes();
    if bytes.len() / 3 >= (isize::MAX as usize) / 4 {
        return None;
    }
    let encoded = encode_base64(bytes);
    proof {
        lemma_authorization_header_safe(encoded@);
    }
    Some(authorization_value(encoded.as_str()))
}

} // verus!

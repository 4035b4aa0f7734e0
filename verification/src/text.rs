use vstd::prelude::*;

use crate::errors::TextDecodeError;
use base64::Engine;

verus! {

/// The two supported text-safe alphabets: the standard alphabet with
/// padding, and the URL-safe alphabet without padding. Encode and decode
/// must use the same alphabet; the pair is never mixed.
#[derive(Clone, Copy, Debug, PartialEq, Eq, Structural)]
pub enum Alphabet {
    StandardPadded,
    UrlSafeUnpadded,
}

/// Whether a character may appear in standard-alphabet padded text:
/// `A`-`Z`, `a`-`z`, `0`-`9`, `+`, `/`, and the padding character `=`.
pub open spec fn is_standard_char(c: char) -> bool {
    ('A' <= c && c <= 'Z') || ('a' <= c && c <= 'z') || ('0' <= c && c <= '9') || c == '+' || c
        == '/' || c == '='
}

/// Whether a character may appear in URL-safe unpadded text:
/// `A`-`Z`, `a`-`z`, `0`-`9`, `-`, `_`, and no padding.
pub open spec fn is_url_safe_char(c: char) -> bool {
    ('A' <= c && c <= 'Z') || ('a' <= c && c <= 'z') || ('0' <= c && c <= '9') || c == '-' || c
        == '_'
}

/// Whether a character may appear in text of the given alphabet.
pub open spec fn is_alphabet_char(c: char, alphabet: Alphabet) -> bool {
    match alphabet {
        Alphabet::StandardPadded => is_standard_char(c),
        Alphabet::UrlSafeUnpadded => is_url_safe_char(c),
    }
}

/// What standard-alphabet padded encoding emits for the given bytes: a pure
/// function of the bytes, the same in every process and on every machine.
pub uninterp spec fn standard_encode_of(b: Seq<u8>) -> Seq<char>;

/// What URL-safe unpadded encoding emits for the given bytes.
pub uninterp spec fn url_safe_encode_of(b: Seq<u8>) -> Seq<char>;

/// The encoding that belongs to the given alphabet.
pub open spec fn text_encode_of(b: Seq<u8>, alphabet: Alphabet) -> Seq<char> {
    match alphabet {
        Alphabet::StandardPadded => standard_encode_of(b),
        Alphabet::UrlSafeUnpadded => url_safe_encode_of(b),
    }
}

/// What standard-alphabet padded decoding yields on the given text: the
/// decoded bytes on a canonical encoding, `None` on any other string. The
/// outcome is a pure function of the characters.
pub uninterp spec fn standard_decode_of(s: Seq<char>) -> Option<Seq<u8>>;

/// What URL-safe unpadded decoding yields on the given text.
pub uninterp spec fn url_safe_decode_of(s: Seq<char>) -> Option<Seq<u8>>;

/// The decoding that belongs to the given alphabet.
pub open spec fn text_decode_of(s: Seq<char>, alphabet: Alphabet) -> Option<Seq<u8>> {
    match alphabet {
        Alphabet::StandardPadded => standard_decode_of(s),
        Alphabet::UrlSafeUnpadded => url_safe_decode_of(s),
    }
}

/// Relies on the `STANDARD` engine of the base64 crate: `encode` emits only
/// alphabet and padding characters, and `decode` returns exactly the input
/// bytes from that text.
#[verifier::external_body]
fn standard_encode(b: &Vec<u8>) -> (r: String)
    ensures
        r@ == standard_encode_of(b@),
        standard_decode_of(r@) == Some(b@),
        forall|i: int| 0 <= i < r@.len() ==> is_standard_char(#[trigger] r@[i]),
{
    base64::engine::general_purpose::STANDARD.encode(b.as_slice())
}

/// Relies on the `URL_SAFE_NO_PAD` engine of the base64 crate: `encode`
/// emits only URL-safe alphabet characters and no padding, and `decode`
/// returns exactly the input bytes from that text.
#[verifier::external_body]
fn url_safe_encode(b: &Vec<u8>) -> (r: String)
    ensures
        r@ == url_safe_encode_of(b@),
        url_safe_decode_of(r@) == Some(b@),
        forall|i: int| 0 <= i < r@.len() ==> is_url_safe_char(#[trigger] r@[i]),
{
    base64::engine::general_purpose::URL_SAFE_NO_PAD.encode(b.as_slice())
}

/// Relies on the `STANDARD` engine's `decode`: it succeeds only on text
/// whose every character is an alphabet or padding character, its outcome
/// is deterministic, and on success the bytes are the text's unique
/// decoding. The engine looks every byte up in its decode table before any
/// length or padding check, so a character outside the alphabet is always
/// reported as `InvalidByte`, never as some later error.
#[verifier::external_body]
fn standard_decode(s: &str) -> (r: Result<Vec<u8>, TextDecodeError>)
    ensures
        r is Ok <==> standard_decode_of(s@) is Some,
        r matches Ok(v) ==> standard_decode_of(s@) == Some(v@),
        r is Ok ==> forall|i: int| 0 <= i < s@.len() ==> is_standard_char(#[trigger] s@[i]),
        r matches Err(e) ==> e is InvalidCharacter || forall|i: int|
            0 <= i < s@.len() ==> is_standard_char(#[trigger] s@[i]),
{
    match base64::engine::general_purpose::STANDARD.decode(s) {
        Ok(v) => Ok(v),
        Err(base64::DecodeError::InvalidByte(..)) => Err(TextDecodeError::InvalidCharacter),
        Err(base64::DecodeError::InvalidLastSymbol { .. }) => Err(TextDecodeError::InvalidPadding),
        Err(base64::DecodeError::InvalidLength(_)) => Err(TextDecodeError::InvalidPadding),
        Err(base64::DecodeError::InvalidPadding) => Err(TextDecodeError::InvalidPadding),
    }
}

/// Relies on the `URL_SAFE_NO_PAD` engine's `decode`: it succeeds only on
/// text whose every character is a URL-safe alphabet character, its outcome
/// is deterministic, and on success the bytes are the text's unique
/// decoding. A character that is neither in the alphabet nor the padding
/// character `=` is always reported as `InvalidByte` (the engine checks its
/// decode table before any length or padding rule); padding characters may
/// instead surface as a padding error.
#[verifier::external_body]
fn url_safe_decode(s: &str) -> (r: Result<Vec<u8>, TextDecodeError>)
    ensures
        r is Ok <==> url_safe_decode_of(s@) is Some,
        r matches Ok(v) ==> url_safe_decode_of(s@) == Some(v@),
        r is Ok ==> forall|i: int| 0 <= i < s@.len() ==> is_url_safe_char(#[trigger] s@[i]),
        r matches Err(e) ==> e is InvalidCharacter || forall|i: int|
            0 <= i < s@.len() ==> is_url_safe_char(#[trigger] s@[i]) || s@[i] == '=',
{
    match base64::engine::general_purpose::URL_SAFE_NO_PAD.decode(s) {
        Ok(v) => Ok(v),
        Err(base64::DecodeError::InvalidByte(..)) => Err(TextDecodeError::InvalidCharacter),
        Err(base64::DecodeError::InvalidLastSymbol { .. }) => Err(TextDecodeError::InvalidPadding),
        Err(base64::DecodeError::InvalidLength(_)) => Err(TextDecodeError::InvalidPadding),
        Err(base64::DecodeError::InvalidPadding) => Err(TextDecodeError::InvalidPadding),
    }
}

/// Transcodes bytes to a text-safe string in the chosen alphabet. Never
/// fails; the result is the same for equal bytes and alphabet on every
/// call, every character of it belongs to the alphabet, and decoding it
/// with the same alphabet returns exactly the input bytes.
pub fn encode_text(b: &Vec<u8>, alphabet: Alphabet) -> (r: String)
    ensures
        r@ == text_encode_of(b@, alphabet),
        text_decode_of(r@, alphabet) == Some(b@),
        forall|i: int| 0 <= i < r@.len() ==> is_alphabet_char(#[trigger] r@[i], alphabet),
{
    match alphabet {
        Alphabet::StandardPadded => standard_encode(b),
        Alphabet::UrlSafeUnpadded => url_safe_encode(b),
    }
}

/// Transcodes a text-safe string back to bytes: the inverse of
/// `encode_text` for the same alphabet. Returns `Ok` exactly on canonical
/// text of the alphabet; a string holding a character outside the alphabet
/// is rejected with `InvalidCharacter` (for a misplaced padding character
/// the error may be `InvalidPadding` instead), never silently decoded, and
/// nothing panics.
pub fn decode_text(s: &str, alphabet: Alphabet) -> (r: Result<Vec<u8>, TextDecodeError>)
    ensures
        r is Ok <==> text_decode_of(s@, alphabet) is Some,
        r matches Ok(v) ==> text_decode_of(s@, alphabet) == Some(v@),
        (exists|i: int| 0 <= i < s@.len() && !is_alphabet_char(s@[i], alphabet)) ==> r is Err,
        (exists|i: int|
            0 <= i < s@.len() && !is_alphabet_char(s@[i], alphabet) && s@[i] != '=') ==> (
        r matches Err(e) && e is InvalidCharacter),
{
    let r = match alphabet {
        Alphabet::StandardPadded => standard_decode(s),
        Alphabet::UrlSafeUnpadded => url_safe_decode(s),
    };
    r
}

} // verus!

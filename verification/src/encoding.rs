//! Base64 text (through the `base64` crate), operating-system randomness
//! (through the `getrandom` crate), and UTF-8 text.
use vstd::prelude::*;

verus! {

/// The base64 digit of a six-bit value, in the standard alphabet or in the
/// URL-safe one (which uses `-` and `_` for the last two digits).
pub open spec fn b64_digit(n: nat, url: bool) -> char {
    if n < 26 {
        ((65 + n) as u32) as char
    } else if n < 52 {
        ((97 + n - 26) as u32) as char
    } else if n < 62 {
        ((48 + n - 52) as u32) as char
    } else if n == 62 {
        if url {
            '-'
        } else {
            '+'
        }
    } else {
        if url {
            '_'
        } else {
            '/'
        }
    }
}

/// RFC 4648 base64 of `b`: each three bytes become four digits; a final one
/// or two bytes become two or three digits, followed by `=` padding when
/// `pad` is set.
pub open spec fn base64(b: Seq<u8>, url: bool, pad: bool) -> Seq<char>
    decreases b.len(),
{
    if b.len() == 0 {
        Seq::empty()
    } else if b.len() == 1 {
        seq![b64_digit((b[0] / 4) as nat, url), b64_digit(((b[0] % 4) * 16) as nat, url)] + if pad {
            seq!['=', '=']
        } else {
            Seq::empty()
        }
    } else if b.len() == 2 {
        seq![
            b64_digit((b[0] / 4) as nat, url),
            b64_digit(((b[0] % 4) * 16 + b[1] / 16) as nat, url),
            b64_digit(((b[1] % 16) * 4) as nat, url),
        ] + if pad {
            seq!['=']
        } else {
            Seq::empty()
        }
    } else {
        seq![
            b64_digit((b[0] / 4) as nat, url),
            b64_digit(((b[0] % 4) * 16 + b[1] / 16) as nat, url),
            b64_digit(((b[1] % 16) * 4 + b[2] / 64) as nat, url),
            b64_digit((b[2] % 64) as nat, url),
        ] + base64(b.skip(3), url, pad)
    }
}

/// `base64::engine::general_purpose::STANDARD.encode`: the standard
/// alphabet with `=` padding.
#[verifier::external_body]
pub(crate) fn encode_standard(bytes: &[u8]) -> (r: String)
    ensures
        r@ == base64(bytes@, false, true),
{
    base64::Engine::encode(&base64::engine::general_purpose::STANDARD, bytes)
}

/// `base64::engine::general_purpose::URL_SAFE_NO_PAD.encode`: the URL-safe
/// alphabet without padding.
#[verifier::external_body]
pub(crate) fn encode_url_safe_no_pad(bytes: &[u8]) -> (r: String)
    ensures
        r@ == base64(bytes@, true, false),
{
    base64::Engine::encode(&base64::engine::general_purpose::URL_SAFE_NO_PAD, bytes)
}

/// What `base64::engine::general_purpose::STANDARD.decode` gives for a
/// text (`None` for an error).
pub uninterp spec fn standard_decoded(text: Seq<char>) -> Option<Seq<u8>>;

/// `base64::engine::general_purpose::STANDARD.decode`. The engine requires
/// canonical padding and no trailing bits, so it accepts exactly the
/// standard padded encodings, and gives back the encoded bytes.
#[verifier::external_body]
pub(crate) fn decode_standard(text: &str) -> (r: Option<Vec<u8>>)
    ensures
        match r {
            Some(b) => standard_decoded(text@) == Some(b@) && base64(b@, false, true) == text@,
            None => standard_decoded(text@) is None && forall|b: Seq<u8>|
                base64(b, false, true) != text@,
        },
{
    base64::Engine::decode(&base64::engine::general_purpose::STANDARD, text.as_bytes()).ok()
}

/// The error type of `getrandom`.
#[verifier::external_type_specification]
#[verifier::external_body]
pub struct ExRandomError(getrandom::Error);

/// `getrandom::getrandom` into a fresh buffer of `len` bytes. Nothing is
/// stated of the bytes beyond their number.
#[verifier::external_body]
pub(crate) fn random_bytes(len: usize) -> (r: Result<Vec<u8>, getrandom::Error>)
    ensures
        r matches Ok(b) ==> b@.len() == len,
{
    let mut buffer = vec![0u8; len];
    match getrandom::getrandom(&mut buffer) {
        Ok(()) => Ok(buffer),
        Err(error) => Err(error),
    }
}

/// The text of a `getrandom::Error` (its `Display`): the operating system's
/// description of the failure, which this library does not state.
#[verifier::external_body]
pub(crate) fn random_error_text(error: &getrandom::Error) -> String {
    format!("{error}")
}

/// The UTF-8 encoding of one character.
pub open spec fn char_utf8(c: char) -> Seq<u8> {
    let n = c as u32;
    if n < 0x80 {
        seq![n as u8]
    } else if n < 0x800 {
        seq![(0xc0 + n / 64) as u8, (0x80 + n % 64) as u8]
    } else if n < 0x10000 {
        seq![(0xe0 + n / 4096) as u8, (0x80 + (n / 64) % 64) as u8, (0x80 + n % 64) as u8]
    } else {
        seq![
            (0xf0 + n / 262144) as u8,
            (0x80 + (n / 4096) % 64) as u8,
            (0x80 + (n / 64) % 64) as u8,
            (0x80 + n % 64) as u8,
        ]
    }
}

/// The UTF-8 encoding of a string.
pub open spec fn utf8_bytes(s: Seq<char>) -> Seq<u8>
    decreases s.len(),
{
    if s.len() == 0 {
        Seq::empty()
    } else {
        utf8_bytes(s.drop_last()) + char_utf8(s.last())
    }
}

/// What `String::from_utf8` gives for some bytes (`None` for an error).
pub uninterp spec fn utf8_decoded(bytes: Seq<u8>) -> Option<Seq<char>>;

/// `String::from_utf8`: the string whose UTF-8 encoding the bytes are, and
/// `None` when they are not the encoding of any string.
#[verifier::external_body]
pub(crate) fn string_from_utf8(bytes: Vec<u8>) -> (r: Option<String>)
    ensures
        match r {
            Some(s) => utf8_decoded(bytes@) == Some(s@) && utf8_bytes(s@) == bytes@,
            None => utf8_decoded(bytes@) is None && forall|s: Seq<char>| utf8_bytes(s) != bytes@,
        },
{
    String::from_utf8(bytes).ok()
}

/// What `str::to_lowercase` gives for a string: the Unicode lowercase
/// mapping of each character, which takes tables to state.
pub uninterp spec fn unicode_lowercase(s: Seq<char>) -> Seq<char>;

/// `str::to_lowercase`.
#[verifier::external_body]
pub(crate) fn to_lowercase(s: &str) -> (r: String)
    ensures
        r@ == unicode_lowercase(s@),
{
    s.to_lowercase()
}

} // verus!

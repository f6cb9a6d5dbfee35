//! Base64 text of byte strings (through the `base64` crate).

use vstd::prelude::*;

use base64::Engine;

verus! {

/// The RFC 4648 alphabet.
pub open spec fn standard_alphabet() -> Seq<char> {
    "ABCDEFGHIJKLMNOPQRSTUVWXYZabcdefghijklmnopqrstuvwxyz0123456789+/"@
}

/// The RFC 4648 URL- and filename-safe alphabet.
pub open spec fn url_alphabet() -> Seq<char> {
    "ABCDEFGHIJKLMNOPQRSTUVWXYZabcdefghijklmnopqrstuvwxyz0123456789-_"@
}

/// Base64 text of `bytes` over a 64-character alphabet: each group of three
/// bytes, read as a 24-bit big-endian number, gives four characters of six
/// bits each; a final group of two bytes gives three characters and one of
/// one byte gives two, followed by `=` up to four when `pad` is set.
pub open spec fn base64_text(bytes: Seq<u8>, alphabet: Seq<char>, pad: bool) -> Seq<char>
    decreases bytes.len(),
{
    if bytes.len() == 0 {
        Seq::empty()
    } else if bytes.len() >= 3 {
        let n = bytes[0] as int * 65536 + bytes[1] as int * 256 + bytes[2] as int;
        seq![alphabet[n / 262144], alphabet[(n / 4096) % 64], alphabet[(n / 64) % 64], alphabet[n % 64]]
            + base64_text(bytes.skip(3), alphabet, pad)
    } else if bytes.len() == 2 {
        let n = bytes[0] as int * 65536 + bytes[1] as int * 256;
        seq![alphabet[n / 262144], alphabet[(n / 4096) % 64], alphabet[(n / 64) % 64]] + if pad {
            seq!['=']
        } else {
            Seq::empty()
        }
    } else {
        let n = bytes[0] as int * 65536;
        seq![alphabet[n / 262144], alphabet[(n / 4096) % 64]] + if pad {
            seq!['=', '=']
        } else {
            Seq::empty()
        }
    }
}

/// Standard Base64 (RFC 4648 alphabet, `=` padding).
pub open spec fn base64_standard(bytes: Seq<u8>) -> Seq<char> {
    base64_text(bytes, standard_alphabet(), true)
}

/// URL-safe Base64 without padding.
pub open spec fn base64_url_nopad(bytes: Seq<u8>) -> Seq<char> {
    base64_text(bytes, url_alphabet(), false)
}

/// `base64::engine::general_purpose::STANDARD.encode`: its result is the
/// standard Base64 text of the input. The crate
/// panics when the encoded length overflows `usize`, hence the bound.
#[verifier::external_body]
pub(crate) fn encode_standard(bytes: &[u8]) -> (s: String)
    requires
        bytes@.len() <= usize::MAX / 2,
    ensures
        s@ == base64_standard(bytes@),
{
    base64::engine::general_purpose::STANDARD.encode(bytes)
}

/// `base64::engine::general_purpose::URL_SAFE_NO_PAD.encode`: its result is the
/// URL-safe unpadded Base64 text of the input. The
/// crate panics when the encoded length overflows `usize`, hence the bound.
#[verifier::external_body]
pub(crate) fn encode_url_nopad(bytes: &[u8]) -> (s: String)
    requires
        bytes@.len() <= usize::MAX / 2,
    ensures
        s@ == base64_url_nopad(bytes@),
{
    base64::engine::general_purpose::URL_SAFE_NO_PAD.encode(bytes)
}

} // verus!

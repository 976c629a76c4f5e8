//! The encodings that the service speaks: the legacy Korean byte encoding
//! of its pages and queries, and base64 for the timetable query.
//!
//! The encoders themselves are not part of the verified code. Each is called
//! through one function whose contract gives the result a name.

use vstd::prelude::*;
use vstd::string::StringSliceAdditionalSpecFns;
use vstd::utf8::{decode_utf8, valid_utf8};

verus! {

/// Whether an input of `len` bytes is short enough to be handed to an
/// encoder. The encoders size their output buffers from the length of the
/// input, and give up where that size does not fit the machine's address
/// range.
pub open spec fn fits_encoder(len: nat) -> bool {
    len <= usize::MAX / 64
}

/// Whether a text is short enough to be handed to an encoder.
pub fn can_encode(text: &str) -> (ok: bool)
    ensures
        ok == fits_encoder(text.spec_bytes().len()),
{
    text.as_bytes().len() <= usize::MAX / 64
}

/// Whether a body is short enough to be handed to a decoder.
pub fn can_decode(bytes: &[u8]) -> (ok: bool)
    ensures
        ok == fits_encoder(bytes@.len()),
{
    bytes.len() <= usize::MAX / 64
}

/// Whether every byte is an ASCII character.
pub open spec fn ascii_bytes(bytes: Seq<u8>) -> bool {
    forall|i: int| 0 <= i < bytes.len() ==> #[trigger] bytes[i] < 128
}

/// Whether every character is an ASCII character.
pub open spec fn ascii_chars(text: Seq<char>) -> bool {
    forall|i: int| 0 <= i < text.len() ==> (#[trigger] text[i] as u32) < 128
}

/// Whether the bytes start with the byte order mark of UTF-8.
pub open spec fn starts_with_mark(bytes: Seq<u8>) -> bool {
    bytes.len() >= 3 && bytes[0] == 0xef && bytes[1] == 0xbb && bytes[2] == 0xbf
}

/// The bytes that the EUC-KR encoder of `encoding_rs` writes for a text.
pub uninterp spec fn euc_kr_bytes(text: Seq<char>) -> Seq<u8>;

/// The text that the EUC-KR decoder of `encoding_rs` reads from bytes.
pub uninterp spec fn euc_kr_text(bytes: Seq<u8>) -> Seq<char>;

/// The text that the UTF-8 decoder of `encoding_rs` reads from bytes.
pub uninterp spec fn utf8_text(bytes: Seq<u8>) -> Seq<char>;

/// The text that `base64::encode` writes for bytes.
pub uninterp spec fn base64_text(bytes: Seq<u8>) -> Seq<char>;

/// `encoding_rs::EUC_KR.encode`: the whole text in the legacy Korean
/// encoding, characters that it lacks written as numeric references; a text
/// of ASCII characters alone is handed back byte for byte. The result
/// depends on the text alone. The encoder fails where the size of its buffer
/// overflows, which the bound on the input rules out.
#[verifier::external_body]
pub(crate) fn euc_kr_encode(text: &str) -> (out: Vec<u8>)
    requires
        fits_encoder(text.spec_bytes().len()),
    ensures
        out@ == euc_kr_bytes(text@),
        ascii_chars(text@) ==> out@ == Seq::new(text@.len(), |i: int| text@[i] as u8),
{
    let (bytes, _, _) = encoding_rs::EUC_KR.encode(text);
    bytes.into_owned()
}

/// `encoding_rs::EUC_KR.decode`: the bytes read as the legacy Korean
/// encoding, unless they start with a byte order mark, malformed sequences
/// replaced; ASCII bytes alone are handed back character for character. The
/// result depends on the bytes alone.
#[verifier::external_body]
pub(crate) fn euc_kr_decode(bytes: &[u8]) -> (out: String)
    requires
        fits_encoder(bytes@.len()),
    ensures
        out@ == euc_kr_text(bytes@),
        ascii_bytes(bytes@) ==> out@ == Seq::new(bytes@.len(), |i: int| bytes@[i] as char),
{
    let (text, _, _) = encoding_rs::EUC_KR.decode(bytes);
    text.into_owned()
}

/// `encoding_rs::UTF_8.decode`: the bytes read as UTF-8, unless they start
/// with another byte order mark, malformed sequences replaced; bytes that
/// are valid UTF-8 and start with no mark are handed back as the text they
/// encode. The result depends on the bytes alone.
#[verifier::external_body]
pub(crate) fn utf8_decode(bytes: &[u8]) -> (out: String)
    requires
        fits_encoder(bytes@.len()),
    ensures
        out@ == utf8_text(bytes@),
        valid_utf8(bytes@) && !starts_with_mark(bytes@) ==> out@ == decode_utf8(bytes@),
{
    let (text, _, _) = encoding_rs::UTF_8.decode(bytes);
    text.into_owned()
}

/// `base64::encode`: the bytes in the standard alphabet, padded. The result
/// depends on the bytes alone.
#[verifier::external_body]
pub(crate) fn base64_encode(bytes: &[u8]) -> (out: String)
    requires
        fits_encoder(bytes@.len()),
    ensures
        out@ == base64_text(bytes@),
{
    base64::encode(bytes)
}

} // verus!

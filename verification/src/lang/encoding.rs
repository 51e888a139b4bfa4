//! Character decoding of language files, by `encoding_rs`, `encoding_rs_io` and std.
use std::io::Read;
use vstd::prelude::*;
use vstd::utf8::{decode_utf8, valid_utf8};

verus! {

/// The text that `encoding_rs_io` decodes from Windows-1252 bytes (no BOM sniffing).
pub uninterp spec fn windows_1252_decoded(bytes: Seq<u8>) -> Seq<char>;

/// The lower-case mapping of a text by `str::to_lowercase`.
pub uninterp spec fn lowercase(s: Seq<char>) -> Seq<char>;

/// Decodes Windows-1252 text with `encoding_rs_io::DecodeReaderBytes`, as INI language
/// files are read. The decoded text is `windows_1252_decoded` of the input. Reading
/// succeeds: the transcoder fails only where the reader under it fails, and reading an
/// in-memory slice does not, and what it produces is valid UTF-8.
#[verifier::external_body]
pub(crate) fn decode_windows_1252(bytes: &[u8]) -> (r: Option<String>)
    ensures
        r is Some,
        r matches Some(s) ==> s@ == windows_1252_decoded(bytes@),
{
    let mut reader = encoding_rs_io::DecodeReaderBytesBuilder::new()
        .encoding(Some(encoding_rs::WINDOWS_1252))
        .build(bytes);
    let mut text = String::new();
    match reader.read_to_string(&mut text) {
        Ok(_) => Some(text),
        Err(_) => None,
    }
}

/// Decodes UTF-8 with `std::str::from_utf8`: the text is returned exactly when the bytes
/// are valid UTF-8, and then it is their decoding.
#[verifier::external_body]
pub(crate) fn decode_utf8_text(bytes: &[u8]) -> (r: Option<&str>)
    ensures
        r is Some <==> valid_utf8(bytes@),
        r matches Some(s) ==> s@ == decode_utf8(bytes@),
{
    match std::str::from_utf8(bytes) {
        Ok(s) => Some(s),
        Err(_) => None,
    }
}

/// `str::to_lowercase`.
#[verifier::external_body]
pub(crate) fn to_lowercase(s: &str) -> (r: String)
    ensures
        r@ == lowercase(s@),
{
    s.to_lowercase()
}


/// The text that `encoding_rs`'s `WINDOWS_1252.decode` gives for some bytes (it sniffs a
/// byte order mark first).
pub uninterp spec fn windows_1252_decode(bytes: Seq<u8>) -> Seq<char>;

/// The bytes that `encoding_rs`'s `WINDOWS_1252.encode` gives for a text.
pub uninterp spec fn windows_1252_encode(s: Seq<char>) -> Seq<u8>;

/// `encoding_rs::WINDOWS_1252.decode`: the text is `windows_1252_decode` of the bytes
/// (malformed input is replaced, never refused).
#[verifier::external_body]
pub(crate) fn decode_windows_1252_bytes(bytes: &[u8]) -> (s: String)
    ensures
        s@ == windows_1252_decode(bytes@),
{
    let (text, _encoding, _failed) = encoding_rs::WINDOWS_1252.decode(bytes);
    text.into_owned()
}

/// `encoding_rs::WINDOWS_1252.encode`: the bytes are `windows_1252_encode` of the text
/// (unmappable characters are replaced, never refused).
#[verifier::external_body]
pub(crate) fn encode_windows_1252(s: &str) -> (b: Vec<u8>)
    ensures
        b@ == windows_1252_encode(s@),
{
    let (bytes, _encoding, _failed) = encoding_rs::WINDOWS_1252.encode(s);
    bytes.into_owned()
}


/// The text that `encoding_rs`'s `UTF_16LE.decode` gives for some bytes (it sniffs a byte
/// order mark first), and whether malformed input was replaced.
pub uninterp spec fn utf16le_decode(bytes: Seq<u8>) -> (Seq<char>, bool);

/// `encoding_rs::UTF_16LE.decode`: the text and the flag that malformed input was
/// replaced are `utf16le_decode` of the bytes.
#[verifier::external_body]
pub(crate) fn decode_utf16le(bytes: &[u8]) -> (r: (String, bool))
    ensures
        (r.0@, r.1) == utf16le_decode(bytes@),
{
    let (text, _encoding, failed) = encoding_rs::UTF_16LE.decode(bytes);
    (text.into_owned(), failed)
}

} // verus!

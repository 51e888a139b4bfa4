//! Raw DEFLATE streams, by `flate2`.
use std::io::{Read, Write};
use vstd::prelude::*;

verus! {

/// What `flate2::read::DeflateDecoder` decompresses from a raw DEFLATE stream, or `None`
/// when the stream is malformed.
pub uninterp spec fn inflated(compressed: Seq<u8>) -> Option<Seq<u8>>;

/// What `flate2::write::DeflateEncoder` with the default compression level produces from
/// `data`, or `None` where it reports an error. Compression at a fixed level has no other
/// input, so the outcome is determined by `data` alone.
pub uninterp spec fn deflated(data: Seq<u8>) -> Option<Seq<u8>>;

/// Decompresses a raw DEFLATE stream with `flate2::read::DeflateDecoder`, reading it to
/// its end. The result is `inflated` of the input, determined by the input alone.
#[verifier::external_body]
pub fn inflate(compressed: &[u8]) -> (r: Option<Vec<u8>>)
    ensures
        r is Some <==> inflated(compressed@) is Some,
        r matches Some(d) ==> inflated(compressed@) == Some(d@),
{
    let mut out = Vec::new();
    match flate2::read::DeflateDecoder::new(compressed).read_to_end(&mut out) {
        Ok(_) => Some(out),
        Err(_) => None,
    }
}

/// Compresses with `flate2::write::DeflateEncoder` at `Compression::default()`.
/// The result is `deflated` of the input, and decompressing it gives the input back
/// (DEFLATE is lossless). Which inputs the encoder refuses is left to `deflated`: its
/// source does not show that writing into memory always succeeds.
#[verifier::external_body]
pub fn deflate(data: &[u8]) -> (r: Option<Vec<u8>>)
    ensures
        r is Some <==> deflated(data@) is Some,
        r matches Some(c) ==> deflated(data@) == Some(c@) && inflated(c@) == Some(data@),
{
    let mut encoder = flate2::write::DeflateEncoder::new(Vec::new(), flate2::Compression::default());
    match encoder.write_all(data) {
        Ok(()) => {},
        Err(_) => return None,
    }
    match encoder.finish() {
        Ok(c) => Some(c),
        Err(_) => None,
    }
}

/// What `flate2::read::DeflateDecoder` gives for the first `n` decompressed bytes of a raw
/// DEFLATE stream, read with `read_exact`, or `None` when the stream is malformed before
/// them or ends before them.
pub uninterp spec fn inflated_prefix(compressed: Seq<u8>, n: nat) -> Option<Seq<u8>>;

/// Reads the first `n` decompressed bytes of a raw DEFLATE stream with
/// `flate2::read::DeflateDecoder` and `read_exact`. The result is `inflated_prefix` of the
/// input and `n`, determined by them alone; it holds `n` bytes.
#[verifier::external_body]
pub fn inflate_prefix(compressed: &[u8], n: usize) -> (r: Option<Vec<u8>>)
    ensures
        r is Some <==> inflated_prefix(compressed@, n as nat) is Some,
        r matches Some(d) ==> inflated_prefix(compressed@, n as nat) == Some(d@) && d@.len() == n,
{
    let mut out = vec![0u8; n];
    match flate2::read::DeflateDecoder::new(compressed).read_exact(&mut out) {
        Ok(()) => Some(out),
        Err(_) => None,
    }
}

} // verus!

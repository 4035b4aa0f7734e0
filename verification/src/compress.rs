use vstd::prelude::*;

use crate::errors::CompressionError;
use crate::options::CompressionLevel;
use std::io::{Read, Write};

verus! {

/// What gzip decompression yields on the given bytes: the decompressed
/// payload when the bytes form a valid gzip stream, `None` when they do not
/// (bad header, checksum mismatch, truncated stream). Inflating is a pure
/// function of the input bytes, so the outcome is the same in every process
/// and on every machine.
pub uninterp spec fn gunzip_of(b: Seq<u8>) -> Option<Seq<u8>>;

/// What gzip compression emits for the given bytes at the given level. For
/// this backend the header is fixed (zero time stamp, fixed system byte)
/// and deflation is deterministic, so the stream is a pure function of
/// payload and level, the same in every process and on every machine.
pub uninterp spec fn gzip_of(b: Seq<u8>, level: u32) -> Seq<u8>;

/// What `decompress_data` yields: a zero-length input decompresses to empty
/// output rather than failing, and any other input decompresses as the gzip
/// stream it is, or is rejected.
pub open spec fn decompress_of(b: Seq<u8>) -> Option<Seq<u8>> {
    if b.len() == 0 {
        Some(Seq::empty())
    } else {
        gunzip_of(b)
    }
}

/// Relies on `flate2::write::GzEncoder` (with `write_all` and `finish`): the
/// encoder emits a valid gzip stream that `flate2::bufread::GzDecoder`
/// inflates back to exactly the bytes that were written, at every
/// compression level; compression is lossless. An error could come only
/// from the sink, and writes into an in-memory `Vec` always succeed, so the
/// call always returns `Ok`. The emitted header carries no time stamp and a
/// fixed system byte, so the stream depends on the payload and level alone
/// and is never empty (it always starts with the ten header bytes).
#[verifier::external_body]
fn gzip_bytes(data: &Vec<u8>, level: u32) -> (r: Result<Vec<u8>, String>)
    requires
        level <= 9,
    ensures
        r is Ok,
        r matches Ok(z) ==> z@ == gzip_of(data@, level),
        r matches Ok(z) ==> gunzip_of(z@) == Some(data@),
        r matches Ok(z) ==> z@.len() > 0,
{
    let mut encoder = flate2::write::GzEncoder::new(Vec::new(), flate2::Compression::new(level));
    if let Err(e) = encoder.write_all(data.as_slice()) {
        return Err(format!("{}", e));
    }
    match encoder.finish() {
        Ok(z) => Ok(z),
        Err(e) => Err(format!("{}", e)),
    }
}

/// Relies on `flate2::bufread::GzDecoder` (with `read_to_end`): it inflates
/// a valid gzip stream to its payload and reports an error on bytes that are
/// not one; on given input bytes its outcome is deterministic.
#[verifier::external_body]
fn gunzip_bytes(data: &Vec<u8>) -> (r: Result<Vec<u8>, String>)
    ensures
        r is Ok <==> gunzip_of(data@) is Some,
        r matches Ok(v) ==> gunzip_of(data@) == Some(v@),
{
    let mut decoder = flate2::bufread::GzDecoder::new(data.as_slice());
    let mut out = Vec::new();
    match decoder.read_to_end(&mut out) {
        Ok(_) => Ok(out),
        Err(e) => Err(format!("{}", e)),
    }
}

/// Compresses a byte sequence with the deflate-family (gzip) compressor at
/// the given level. Succeeds for every payload, including the empty one; the
/// result is the same for equal payload and level on every call, and the
/// compressed stream decompresses back to exactly the input. The `Internal`
/// error, a programming-defect signal, is the only error shape and is
/// proved never to occur for these in-memory buffers.
pub fn compress_data(data: &Vec<u8>, level: &CompressionLevel) -> (r: Result<
    Vec<u8>,
    CompressionError,
>)
    ensures
        r is Ok,
        r matches Ok(z) ==> z@ == gzip_of(data@, level.spec_level()),
        r matches Ok(z) ==> decompress_of(z@) == Some(data@),
        r matches Err(e) ==> e is Internal,
{
    match gzip_bytes(data, level.level()) {
        Ok(z) => Ok(z),
        Err(e) => Err(CompressionError::Internal(e)),
    }
}

/// Decompresses a gzip stream: the inverse of `compress_data`. A
/// zero-length input decompresses to empty output; any other input returns
/// `Ok` exactly when it is a valid gzip stream, and `CorruptStream`
/// otherwise; it never panics.
pub fn decompress_data(data: &Vec<u8>) -> (r: Result<Vec<u8>, CompressionError>)
    ensures
        r is Ok <==> decompress_of(data@) is Some,
        r matches Ok(v) ==> decompress_of(data@) == Some(v@),
        r matches Err(e) ==> e is CorruptStream,
{
    if data.len() == 0 {
        return Ok(Vec::new());
    }
    match gunzip_bytes(data) {
        Ok(v) => Ok(v),
        Err(e) => Err(CompressionError::CorruptStream(e)),
    }
}

} // verus!

//! A verified round-trip codec pipeline.
//!
//! A `Record` is serialized to bytes in one of three wire formats, the bytes
//! are compressed with a deflate-family (gzip) compressor, and the compressed
//! stream is transcoded to a text-safe string. The inverse path decodes the
//! text, decompresses the stream, and deserializes the bytes back to the
//! original `Record`. Every stage states exactly when it succeeds and what it
//! returns, and the pipeline's contracts prove that decoding an encoded record
//! yields the record that was put in.

pub mod codec;
pub mod compress;
pub mod errors;
pub mod options;
pub mod pipeline;
pub mod record;
pub mod text;

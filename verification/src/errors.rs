use vstd::prelude::*;

verus! {

/// Failure at the serialization boundary: a value that the chosen format
/// cannot represent, or bytes that are not a well-formed encoding.
#[derive(Clone, Debug)]
pub enum CodecError {
    EncodeFailed(String),
    DecodeFailed(String),
}

/// Failure in the compressor: `Internal` signals an unexpected environment
/// failure while compressing (a programming defect, never caused by the input
/// bytes); `CorruptStream` signals input that is not a valid compressed
/// stream.
#[derive(Clone, Debug)]
pub enum CompressionError {
    Internal(String),
    CorruptStream(String),
}

/// Failure in the text transcoder: the input string holds a character outside
/// the chosen alphabet, or its padding is malformed.
#[derive(Clone, Copy, Debug, PartialEq, Eq, Structural)]
pub enum TextDecodeError {
    InvalidCharacter,
    InvalidPadding,
}

/// The pipeline stage in which an error arose.
#[derive(Clone, Copy, Debug, PartialEq, Eq, Structural)]
pub enum Stage {
    Serialization,
    Compression,
    TextEncoding,
    TextDecoding,
    Decompression,
    Deserialization,
}

/// The underlying component error carried by a `PipelineError`.
#[derive(Clone, Debug)]
pub enum ErrorCause {
    Codec(CodecError),
    Compression(CompressionError),
    Text(TextDecodeError),
}

/// A component error together with the stage it occurred in.
#[derive(Clone, Debug)]
pub struct PipelineError {
    pub stage: Stage,
    pub cause: ErrorCause,
}

} // verus!

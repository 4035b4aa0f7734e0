use vstd::prelude::*;

use crate::codec;
use crate::codec::{codec_decode_spec, codec_encode_spec};
use crate::compress::{compress_data, decompress_data, decompress_of, gzip_of};
use crate::errors::{ErrorCause, PipelineError, Stage};
use crate::options::{FormatKind, SerializerOptions};
use crate::record::Record;
use crate::text::{
    decode_text, encode_text, is_alphabet_char, text_decode_of, text_encode_of, Alphabet,
};

verus! {

/// What `decode` recovers from the given text with the given format: the
/// text-safe string is decoded (with the pipeline's fixed standard padded
/// alphabet), the compressed stream is inflated, and the bytes are
/// deserialized. A failure at any stage fails the whole decode.
pub open spec fn pipeline_decode_spec(text: Seq<char>, fmt: FormatKind) -> Option<Seq<char>> {
    match text_decode_of(text, Alphabet::StandardPadded) {
        Some(z) => match decompress_of(z) {
            Some(encoded) => codec_decode_spec(fmt, encoded),
            None => None,
        },
        None => None,
    }
}

/// What `encode` emits for the given characters, format and level: the
/// format's encoding of the record, compressed at the level, transcoded
/// with the pipeline's fixed standard padded alphabet. Every stage is a
/// pure function of its arguments, so two encodes of equal record and
/// options yield equal text.
pub open spec fn pipeline_encode_spec(value: Seq<char>, fmt: FormatKind, level: u32) -> Option<
    Seq<char>,
> {
    match codec_encode_spec(fmt, value) {
        Some(b) => Some(text_encode_of(gzip_of(b, level), Alphabet::StandardPadded)),
        None => None,
    }
}

/// Runs the encode direction: serialize, compress, transcode to text. It
/// succeeds exactly when the format can represent the record, the result is
/// the text that `pipeline_encode_spec` fixes (equal inputs give equal
/// text), it is text-safe, and decoding it with the same format yields
/// exactly the record that was encoded — at every compression level. The
/// only error is `EncodeFailed` in the `Serialization` stage; it never
/// panics.
pub fn encode(record: &Record, options: &SerializerOptions) -> (r: Result<String, PipelineError>)
    ensures
        r is Ok <==> codec_encode_spec(options.format, record@) is Some,
        r matches Ok(text) ==> Some(text@) == pipeline_encode_spec(
            record@,
            options.format,
            options.level.spec_level(),
        ),
        r matches Ok(text) ==> pipeline_decode_spec(text@, options.format) == Some(record@),
        r matches Ok(text) ==> forall|i: int|
            0 <= i < text@.len() ==> is_alphabet_char(
                #[trigger] text@[i],
                Alphabet::StandardPadded,
            ),
        r matches Err(e) ==> e.stage is Serialization && (e.cause matches ErrorCause::Codec(c)
            && c is EncodeFailed),
{
    let encoded = match codec::encode(record, options.format) {
        Ok(b) => b,
        Err(e) => {
            return Err(
                PipelineError { stage: Stage::Serialization, cause: ErrorCause::Codec(e) },
            );
        },
    };
    let compressed = match compress_data(&encoded, &options.level) {
        Ok(z) => z,
        Err(e) => {
            return Err(
                PipelineError { stage: Stage::Compression, cause: ErrorCause::Compression(e) },
            );
        },
    };
    let text = encode_text(&compressed, Alphabet::StandardPadded);
    proof {
        codec::lemma_codec_round_trip(options.format, record@);
    }
    Ok(text)
}

/// Runs the decode direction: decode the text, decompress, deserialize. The
/// exact inverse of `encode`: it succeeds precisely when the text decodes,
/// inflates and deserializes under the given format; the error names the
/// first stage that failed, and only that stage's failure admits it; a text
/// holding a character outside the alphabet comes back as an
/// `InvalidCharacter` in the `TextDecoding` stage. It never panics,
/// whatever the input.
pub fn decode(text: &str, options: &SerializerOptions) -> (r: Result<Record, PipelineError>)
    ensures
        r is Ok <==> pipeline_decode_spec(text@, options.format) is Some,
        r matches Ok(rec) ==> pipeline_decode_spec(text@, options.format) == Some(rec@),
        r matches Err(e) ==> (e.stage is TextDecoding && text_decode_of(
            text@,
            Alphabet::StandardPadded,
        ) is None && (e.cause matches ErrorCause::Text(_))) || (e.stage is Decompression && (
        text_decode_of(text@, Alphabet::StandardPadded) matches Some(z) && decompress_of(z) is None)
            && (e.cause matches ErrorCause::Compression(c) && c is CorruptStream)) || (
        e.stage is Deserialization && (text_decode_of(text@, Alphabet::StandardPadded) matches Some(
            z,
        ) && decompress_of(z) matches Some(enc) && codec_decode_spec(options.format, enc) is None)
            && (e.cause matches ErrorCause::Codec(c) && c is DecodeFailed)),
        r matches Err(e) ==> ((exists|i: int|
            0 <= i < text@.len() && !is_alphabet_char(text@[i], Alphabet::StandardPadded)
                && text@[i] != '=') ==> e.stage is TextDecoding && (
        e.cause matches ErrorCause::Text(t) && t is InvalidCharacter)),
{
    let compressed = match decode_text(text, Alphabet::StandardPadded) {
        Ok(v) => v,
        Err(e) => {
            return Err(PipelineError { stage: Stage::TextDecoding, cause: ErrorCause::Text(e) });
        },
    };
    let encoded = match decompress_data(&compressed) {
        Ok(v) => v,
        Err(e) => {
            return Err(
                PipelineError { stage: Stage::Decompression, cause: ErrorCause::Compression(e) },
            );
        },
    };
    match codec::decode(&encoded, options.format) {
        Ok(rec) => Ok(rec),
        Err(e) => Err(
            PipelineError { stage: Stage::Deserialization, cause: ErrorCause::Codec(e) },
        ),
    }
}

/// Compression level independence: what a text decodes to depends only on
/// the text and the format, never on the compression level, so two options
/// values sharing a format always decode a text to the same result.
pub proof fn lemma_decode_level_independent(
    text: Seq<char>,
    o1: SerializerOptions,
    o2: SerializerOptions,
)
    requires
        o1.format == o2.format,
    ensures
        pipeline_decode_spec(text, o1.format) == pipeline_decode_spec(text, o2.format),
{
}

} // verus!

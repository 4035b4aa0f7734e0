use codec_pipeline::codec;
use codec_pipeline::compress::{compress_data, decompress_data};
use codec_pipeline::errors::{CodecError, CompressionError, ErrorCause, Stage, TextDecodeError};
use codec_pipeline::options::{CompressionLevel, FormatKind, SerializerOptions};
use codec_pipeline::pipeline;
use codec_pipeline::record::Record;
use codec_pipeline::text::{decode_text, encode_text, Alphabet};

fn all_formats() -> Vec<FormatKind> {
    vec![
        FormatKind::PlainText,
        FormatKind::CompactBinaryMap,
        FormatKind::SelfDescribingDocument,
    ]
}

fn round_trip(value: &str, format: FormatKind, level: CompressionLevel) -> String {
    let record = Record::new(String::from(value));
    let options = SerializerOptions::new(format, level);
    let text = pipeline::encode(&record, &options).expect("encode failed");
    let decoded = pipeline::decode(text.as_str(), &options).expect("decode failed");
    assert_eq!(decoded.value, value);
    text
}

#[test]
fn round_trip_plain_text() {
    round_trip("hello", FormatKind::PlainText, CompressionLevel::default());
}

#[test]
fn round_trip_compact_binary_map() {
    round_trip("hello", FormatKind::CompactBinaryMap, CompressionLevel::default());
}

#[test]
fn round_trip_self_describing_document() {
    round_trip("hello", FormatKind::SelfDescribingDocument, CompressionLevel::default());
}

#[test]
fn round_trip_every_format_and_level() {
    for format in all_formats() {
        for level in 0..=9u32 {
            round_trip("some payload, чуть unicode £ €", format, CompressionLevel::new(level));
        }
    }
}

#[test]
fn round_trip_empty_value_every_format() {
    for format in all_formats() {
        round_trip("", format, CompressionLevel::default());
    }
}

#[test]
fn round_trip_quotes_and_backslashes() {
    for format in all_formats() {
        round_trip("a\"b\\c\\\"d\\\\\"", format, CompressionLevel::default());
        round_trip("\"\"\\\\", format, CompressionLevel::fastest());
    }
}

#[test]
fn compression_level_changes_size_not_result() {
    let value = "abcdefghij".repeat(5000);
    let record = Record::new(value.clone());
    let mut sizes = Vec::new();
    for level in [0u32, 9u32] {
        let options = SerializerOptions::new(FormatKind::PlainText, CompressionLevel::new(level));
        let text = pipeline::encode(&record, &options).expect("encode failed");
        sizes.push(text.len());
        let decoded = pipeline::decode(text.as_str(), &options).expect("decode failed");
        assert_eq!(decoded.value, value);
    }
    // Stored (level 0) output must be strictly larger than best-effort output
    // for this highly repetitive payload.
    assert!(sizes[0] > sizes[1]);
}

#[test]
fn plain_text_exact_bytes() {
    let record = Record::new(String::from("hi"));
    let bytes = codec::encode(&record, FormatKind::PlainText).expect("encode failed");
    assert_eq!(bytes, b"{\"value\":\"hi\"}".to_vec());

    let escaped = Record::new(String::from("a\"b\\"));
    let bytes = codec::encode(&escaped, FormatKind::PlainText).expect("encode failed");
    assert_eq!(bytes, b"{\"value\":\"a\\\"b\\\\\"}".to_vec());
}

#[test]
fn compact_exact_bytes() {
    let record = Record::new(String::from("hi"));
    let bytes = codec::encode(&record, FormatKind::CompactBinaryMap).expect("encode failed");
    assert_eq!(bytes, vec![0x01, 2, 0, 0, 0, b'h', b'i']);
}

#[test]
fn self_describing_exact_bytes() {
    let record = Record::new(String::from("hi"));
    let bytes = codec::encode(&record, FormatKind::SelfDescribingDocument).expect("encode failed");
    assert_eq!(
        bytes,
        vec![0xd1, 5, b'v', b'a', b'l', b'u', b'e', 0x02, 2, 0, 0, 0, b'h', b'i']
    );
}

#[test]
fn cross_format_distinctness() {
    let record = Record::new(String::from("same record"));
    let encodings: Vec<Vec<u8>> = all_formats()
        .into_iter()
        .map(|f| codec::encode(&record, f).expect("encode failed"))
        .collect();
    assert_ne!(encodings[0], encodings[1]);
    assert_ne!(encodings[0], encodings[2]);
    assert_ne!(encodings[1], encodings[2]);
    for (bytes, format) in encodings.iter().zip(all_formats()) {
        let decoded = codec::decode(bytes, format).expect("decode failed");
        assert_eq!(decoded.value, "same record");
    }
}

#[test]
fn codec_decode_rejects_malformed() {
    // Truncated input, for every format.
    for format in all_formats() {
        assert!(matches!(
            codec::decode(&vec![], format),
            Err(CodecError::DecodeFailed(_))
        ));
        assert!(matches!(
            codec::decode(&vec![0x01, 2, 0], format),
            Err(CodecError::DecodeFailed(_))
        ));
    }
    // Wrong tag / prefix.
    assert!(matches!(
        codec::decode(&b"[\"value\":\"x\"}".to_vec(), FormatKind::PlainText),
        Err(CodecError::DecodeFailed(_))
    ));
    // Bad escape.
    assert!(matches!(
        codec::decode(&b"{\"value\":\"a\\x\"}".to_vec(), FormatKind::PlainText),
        Err(CodecError::DecodeFailed(_))
    ));
    // Trailing bytes after the field.
    assert!(matches!(
        codec::decode(&b"{\"value\":\"a\"}z".to_vec(), FormatKind::PlainText),
        Err(CodecError::DecodeFailed(_))
    ));
    // Length prefix that disagrees with the payload.
    assert!(matches!(
        codec::decode(&vec![0x01, 3, 0, 0, 0, b'h', b'i'], FormatKind::CompactBinaryMap),
        Err(CodecError::DecodeFailed(_))
    ));
    // A field that is not valid UTF-8.
    assert!(matches!(
        codec::decode(&vec![0x01, 1, 0, 0, 0, 0xff], FormatKind::CompactBinaryMap),
        Err(CodecError::DecodeFailed(_))
    ));
}

#[test]
fn malformed_text_invalid_character() {
    assert_eq!(
        decode_text("@@@@", Alphabet::StandardPadded),
        Err(TextDecodeError::InvalidCharacter)
    );
    assert_eq!(
        decode_text("ab!d", Alphabet::UrlSafeUnpadded),
        Err(TextDecodeError::InvalidCharacter)
    );
}

#[test]
fn malformed_text_invalid_padding() {
    assert_eq!(
        decode_text("AAA", Alphabet::StandardPadded),
        Err(TextDecodeError::InvalidPadding)
    );
}

#[test]
fn text_round_trip_both_alphabets() {
    let payload: Vec<u8> = (0u8..=255).collect();
    for alphabet in [Alphabet::StandardPadded, Alphabet::UrlSafeUnpadded] {
        let text = encode_text(&payload, alphabet);
        let back = decode_text(text.as_str(), alphabet).expect("decode failed");
        assert_eq!(back, payload);
    }
}

#[test]
fn alphabet_mismatch_fails() {
    // One byte encodes to "AA==" under the standard padded alphabet; the
    // URL-safe unpadded alphabet rejects the padding characters.
    let text = encode_text(&vec![0u8], Alphabet::StandardPadded);
    assert_eq!(text, "AA==");
    assert!(decode_text(text.as_str(), Alphabet::UrlSafeUnpadded).is_err());
}

#[test]
fn pipeline_alphabet_is_symmetric() {
    // The concrete scenario: {value: "hello"}, plain text, default level.
    let record = Record::new(String::from("hello"));
    let options = SerializerOptions::new(FormatKind::PlainText, CompressionLevel::default());
    let text = pipeline::encode(&record, &options).expect("encode failed");
    let decoded = pipeline::decode(text.as_str(), &options).expect("decode failed");
    assert_eq!(decoded.value, "hello");
    // Decoding the same text with the mismatched alphabet variant must fail,
    // not silently yield wrong bytes.
    assert!(decode_text(text.as_str(), Alphabet::UrlSafeUnpadded).is_err());
}

#[test]
fn corrupt_stream_rejected() {
    let record = Record::new(String::from("corruptible"));
    let options = SerializerOptions::new(FormatKind::PlainText, CompressionLevel::default());
    let text = pipeline::encode(&record, &options).expect("encode failed");
    let mut compressed =
        decode_text(text.as_str(), Alphabet::StandardPadded).expect("text decode failed");
    // Undamaged, the stream decompresses.
    assert!(decompress_data(&compressed).is_ok());
    // Flip a byte in the gzip header: the stream must be rejected, not
    // decoded to garbage.
    compressed[0] ^= 0xff;
    assert!(matches!(
        decompress_data(&compressed),
        Err(CompressionError::CorruptStream(_))
    ));
}

#[test]
fn decompress_empty_input_is_empty_output() {
    assert_eq!(decompress_data(&vec![]).unwrap(), Vec::<u8>::new());
}

#[test]
fn decompress_rejects_noise() {
    assert!(matches!(
        decompress_data(&vec![1, 2, 3, 4, 5]),
        Err(CompressionError::CorruptStream(_))
    ));
}

#[test]
fn compress_empty_round_trips() {
    let z = compress_data(&vec![], &CompressionLevel::default()).expect("compress failed");
    let back = decompress_data(&z).expect("decompress failed");
    assert_eq!(back, Vec::<u8>::new());
}

#[test]
fn pipeline_error_stages() {
    let options = SerializerOptions::new(FormatKind::PlainText, CompressionLevel::default());
    // A character outside the alphabet fails in the text-decoding stage
    // with the invalid-character error.
    let e = pipeline::decode("not base64!", &options).expect_err("expected failure");
    assert_eq!(e.stage, Stage::TextDecoding);
    assert!(matches!(
        e.cause,
        ErrorCause::Text(TextDecodeError::InvalidCharacter)
    ));
    // Valid text that is not a gzip stream fails in the decompression stage.
    let text = encode_text(&vec![9, 9, 9, 9], Alphabet::StandardPadded);
    let e = pipeline::decode(text.as_str(), &options).expect_err("expected failure");
    assert_eq!(e.stage, Stage::Decompression);
    assert!(matches!(
        e.cause,
        ErrorCause::Compression(CompressionError::CorruptStream(_))
    ));
    // A valid gzip stream of bytes that are no plain-text encoding fails in
    // the deserialization stage.
    let z = compress_data(&vec![9, 9, 9], &CompressionLevel::default()).expect("compress failed");
    let text = encode_text(&z, Alphabet::StandardPadded);
    let e = pipeline::decode(text.as_str(), &options).expect_err("expected failure");
    assert_eq!(e.stage, Stage::Deserialization);
    assert!(matches!(e.cause, ErrorCause::Codec(CodecError::DecodeFailed(_))));
}

#[test]
fn format_is_tracked_not_guessed() {
    // Text encoded under one format does not decode under another.
    let record = Record::new(String::from("tracked"));
    let o_plain = SerializerOptions::new(FormatKind::PlainText, CompressionLevel::default());
    let o_compact =
        SerializerOptions::new(FormatKind::CompactBinaryMap, CompressionLevel::default());
    let text = pipeline::encode(&record, &o_plain).expect("encode failed");
    let e = pipeline::decode(text.as_str(), &o_compact).expect_err("expected failure");
    assert_eq!(e.stage, Stage::Deserialization);
}

#[test]
fn large_payload_round_trips() {
    let value = "0123456789abcdef".repeat(200_000);
    assert!(value.len() > 3_000_000);
    for format in [FormatKind::PlainText, FormatKind::CompactBinaryMap] {
        let text = round_trip(&value, format, CompressionLevel::fastest());
        // Multi-megabyte repetitive text compresses well below its size.
        assert!(text.len() < value.len());
    }
}

#[test]
fn encode_is_deterministic() {
    let record = Record::new(String::from("same input, same output"));
    for format in all_formats() {
        for level in [0u32, 6, 9] {
            let options = SerializerOptions::new(format, CompressionLevel::new(level));
            let t1 = pipeline::encode(&record, &options).expect("encode failed");
            let t2 = pipeline::encode(&record, &options).expect("encode failed");
            assert_eq!(t1, t2);
        }
    }
}

#[test]
fn compress_always_succeeds_and_is_deterministic() {
    let payloads: Vec<Vec<u8>> = vec![vec![], vec![0], (0u8..=255).collect()];
    for level in 0..=9u32 {
        for data in &payloads {
            let z1 = compress_data(data, &CompressionLevel::new(level)).expect("compress failed");
            let z2 = compress_data(data, &CompressionLevel::new(level)).expect("compress failed");
            assert_eq!(z1, z2);
        }
    }
}

#[test]
fn compression_level_presets() {
    assert_eq!(CompressionLevel::no_compression().level(), 0);
    assert_eq!(CompressionLevel::fastest().level(), 1);
    assert_eq!(CompressionLevel::default().level(), 6);
    assert_eq!(CompressionLevel::best().level(), 9);
    assert_eq!(CompressionLevel::new(3).level(), 3);
}

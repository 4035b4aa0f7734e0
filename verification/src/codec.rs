use vstd::prelude::*;

use crate::errors::CodecError;
use crate::options::FormatKind;
use crate::record::Record;
use vstd::string::StrSliceExecFns;
use vstd::utf8::{
    decode_utf8, encode_utf8, encode_utf8_decode_utf8, encode_utf8_valid_utf8, valid_utf8,
};

verus! {

// ---------------------------------------------------------------------------
// Wire formats, at the level of the serialized field value's bytes.
//
// Every format carries a distinct leading tag byte, so no two formats ever
// produce the same byte sequence:
//   PlainText              starts with `{`  (0x7b),
//   CompactBinaryMap       starts with 0x01,
//   SelfDescribingDocument starts with 0xd1.
// ---------------------------------------------------------------------------
/// The opening bytes of the plain-text format: `{"value":"`.
pub open spec fn plain_prefix() -> Seq<u8> {
    seq![123u8, 34u8, 118u8, 97u8, 108u8, 117u8, 101u8, 34u8, 58u8, 34u8]
}

/// Escaping for the plain-text format: a quote (0x22) or backslash (0x5c)
/// is preceded by a backslash; every other byte stands for itself. UTF-8
/// continuation bytes are all at least 0x80, so escaping these two ASCII
/// bytes never splits a multi-byte character.
pub open spec fn esc_byte(b: u8) -> Seq<u8> {
    if b == 34 || b == 92 {
        seq![92u8, b]
    } else {
        seq![b]
    }
}

/// The escaped form of a byte sequence.
pub open spec fn esc(v: Seq<u8>) -> Seq<u8>
    decreases v.len(),
{
    if v.len() == 0 {
        Seq::empty()
    } else {
        esc_byte(v[0]) + esc(v.drop_first())
    }
}

/// The plain-text encoding: `{"value":"` ++ escaped value ++ `"}`.
pub open spec fn plain_encode_spec(v: Seq<u8>) -> Seq<u8> {
    plain_prefix() + esc(v) + seq![34u8, 125u8]
}

/// Parses an escaped region up to its closing unescaped quote; yields the
/// unescaped bytes and whatever follows the quote, or `None` if the region
/// is malformed (a bad escape, or no closing quote).
pub open spec fn parse_quoted(s: Seq<u8>) -> Option<(Seq<u8>, Seq<u8>)>
    decreases s.len(),
{
    if s.len() == 0 {
        None
    } else if s[0] == 34 {
        Some((Seq::empty(), s.drop_first()))
    } else if s[0] == 92 {
        if s.len() >= 2 && (s[1] == 34 || s[1] == 92) {
            match parse_quoted(s.skip(2)) {
                Some(p) => Some((seq![s[1]] + p.0, p.1)),
                None => None,
            }
        } else {
            None
        }
    } else {
        match parse_quoted(s.drop_first()) {
            Some(p) => Some((seq![s[0]] + p.0, p.1)),
            None => None,
        }
    }
}

/// The plain-text decoding: the exact prefix, a well-formed escaped region,
/// and nothing after the closing `"}`.
pub open spec fn plain_decode_spec(b: Seq<u8>) -> Option<Seq<u8>> {
    if b.len() >= 10 && b.subrange(0, 10) == plain_prefix() {
        match parse_quoted(b.skip(10)) {
            Some(p) => if p.1 == seq![125u8] {
                Some(p.0)
            } else {
                None
            },
            None => None,
        }
    } else {
        None
    }
}

/// The four little-endian bytes of a 32-bit length.
pub open spec fn le32(n: u32) -> Seq<u8> {
    seq![
        (n & 0xff) as u8,
        ((n >> 8) & 0xff) as u8,
        ((n >> 16) & 0xff) as u8,
        ((n >> 24) & 0xff) as u8,
    ]
}

/// The 32-bit value read back from four little-endian bytes.
pub open spec fn le32_val(b0: u8, b1: u8, b2: u8, b3: u8) -> u32 {
    (b0 as u32) | ((b1 as u32) << 8) | ((b2 as u32) << 16) | ((b3 as u32) << 24)
}

/// The compact binary encoding: tag 0x01, a little-endian 32-bit byte
/// length, then the raw value bytes. Values longer than a 32-bit length can
/// describe are not representable.
pub open spec fn compact_encode_spec(v: Seq<u8>) -> Option<Seq<u8>> {
    if v.len() > 0xffffffff {
        None
    } else {
        Some(seq![1u8] + le32(v.len() as u32) + v)
    }
}

/// The compact binary decoding: strict, with no trailing bytes allowed.
pub open spec fn compact_decode_spec(b: Seq<u8>) -> Option<Seq<u8>> {
    if b.len() >= 5 && b[0] == 1 && b.len() == 5 + le32_val(b[1], b[2], b[3], b[4]) {
        Some(b.skip(5))
    } else {
        None
    }
}

/// The header of the self-describing document format: document tag 0xd1, the
/// field name's length (5) and bytes (`value`), and the string type tag 0x02.
pub open spec fn doc_header() -> Seq<u8> {
    seq![209u8, 5u8, 118u8, 97u8, 108u8, 117u8, 101u8, 2u8]
}

/// The self-describing encoding: the tagged header, a little-endian 32-bit
/// byte length, then the raw value bytes.
pub open spec fn doc_encode_spec(v: Seq<u8>) -> Option<Seq<u8>> {
    if v.len() > 0xffffffff {
        None
    } else {
        Some(doc_header() + le32(v.len() as u32) + v)
    }
}

/// The self-describing decoding: strict, with no trailing bytes allowed.
pub open spec fn doc_decode_spec(b: Seq<u8>) -> Option<Seq<u8>> {
    if b.len() >= 12 && b.subrange(0, 8) == doc_header() && b.len() == 12 + le32_val(
        b[8],
        b[9],
        b[10],
        b[11],
    ) {
        Some(b.skip(12))
    } else {
        None
    }
}

/// Dispatch of the byte-level encoding over the format selector.
pub open spec fn format_encode_spec(fmt: FormatKind, v: Seq<u8>) -> Option<Seq<u8>> {
    match fmt {
        FormatKind::PlainText => Some(plain_encode_spec(v)),
        FormatKind::CompactBinaryMap => compact_encode_spec(v),
        FormatKind::SelfDescribingDocument => doc_encode_spec(v),
    }
}

/// Dispatch of the byte-level decoding over the format selector.
pub open spec fn format_decode_spec(fmt: FormatKind, b: Seq<u8>) -> Option<Seq<u8>> {
    match fmt {
        FormatKind::PlainText => plain_decode_spec(b),
        FormatKind::CompactBinaryMap => compact_decode_spec(b),
        FormatKind::SelfDescribingDocument => doc_decode_spec(b),
    }
}

/// What `encode` produces for a record holding the given characters: the
/// format's encoding of their UTF-8 bytes.
pub open spec fn codec_encode_spec(fmt: FormatKind, value: Seq<char>) -> Option<Seq<u8>> {
    format_encode_spec(fmt, encode_utf8(value))
}

/// What `decode` recovers from the given bytes: the characters whose UTF-8
/// bytes the format's decoding yields, if it yields valid UTF-8.
pub open spec fn codec_decode_spec(fmt: FormatKind, b: Seq<u8>) -> Option<Seq<char>> {
    match format_decode_spec(fmt, b) {
        Some(vb) => if valid_utf8(vb) {
            Some(decode_utf8(vb))
        } else {
            None
        },
        None => None,
    }
}

// ---------------------------------------------------------------------------
// Round-trip and distinctness laws.
// ---------------------------------------------------------------------------
/// Escaping distributes over concatenation.
proof fn lemma_esc_append(a: Seq<u8>, b: Seq<u8>)
    ensures
        esc(a + b) == esc(a) + esc(b),
    decreases a.len(),
{
    if a.len() == 0 {
        assert(a + b =~= b);
        assert(esc(a) + esc(b) =~= esc(b));
    } else {
        assert((a + b).len() != 0);
        assert((a + b)[0] == a[0]);
        assert((a + b).drop_first() =~= a.drop_first() + b);
        lemma_esc_append(a.drop_first(), b);
        assert(esc(a + b) =~= esc_byte(a[0]) + (esc(a.drop_first()) + esc(b)));
        assert(esc_byte(a[0]) + (esc(a.drop_first()) + esc(b)) =~= (esc_byte(a[0]) + esc(
            a.drop_first(),
        )) + esc(b));
    }
}

/// The escaped form of a single byte.
proof fn lemma_esc_singleton(x: u8)
    ensures
        esc(seq![x]) == esc_byte(x),
{
    assert(seq![x].drop_first() =~= Seq::<u8>::empty());
    assert(esc(Seq::<u8>::empty()) =~= Seq::<u8>::empty());
    assert(esc(seq![x]) =~= esc_byte(x) + Seq::<u8>::empty());
    assert(esc_byte(x) + Seq::<u8>::empty() =~= esc_byte(x));
}

/// Parsing an escaped region recovers exactly the bytes that were escaped,
/// and leaves whatever followed the closing quote untouched.
proof fn lemma_parse_quoted_esc(v: Seq<u8>, rest: Seq<u8>)
    ensures
        parse_quoted(esc(v) + seq![34u8] + rest) == Some((v, rest)),
    decreases v.len(),
{
    let s = esc(v) + seq![34u8] + rest;
    if v.len() == 0 {
        assert(esc(v) =~= Seq::<u8>::empty());
        assert(s =~= seq![34u8] + rest);
        assert(s[0] == 34);
        assert(s.drop_first() =~= rest);
        assert(v =~= Seq::<u8>::empty());
    } else {
        lemma_parse_quoted_esc(v.drop_first(), rest);
        let tail = esc(v.drop_first()) + seq![34u8] + rest;
        assert(esc(v) =~= esc_byte(v[0]) + esc(v.drop_first()));
        if v[0] == 34 || v[0] == 92 {
            assert(s[0] == 92);
            assert(s.len() >= 2);
            assert(s[1] == v[0]);
            assert(s.skip(2) =~= tail);
            assert(seq![s[1]] + v.drop_first() =~= v);
        } else {
            assert(s[0] == v[0]);
            assert(s[0] != 34 && s[0] != 92);
            assert(s.drop_first() =~= tail);
            assert(seq![s[0]] + v.drop_first() =~= v);
        }
    }
}

/// The four little-endian bytes of a length read back as the same length.
proof fn lemma_le32_round_trip(n: u32)
    ensures
        le32_val(le32(n)[0], le32(n)[1], le32(n)[2], le32(n)[3]) == n,
{
    assert(((n & 0xff) as u8 as u32) | ((((n >> 8) & 0xff) as u8 as u32) << 8) | ((((n >> 16)
        & 0xff) as u8 as u32) << 16) | ((((n >> 24) & 0xff) as u8 as u32) << 24) == n)
        by (bit_vector);
}

/// Byte-level round trip: for every format, decoding a successful encoding
/// of a byte sequence yields that byte sequence.
pub proof fn lemma_format_round_trip(fmt: FormatKind, v: Seq<u8>)
    requires
        format_encode_spec(fmt, v) is Some,
    ensures
        format_decode_spec(fmt, format_encode_spec(fmt, v)->0) == Some(v),
{
    let b = format_encode_spec(fmt, v)->0;
    match fmt {
        FormatKind::PlainText => {
            assert(b =~= plain_prefix() + esc(v) + seq![34u8, 125u8]);
            assert(b.len() >= 10);
            assert(b.subrange(0, 10) =~= plain_prefix());
            assert(b.skip(10) =~= esc(v) + seq![34u8] + seq![125u8]);
            lemma_parse_quoted_esc(v, seq![125u8]);
        },
        FormatKind::CompactBinaryMap => {
            let n = v.len() as u32;
            assert(b =~= seq![1u8] + le32(n) + v);
            assert(b.len() == 5 + v.len());
            assert(b[0] == 1);
            assert(b[1] == le32(n)[0] && b[2] == le32(n)[1] && b[3] == le32(n)[2] && b[4] == le32(
                n,
            )[3]);
            lemma_le32_round_trip(n);
            assert(b.skip(5) =~= v);
        },
        FormatKind::SelfDescribingDocument => {
            let n = v.len() as u32;
            assert(b =~= doc_header() + le32(n) + v);
            assert(b.len() == 12 + v.len());
            assert(b.subrange(0, 8) =~= doc_header());
            assert(b[8] == le32(n)[0] && b[9] == le32(n)[1] && b[10] == le32(n)[2] && b[11]
                == le32(n)[3]);
            lemma_le32_round_trip(n);
            assert(b.skip(12) =~= v);
        },
    }
}

/// Codec-level round trip: for every format, decoding a successful encoding
/// of a record's characters yields those characters.
pub proof fn lemma_codec_round_trip(fmt: FormatKind, value: Seq<char>)
    requires
        codec_encode_spec(fmt, value) is Some,
    ensures
        codec_decode_spec(fmt, codec_encode_spec(fmt, value)->0) == Some(value),
{
    let vb = encode_utf8(value);
    lemma_format_round_trip(fmt, vb);
    encode_utf8_valid_utf8(value);
    encode_utf8_decode_utf8(value);
}

/// The leading tag byte of each format's encoding.
proof fn lemma_encoding_first_byte(fmt: FormatKind, v: Seq<u8>)
    requires
        format_encode_spec(fmt, v) is Some,
    ensures
        format_encode_spec(fmt, v)->0.len() >= 1,
        fmt is PlainText ==> format_encode_spec(fmt, v)->0[0] == 123,
        fmt is CompactBinaryMap ==> format_encode_spec(fmt, v)->0[0] == 1,
        fmt is SelfDescribingDocument ==> format_encode_spec(fmt, v)->0[0] == 209,
{
    let b = format_encode_spec(fmt, v)->0;
    match fmt {
        FormatKind::PlainText => {
            assert(b[0] == (plain_prefix() + esc(v) + seq![34u8, 125u8])[0]);
            assert(b[0] == plain_prefix()[0]);
        },
        FormatKind::CompactBinaryMap => {
            assert(b[0] == (seq![1u8] + le32(v.len() as u32) + v)[0]);
        },
        FormatKind::SelfDescribingDocument => {
            assert(b[0] == (doc_header() + le32(v.len() as u32) + v)[0]);
            assert(b[0] == doc_header()[0]);
        },
    }
}

/// Cross-format distinctness: two different formats never serialize the same
/// record to the same byte sequence.
pub proof fn lemma_cross_format_distinct(f1: FormatKind, f2: FormatKind, value: Seq<char>)
    requires
        f1 != f2,
        codec_encode_spec(f1, value) is Some,
        codec_encode_spec(f2, value) is Some,
    ensures
        codec_encode_spec(f1, value)->0 != codec_encode_spec(f2, value)->0,
{
    let vb = encode_utf8(value);
    lemma_encoding_first_byte(f1, vb);
    lemma_encoding_first_byte(f2, vb);
    let b1 = codec_encode_spec(f1, value)->0;
    let b2 = codec_encode_spec(f2, value)->0;
    if b1 == b2 {
        assert(b1[0] == b2[0]);
    }
}

// ---------------------------------------------------------------------------
// Executable encoding.
// ---------------------------------------------------------------------------
/// Combines an already-unescaped prefix with the outcome of parsing the rest
/// of an escaped region.
pub open spec fn pq_app(a: Seq<u8>, o: Option<(Seq<u8>, Seq<u8>)>) -> Option<(Seq<u8>, Seq<u8>)> {
    match o {
        Some(p) => Some((a + p.0, p.1)),
        None => None,
    }
}

proof fn lemma_pq_app_push(a: Seq<u8>, x: u8, o: Option<(Seq<u8>, Seq<u8>)>)
    ensures
        pq_app(a, pq_app(seq![x], o)) == pq_app(a.push(x), o),
{
    match o {
        Some(p) => {
            assert(a + (seq![x] + p.0) =~= a.push(x) + p.0);
        },
        None => {},
    }
}

fn push_le32(out: &mut Vec<u8>, n: u32)
    ensures
        final(out)@ == old(out)@ + le32(n),
{
    out.push((n & 0xff) as u8);
    out.push(((n >> 8) & 0xff) as u8);
    out.push(((n >> 16) & 0xff) as u8);
    out.push(((n >> 24) & 0xff) as u8);
    proof {
        assert(out@ =~= old(out)@ + le32(n));
    }
}

fn append_bytes(out: &mut Vec<u8>, v: &Vec<u8>)
    ensures
        final(out)@ == old(out)@ + v@,
{
    let ghost base = out@;
    proof {
        assert(base + v@.take(0) =~= base);
    }
    let mut i: usize = 0;
    while i < v.len()
        invariant
            i <= v.len(),
            out@ == base + v@.take(i as int),
        decreases v.len() - i,
    {
        out.push(v[i]);
        proof {
            assert(v@.take(i as int + 1) =~= v@.take(i as int).push(v@[i as int]));
            assert(out@ =~= base + v@.take(i as int + 1));
        }
        i = i + 1;
    }
    proof {
        assert(v@.take(v.len() as int) =~= v@);
    }
}

fn plain_encode_bytes(v: &Vec<u8>) -> (out: Vec<u8>)
    ensures
        out@ == plain_encode_spec(v@),
{
    let mut out: Vec<u8> = Vec::new();
    out.push(123);
    out.push(34);
    out.push(118);
    out.push(97);
    out.push(108);
    out.push(117);
    out.push(101);
    out.push(34);
    out.push(58);
    out.push(34);
    proof {
        assert(out@ =~= plain_prefix());
        assert(v@.take(0) =~= Seq::<u8>::empty());
        assert(esc(Seq::<u8>::empty()) =~= Seq::<u8>::empty());
        assert(out@ =~= plain_prefix() + esc(v@.take(0)));
    }
    let mut i: usize = 0;
    while i < v.len()
        invariant
            i <= v.len(),
            out@ == plain_prefix() + esc(v@.take(i as int)),
        decreases v.len() - i,
    {
        let c = v[i];
        if c == 34 || c == 92 {
            out.push(92);
            out.push(c);
        } else {
            out.push(c);
        }
        proof {
            assert(v@.take(i as int + 1) =~= v@.take(i as int) + seq![v@[i as int]]);
            lemma_esc_append(v@.take(i as int), seq![v@[i as int]]);
            lemma_esc_singleton(v@[i as int]);
            assert(out@ =~= plain_prefix() + esc(v@.take(i as int + 1)));
        }
        i = i + 1;
    }
    out.push(34);
    out.push(125);
    proof {
        assert(v@.take(v.len() as int) =~= v@);
        assert(out@ =~= plain_encode_spec(v@));
    }
    out
}

fn compact_encode_bytes(v: &Vec<u8>) -> (r: Result<Vec<u8>, CodecError>)
    ensures
        r matches Ok(b) ==> compact_encode_spec(v@) == Some(b@),
        r is Err <==> v@.len() > 0xffffffff,
        r matches Err(e) ==> e is EncodeFailed,
{
    if v.len() as u64 > 0xffffffff_u64 {
        return Err(
            CodecError::EncodeFailed("field too long for a 32-bit length prefix".to_owned()),
        );
    }
    let n = v.len() as u32;
    let mut out: Vec<u8> = Vec::new();
    out.push(1);
    push_le32(&mut out, n);
    append_bytes(&mut out, v);
    proof {
        assert(out@ =~= seq![1u8] + le32(n) + v@);
    }
    Ok(out)
}

fn doc_encode_bytes(v: &Vec<u8>) -> (r: Result<Vec<u8>, CodecError>)
    ensures
        r matches Ok(b) ==> doc_encode_spec(v@) == Some(b@),
        r is Err <==> v@.len() > 0xffffffff,
        r matches Err(e) ==> e is EncodeFailed,
{
    if v.len() as u64 > 0xffffffff_u64 {
        return Err(
            CodecError::EncodeFailed("field too long for a 32-bit length prefix".to_owned()),
        );
    }
    let n = v.len() as u32;
    let mut out: Vec<u8> = Vec::new();
    out.push(209);
    out.push(5);
    out.push(118);
    out.push(97);
    out.push(108);
    out.push(117);
    out.push(101);
    out.push(2);
    proof {
        assert(out@ =~= doc_header());
    }
    push_le32(&mut out, n);
    append_bytes(&mut out, v);
    proof {
        assert(out@ =~= doc_header() + le32(n) + v@);
    }
    Ok(out)
}

// ---------------------------------------------------------------------------
// Executable decoding.
// ---------------------------------------------------------------------------
fn read_le32(b0: u8, b1: u8, b2: u8, b3: u8) -> (n: u32)
    ensures
        n == le32_val(b0, b1, b2, b3),
{
    (b0 as u32) | ((b1 as u32) << 8) | ((b2 as u32) << 16) | ((b3 as u32) << 24)
}

fn plain_decode_bytes(b: &Vec<u8>) -> (r: Result<Vec<u8>, CodecError>)
    ensures
        r matches Ok(v) ==> plain_decode_spec(b@) == Some(v@),
        r is Err ==> plain_decode_spec(b@) is None,
        r matches Err(e) ==> e is DecodeFailed,
{
    if b.len() < 10 {
        return Err(CodecError::DecodeFailed("plain text: input too short".to_owned()));
    }
    let good = b[0] == 123 && b[1] == 34 && b[2] == 118 && b[3] == 97 && b[4] == 108 && b[5] == 117
        && b[6] == 101 && b[7] == 34 && b[8] == 58 && b[9] == 34;
    if !good {
        proof {
            if b@.subrange(0, 10) == plain_prefix() {
                assert(forall|k: int| 0 <= k < 10 ==> b@[k] == #[trigger] plain_prefix()[k]);
            }
        }
        return Err(CodecError::DecodeFailed("plain text: missing field prefix".to_owned()));
    }
    proof {
        assert(b@.subrange(0, 10) =~= plain_prefix());
        assert(pq_app(Seq::<u8>::empty(), parse_quoted(b@.skip(10))) == parse_quoted(b@.skip(10)))
        by {
            match parse_quoted(b@.skip(10)) {
                Some(p) => {
                    assert(Seq::<u8>::empty() + p.0 =~= p.0);
                },
                None => {},
            }
        }
    }
    let mut acc: Vec<u8> = Vec::new();
    let mut i: usize = 10;
    loop
        invariant
            10 <= i <= b.len(),
            b@.subrange(0, 10) == plain_prefix(),
            parse_quoted(b@.skip(10)) == pq_app(acc@, parse_quoted(b@.skip(i as int))),
        decreases b.len() - i,
    {
        if i == b.len() {
            proof {
                assert(b@.skip(i as int) =~= Seq::<u8>::empty());
            }
            return Err(CodecError::DecodeFailed("plain text: unterminated field".to_owned()));
        }
        let c = b[i];
        let ghost s_i = b@.skip(i as int);
        proof {
            assert(s_i.len() == b@.len() - i);
            assert(s_i[0] == b@[i as int]);
        }
        if c == 34 {
            proof {
                assert(s_i.drop_first() =~= b@.skip(i as int + 1));
                assert(parse_quoted(s_i) == Some((Seq::<u8>::empty(), b@.skip(i as int + 1))));
                assert(acc@ + Seq::<u8>::empty() =~= acc@);
                assert(parse_quoted(b@.skip(10)) == Some((acc@, b@.skip(i as int + 1))));
            }
            if b.len() - i == 2 && b[i + 1] == 125 {
                proof {
                    assert(b@.skip(i as int + 1) =~= seq![125u8]);
                }
                return Ok(acc);
            } else {
                proof {
                    if b@.skip(i as int + 1) == seq![125u8] {
                        assert(b@.skip(i as int + 1).len() == 1);
                        assert(b@.skip(i as int + 1)[0] == b@[i as int + 1]);
                        assert(false);
                    }
                }
                return Err(
                    CodecError::DecodeFailed("plain text: trailing bytes after field".to_owned()),
                );
            }
        } else if c == 92 {
            if b.len() - i >= 2 {
                let d = b[i + 1];
                proof {
                    assert(s_i.len() >= 2);
                    assert(s_i[1] == b@[i as int + 1]);
                }
                if d == 34 || d == 92 {
                    proof {
                        assert(s_i.skip(2) =~= b@.skip(i as int + 2));
                        assert(parse_quoted(s_i) == pq_app(
                            seq![d],
                            parse_quoted(b@.skip(i as int + 2)),
                        ));
                        lemma_pq_app_push(acc@, d, parse_quoted(b@.skip(i as int + 2)));
                    }
                    acc.push(d);
                    i = i + 2;
                } else {
                    proof {
                        assert(parse_quoted(s_i) is None);
                    }
                    return Err(CodecError::DecodeFailed("plain text: bad escape".to_owned()));
                }
            } else {
                proof {
                    assert(s_i.len() == 1);
                    assert(parse_quoted(s_i) is None);
                }
                return Err(CodecError::DecodeFailed("plain text: bad escape".to_owned()));
            }
        } else {
            proof {
                assert(s_i.drop_first() =~= b@.skip(i as int + 1));
                assert(parse_quoted(s_i) == pq_app(seq![c], parse_quoted(b@.skip(i as int + 1))));
                lemma_pq_app_push(acc@, c, parse_quoted(b@.skip(i as int + 1)));
            }
            acc.push(c);
            i = i + 1;
        }
    }
}

fn compact_decode_bytes(b: &Vec<u8>) -> (r: Result<Vec<u8>, CodecError>)
    ensures
        r matches Ok(v) ==> compact_decode_spec(b@) == Some(v@),
        r is Err ==> compact_decode_spec(b@) is None,
        r matches Err(e) ==> e is DecodeFailed,
{
    if b.len() < 5 {
        return Err(CodecError::DecodeFailed("compact: input too short".to_owned()));
    }
    if b[0] != 1 {
        return Err(CodecError::DecodeFailed("compact: bad tag".to_owned()));
    }
    let n = read_le32(b[1], b[2], b[3], b[4]);
    if b.len() as u64 != 5_u64 + n as u64 {
        return Err(CodecError::DecodeFailed("compact: length mismatch".to_owned()));
    }
    let mut out: Vec<u8> = Vec::new();
    proof {
        assert(out@ =~= b@.subrange(5, 5));
    }
    let mut i: usize = 5;
    while i < b.len()
        invariant
            5 <= i <= b.len(),
            out@ == b@.subrange(5, i as int),
        decreases b.len() - i,
    {
        out.push(b[i]);
        proof {
            assert(b@.subrange(5, i as int + 1) =~= b@.subrange(5, i as int).push(b@[i as int]));
        }
        i = i + 1;
    }
    proof {
        assert(b@.subrange(5, b.len() as int) =~= b@.skip(5));
    }
    Ok(out)
}

fn doc_decode_bytes(b: &Vec<u8>) -> (r: Result<Vec<u8>, CodecError>)
    ensures
        r matches Ok(v) ==> doc_decode_spec(b@) == Some(v@),
        r is Err ==> doc_decode_spec(b@) is None,
        r matches Err(e) ==> e is DecodeFailed,
{
    if b.len() < 12 {
        return Err(CodecError::DecodeFailed("document: input too short".to_owned()));
    }
    let good = b[0] == 209 && b[1] == 5 && b[2] == 118 && b[3] == 97 && b[4] == 108 && b[5] == 117
        && b[6] == 101 && b[7] == 2;
    if !good {
        proof {
            if b@.subrange(0, 8) == doc_header() {
                assert(forall|k: int| 0 <= k < 8 ==> b@[k] == #[trigger] doc_header()[k]);
            }
        }
        return Err(CodecError::DecodeFailed("document: bad header".to_owned()));
    }
    proof {
        assert(b@.subrange(0, 8) =~= doc_header());
    }
    let n = read_le32(b[8], b[9], b[10], b[11]);
    if b.len() as u64 != 12_u64 + n as u64 {
        return Err(CodecError::DecodeFailed("document: length mismatch".to_owned()));
    }
    let mut out: Vec<u8> = Vec::new();
    proof {
        assert(out@ =~= b@.subrange(12, 12));
    }
    let mut i: usize = 12;
    while i < b.len()
        invariant
            12 <= i <= b.len(),
            out@ == b@.subrange(12, i as int),
        decreases b.len() - i,
    {
        out.push(b[i]);
        proof {
            assert(b@.subrange(12, i as int + 1) =~= b@.subrange(12, i as int).push(b@[i as int]));
        }
        i = i + 1;
    }
    proof {
        assert(b@.subrange(12, b.len() as int) =~= b@.skip(12));
    }
    Ok(out)
}

/// Relies on `String::from_utf8` of std: it returns `Ok` exactly when the
/// bytes are a valid UTF-8 encoding, and the returned string then holds the
/// characters those bytes encode (the formalization of UTF-8 is vstd's, the
/// same one vstd uses for `str::as_bytes`).
#[verifier::external_body]
fn bytes_to_string(v: Vec<u8>) -> (r: Option<String>)
    ensures
        r is Some <==> valid_utf8(v@),
        r matches Some(s) ==> s@ == decode_utf8(v@),
{
    match String::from_utf8(v) {
        Ok(s) => Some(s),
        Err(_) => None,
    }
}

/// Serializes a record according to the chosen format. Fails (with
/// `EncodeFailed`) exactly when the format cannot represent the value: the
/// binary formats reject a field whose byte length overflows their 32-bit
/// length prefix, and the plain-text format always succeeds.
pub fn encode(record: &Record, format: FormatKind) -> (r: Result<Vec<u8>, CodecError>)
    ensures
        r matches Ok(b) ==> codec_encode_spec(format, record@) == Some(b@),
        r is Err <==> codec_encode_spec(format, record@) is None,
        r matches Err(e) ==> e is EncodeFailed,
{
    let bytes = record.value.as_str().as_bytes_vec();
    match format {
        FormatKind::PlainText => Ok(plain_encode_bytes(&bytes)),
        FormatKind::CompactBinaryMap => compact_encode_bytes(&bytes),
        FormatKind::SelfDescribingDocument => doc_encode_bytes(&bytes),
    }
}

/// Deserializes a record from bytes according to the chosen format: the
/// exact inverse of `encode`. Fails (with `DecodeFailed`) exactly when the
/// bytes are not a well-formed encoding of the format, including truncated
/// input, bad tags, trailing bytes, and field bytes that are not valid
/// UTF-8; it never panics, whatever the input.
pub fn decode(bytes: &Vec<u8>, format: FormatKind) -> (r: Result<Record, CodecError>)
    ensures
        r matches Ok(rec) ==> codec_decode_spec(format, bytes@) == Some(rec@),
        r is Ok <==> codec_decode_spec(format, bytes@) is Some,
        r matches Err(e) ==> e is DecodeFailed,
{
    let field = match format {
        FormatKind::PlainText => plain_decode_bytes(bytes),
        FormatKind::CompactBinaryMap => compact_decode_bytes(bytes),
        FormatKind::SelfDescribingDocument => doc_decode_bytes(bytes),
    };
    match field {
        Ok(v) => {
            let ghost vg = v@;
            match bytes_to_string(v) {
                Some(s) => Ok(Record { value: s }),
                None => Err(
                    CodecError::DecodeFailed("text field is not valid utf-8".to_owned()),
                ),
            }
        },
        Err(e) => Err(e),
    }
}

} // verus!

//! The binary-encoding adapter.
//!
//! Binary fields cross the wire as base64 text.  The server always emits the
//! standard padded form; the decoder is lenient and accepts either the
//! standard padded form or the URL-safe unpadded form, trying the first and
//! falling back to the second.  That asymmetry is deliberate: clients differ
//! in which variant they produce, while the server's own output is fixed.

use vstd::prelude::*;

verus! {

/// ASCII code of `'='`, the padding character of the standard form.
pub const PAD: u8 = 61;

/// Character of the standard alphabet for a sextet value in `0..64`.
pub open spec fn b64_char_std(v: int) -> u8 {
    if v < 26 {
        (65 + v) as u8  // 'A'..='Z'
    } else if v < 52 {
        (97 + (v - 26)) as u8  // 'a'..='z'
    } else if v < 62 {
        (48 + (v - 52)) as u8  // '0'..='9'
    } else if v == 62 {
        43  // '+'
    } else {
        47  // '/'
    }
}

/// Character of the URL-safe alphabet for a sextet value in `0..64`.
pub open spec fn b64_char_url(v: int) -> u8 {
    if v == 62 {
        45  // '-'
    } else if v == 63 {
        95  // '_'
    } else {
        b64_char_std(v)
    }
}

/// Alphabet selection: `url` false is the standard alphabet.
pub open spec fn b64_char(v: int, url: bool) -> u8 {
    if url {
        b64_char_url(v)
    } else {
        b64_char_std(v)
    }
}

/// Sextet value of a standard-alphabet character, `-1` when invalid.
pub open spec fn b64_val_std(c: u8) -> int {
    if 65 <= c && c <= 90 {
        c - 65
    } else if 97 <= c && c <= 122 {
        c - 97 + 26
    } else if 48 <= c && c <= 57 {
        c - 48 + 52
    } else if c == 43 {
        62
    } else if c == 47 {
        63
    } else {
        -1
    }
}

/// Sextet value of a URL-safe-alphabet character, `-1` when invalid.
pub open spec fn b64_val_url(c: u8) -> int {
    if 65 <= c && c <= 90 {
        c - 65
    } else if 97 <= c && c <= 122 {
        c - 97 + 26
    } else if 48 <= c && c <= 57 {
        c - 48 + 52
    } else if c == 45 {
        62
    } else if c == 95 {
        63
    } else {
        -1
    }
}

pub open spec fn b64_val(c: u8, url: bool) -> int {
    if url {
        b64_val_url(c)
    } else {
        b64_val_std(c)
    }
}

/// The four characters that encode a full three-byte group.
pub open spec fn encode_group3(b0: u8, b1: u8, b2: u8, url: bool) -> Seq<u8> {
    seq![
        b64_char((b0 >> 2) as int, url),
        b64_char((((b0 & 3) << 4) | (b1 >> 4)) as int, url),
        b64_char((((b1 & 15) << 2) | (b2 >> 6)) as int, url),
        b64_char((b2 & 63) as int, url),
    ]
}

/// Encoding of a final group of one byte: two characters, padded to four
/// in the standard form.
pub open spec fn encode_tail1(b0: u8, url: bool) -> Seq<u8> {
    let chars = seq![b64_char((b0 >> 2) as int, url), b64_char(((b0 & 3) << 4) as int, url)];
    if url {
        chars
    } else {
        chars + seq![PAD, PAD]
    }
}

/// Encoding of a final group of two bytes: three characters, padded to four
/// in the standard form.
pub open spec fn encode_tail2(b0: u8, b1: u8, url: bool) -> Seq<u8> {
    let chars = seq![
        b64_char((b0 >> 2) as int, url),
        b64_char((((b0 & 3) << 4) | (b1 >> 4)) as int, url),
        b64_char(((b1 & 15) << 2) as int, url),
    ];
    if url {
        chars
    } else {
        chars + seq![PAD]
    }
}

/// The base64 text for `s`: standard padded when `url` is false, URL-safe
/// unpadded when `url` is true.
pub open spec fn spec_encode(s: Seq<u8>, url: bool) -> Seq<u8>
    decreases s.len(),
{
    if s.len() == 0 {
        Seq::empty()
    } else if s.len() == 1 {
        encode_tail1(s[0], url)
    } else if s.len() == 2 {
        encode_tail2(s[0], s[1], url)
    } else {
        encode_group3(s[0], s[1], s[2], url) + spec_encode(s.skip(3), url)
    }
}

/// The three bytes held by four sextet values.
pub open spec fn decode_sextets(s0: u8, s1: u8, s2: u8, s3: u8) -> Seq<u8> {
    seq![
        (s0 << 2) | (s1 >> 4),
        ((s1 & 15) << 4) | (s2 >> 2),
        ((s2 & 3) << 6) | s3,
    ]
}

/// Strict decoding of the standard padded form: the text must consist of
/// whole four-character groups, `'='` may appear only as padding of the last
/// group, and the unused low bits of the final sextet must be zero.
pub open spec fn spec_decode_std(s: Seq<u8>) -> Option<Seq<u8>>
    decreases s.len(),
{
    if s.len() == 0 {
        Some(Seq::empty())
    } else if s.len() < 4 {
        None
    } else {
        let v0 = b64_val_std(s[0]);
        let v1 = b64_val_std(s[1]);
        if v0 < 0 || v1 < 0 {
            None
        } else if s[2] == PAD {
            // "xx==": a final group holding one byte.
            if s.len() == 4 && s[3] == PAD && (v1 as u8) & 15 == 0 {
                Some(seq![((v0 as u8) << 2) | ((v1 as u8) >> 4)])
            } else {
                None
            }
        } else {
            let v2 = b64_val_std(s[2]);
            if v2 < 0 {
                None
            } else if s[3] == PAD {
                // "xxx=": a final group holding two bytes.
                if s.len() == 4 && (v2 as u8) & 3 == 0 {
                    Some(
                        seq![
                            ((v0 as u8) << 2) | ((v1 as u8) >> 4),
                            (((v1 as u8) & 15) << 4) | ((v2 as u8) >> 2),
                        ],
                    )
                } else {
                    None
                }
            } else {
                let v3 = b64_val_std(s[3]);
                if v3 < 0 {
                    None
                } else {
                    match spec_decode_std(s.skip(4)) {
                        Some(rest) => Some(
                            decode_sextets(v0 as u8, v1 as u8, v2 as u8, v3 as u8) + rest,
                        ),
                        None => None,
                    }
                }
            }
        }
    }
}

/// Strict decoding of the URL-safe unpadded form: whole four-character
/// groups followed by a final group of two or three characters, never one,
/// with zero unused low bits in the final sextet.
pub open spec fn spec_decode_url(s: Seq<u8>) -> Option<Seq<u8>>
    decreases s.len(),
{
    if s.len() == 0 {
        Some(Seq::empty())
    } else if s.len() == 1 {
        None
    } else if s.len() == 2 {
        let v0 = b64_val_url(s[0]);
        let v1 = b64_val_url(s[1]);
        if v0 >= 0 && v1 >= 0 && (v1 as u8) & 15 == 0 {
            Some(seq![((v0 as u8) << 2) | ((v1 as u8) >> 4)])
        } else {
            None
        }
    } else if s.len() == 3 {
        let v0 = b64_val_url(s[0]);
        let v1 = b64_val_url(s[1]);
        let v2 = b64_val_url(s[2]);
        if v0 >= 0 && v1 >= 0 && v2 >= 0 && (v2 as u8) & 3 == 0 {
            Some(
                seq![
                    ((v0 as u8) << 2) | ((v1 as u8) >> 4),
                    (((v1 as u8) & 15) << 4) | ((v2 as u8) >> 2),
                ],
            )
        } else {
            None
        }
    } else {
        let v0 = b64_val_url(s[0]);
        let v1 = b64_val_url(s[1]);
        let v2 = b64_val_url(s[2]);
        let v3 = b64_val_url(s[3]);
        if v0 >= 0 && v1 >= 0 && v2 >= 0 && v3 >= 0 {
            match spec_decode_url(s.skip(4)) {
                Some(rest) => Some(decode_sextets(v0 as u8, v1 as u8, v2 as u8, v3 as u8) + rest),
                None => None,
            }
        } else {
            None
        }
    }
}

/// What the lenient decoder accepts: the standard form first, the URL-safe
/// form as the fallback.
pub open spec fn spec_decode_adapter(s: Seq<u8>) -> Option<Seq<u8>> {
    if spec_decode_std(s) is Some {
        spec_decode_std(s)
    } else {
        spec_decode_url(s)
    }
}

/// Each alphabet character maps back to the sextet it encodes, and is never
/// the padding character.
proof fn lemma_char_val(v: int, url: bool)
    requires
        0 <= v < 64,
    ensures
        b64_val(b64_char(v, url), url) == v,
        b64_char(v, url) != PAD,
{
}

/// The sextets that `encode_group3` uses lie in `0..64` and reconstruct the
/// original three bytes.
proof fn lemma_group3_roundtrip(b0: u8, b1: u8, b2: u8)
    ensures
        (b0 >> 2) < 64,
        (((b0 & 3) << 4) | (b1 >> 4)) < 64,
        (((b1 & 15) << 2) | (b2 >> 6)) < 64,
        (b2 & 63) < 64,
        decode_sextets(
            b0 >> 2,
            ((b0 & 3) << 4) | (b1 >> 4),
            ((b1 & 15) << 2) | (b2 >> 6),
            b2 & 63,
        ) =~= seq![b0, b1, b2],
{
    assert((b0 >> 2) < 64 && (((b0 & 3) << 4) | (b1 >> 4)) < 64 && (((b1 & 15) << 2) | (b2
        >> 6)) < 64 && (b2 & 63) < 64) by (bit_vector);
    assert(((b0 >> 2) << 2) | ((((b0 & 3) << 4) | (b1 >> 4)) >> 4) == b0) by (bit_vector);
    assert((((((b0 & 3) << 4) | (b1 >> 4)) & 15) << 4) | ((((b1 & 15) << 2) | (b2 >> 6)) >> 2)
        == b1) by (bit_vector);
    assert((((((b1 & 15) << 2) | (b2 >> 6)) & 3) << 6) | (b2 & 63) == b2) by (bit_vector);
}

/// Decoding the standard padded encoding of any byte sequence gives back
/// exactly that sequence.
pub proof fn lemma_decode_encode_std(s: Seq<u8>)
    ensures
        spec_decode_std(spec_encode(s, false)) == Some(s),
    decreases s.len(),
{
    let e = spec_encode(s, false);
    if s.len() == 0 {
        assert(s =~= Seq::<u8>::empty());
    } else if s.len() == 1 {
        let b0 = s[0];
        assert((b0 >> 2) < 64 && ((b0 & 3) << 4) < 64) by (bit_vector);
        lemma_char_val((b0 >> 2) as int, false);
        lemma_char_val(((b0 & 3) << 4) as int, false);
        assert(((b0 & 3) << 4) & 15 == 0) by (bit_vector);
        assert(((b0 >> 2) << 2) | (((b0 & 3) << 4) >> 4) == b0) by (bit_vector);
        assert(spec_decode_std(e) == Some(seq![b0]));
        assert(seq![b0] =~= s);
    } else if s.len() == 2 {
        let b0 = s[0];
        let b1 = s[1];
        let s0 = b0 >> 2;
        let s1 = ((b0 & 3) << 4) | (b1 >> 4);
        let s2 = (b1 & 15) << 2;
        assert((b0 >> 2) < 64 && (((b0 & 3) << 4) | (b1 >> 4)) < 64 && ((b1 & 15) << 2) < 64)
            by (bit_vector);
        lemma_char_val(s0 as int, false);
        lemma_char_val(s1 as int, false);
        lemma_char_val(s2 as int, false);
        assert(((b1 & 15) << 2) & 3 == 0) by (bit_vector);
        assert(((b0 >> 2) << 2) | ((((b0 & 3) << 4) | (b1 >> 4)) >> 4) == b0) by (bit_vector);
        assert((((((b0 & 3) << 4) | (b1 >> 4)) & 15) << 4) | (((b1 & 15) << 2) >> 2) == b1)
            by (bit_vector);
        assert(spec_decode_std(e) == Some(seq![b0, b1]));
        assert(seq![b0, b1] =~= s);
    } else {
        let b0 = s[0];
        let b1 = s[1];
        let b2 = s[2];
        let s0 = b0 >> 2;
        let s1 = ((b0 & 3) << 4) | (b1 >> 4);
        let s2 = ((b1 & 15) << 2) | (b2 >> 6);
        let s3 = b2 & 63;
        lemma_group3_roundtrip(b0, b1, b2);
        lemma_char_val(s0 as int, false);
        lemma_char_val(s1 as int, false);
        lemma_char_val(s2 as int, false);
        lemma_char_val(s3 as int, false);
        let g = encode_group3(b0, b1, b2, false);
        let rest = spec_encode(s.skip(3), false);
        assert(e == g + rest);
        assert(e.len() >= 4);
        assert(e[0] == g[0] && e[1] == g[1] && e[2] == g[2] && e[3] == g[3]);
        assert(e.skip(4) =~= rest);
        lemma_decode_encode_std(s.skip(3));
        assert(spec_decode_std(e) == Some(decode_sextets(s0, s1, s2, s3) + s.skip(3)));
        assert(decode_sextets(s0, s1, s2, s3) + s.skip(3) =~= seq![b0, b1, b2] + s.skip(3));
        assert(seq![b0, b1, b2] + s.skip(3) =~= s);
    }
}

/// Decoding the URL-safe unpadded encoding of any byte sequence gives back
/// exactly that sequence.
pub proof fn lemma_decode_encode_url(s: Seq<u8>)
    ensures
        spec_decode_url(spec_encode(s, true)) == Some(s),
    decreases s.len(),
{
    let e = spec_encode(s, true);
    if s.len() == 0 {
        assert(s =~= Seq::<u8>::empty());
    } else if s.len() == 1 {
        let b0 = s[0];
        assert((b0 >> 2) < 64 && ((b0 & 3) << 4) < 64) by (bit_vector);
        lemma_char_val((b0 >> 2) as int, true);
        lemma_char_val(((b0 & 3) << 4) as int, true);
        assert(((b0 & 3) << 4) & 15 == 0) by (bit_vector);
        assert(((b0 >> 2) << 2) | (((b0 & 3) << 4) >> 4) == b0) by (bit_vector);
        assert(spec_decode_url(e) == Some(seq![b0]));
        assert(seq![b0] =~= s);
    } else if s.len() == 2 {
        let b0 = s[0];
        let b1 = s[1];
        let s0 = b0 >> 2;
        let s1 = ((b0 & 3) << 4) | (b1 >> 4);
        let s2 = (b1 & 15) << 2;
        assert((b0 >> 2) < 64 && (((b0 & 3) << 4) | (b1 >> 4)) < 64 && ((b1 & 15) << 2) < 64)
            by (bit_vector);
        lemma_char_val(s0 as int, true);
        lemma_char_val(s1 as int, true);
        lemma_char_val(s2 as int, true);
        assert(((b1 & 15) << 2) & 3 == 0) by (bit_vector);
        assert(((b0 >> 2) << 2) | ((((b0 & 3) << 4) | (b1 >> 4)) >> 4) == b0) by (bit_vector);
        assert((((((b0 & 3) << 4) | (b1 >> 4)) & 15) << 4) | (((b1 & 15) << 2) >> 2) == b1)
            by (bit_vector);
        assert(spec_decode_url(e) == Some(seq![b0, b1]));
        assert(seq![b0, b1] =~= s);
    } else {
        let b0 = s[0];
        let b1 = s[1];
        let b2 = s[2];
        let s0 = b0 >> 2;
        let s1 = ((b0 & 3) << 4) | (b1 >> 4);
        let s2 = ((b1 & 15) << 2) | (b2 >> 6);
        let s3 = b2 & 63;
        lemma_group3_roundtrip(b0, b1, b2);
        lemma_char_val(s0 as int, true);
        lemma_char_val(s1 as int, true);
        lemma_char_val(s2 as int, true);
        lemma_char_val(s3 as int, true);
        let g = encode_group3(b0, b1, b2, true);
        let rest = spec_encode(s.skip(3), true);
        assert(e == g + rest);
        assert(e.len() >= 4);
        assert(e[0] == g[0] && e[1] == g[1] && e[2] == g[2] && e[3] == g[3]);
        assert(e.skip(4) =~= rest);
        lemma_decode_encode_url(s.skip(3));
        assert(spec_decode_url(e) == Some(decode_sextets(s0, s1, s2, s3) + s.skip(3)));
        assert(decode_sextets(s0, s1, s2, s3) + s.skip(3) =~= seq![b0, b1, b2] + s.skip(3));
        assert(seq![b0, b1, b2] + s.skip(3) =~= s);
    }
}

/// A character accepted by both alphabets has the same sextet value in both.
proof fn lemma_val_agree(c: u8)
    ensures
        b64_val_std(c) >= 0 && b64_val_url(c) >= 0 ==> b64_val_std(c) == b64_val_url(c),
{
}

/// When both strict decoders accept a text, they agree on the bytes.
proof fn lemma_decode_agree(s: Seq<u8>)
    ensures
        spec_decode_std(s) is Some && spec_decode_url(s) is Some ==> spec_decode_std(s)
            == spec_decode_url(s),
    decreases s.len(),
{
    if s.len() >= 4 && spec_decode_std(s) is Some && spec_decode_url(s) is Some {
        assert(b64_val_url(PAD) == -1);
        lemma_val_agree(s[0]);
        lemma_val_agree(s[1]);
        lemma_val_agree(s[2]);
        lemma_val_agree(s[3]);
        lemma_decode_agree(s.skip(4));
    }
}

/// The round trip of the adapter: text produced by the standard padded
/// encoder decodes, through the lenient decoder, to the original bytes.
pub proof fn lemma_adapter_round_trip_std(s: Seq<u8>)
    ensures
        spec_decode_adapter(spec_encode(s, false)) == Some(s),
{
    lemma_decode_encode_std(s);
}

/// The round trip of the adapter's fallback: a URL-safe unpadded encoding of
/// the bytes also decodes, through the lenient decoder, to the same bytes.
pub proof fn lemma_adapter_round_trip_url(s: Seq<u8>)
    ensures
        spec_decode_adapter(spec_encode(s, true)) == Some(s),
{
    lemma_decode_encode_url(s);
    if spec_decode_std(spec_encode(s, true)) is Some {
        lemma_decode_agree(spec_encode(s, true));
    }
}

/// Encoding distributes over a split at a whole-group boundary.
proof fn lemma_encode_append_group(s: Seq<u8>, t: Seq<u8>, url: bool)
    requires
        s.len() % 3 == 0,
    ensures
        spec_encode(s + t, url) == spec_encode(s, url) + spec_encode(t, url),
    decreases s.len(),
{
    if s.len() == 0 {
        assert(s + t =~= t);
        assert(spec_encode(s, url) + spec_encode(t, url) =~= spec_encode(t, url));
    } else {
        let u = s + t;
        assert(u[0] == s[0] && u[1] == s[1] && u[2] == s[2]);
        assert(u.skip(3) =~= s.skip(3) + t);
        lemma_encode_append_group(s.skip(3), t, url);
        assert(spec_encode(u, url) == encode_group3(s[0], s[1], s[2], url) + (spec_encode(
            s.skip(3),
            url,
        ) + spec_encode(t, url)));
        assert(spec_encode(u, url) =~= spec_encode(s, url) + spec_encode(t, url));
    }
}

/// The alphabet character for a sextet value.
fn char_exec(v: u8, url: bool) -> (r: u8)
    requires
        v < 64,
    ensures
        r == b64_char(v as int, url),
{
    if v < 26 {
        65 + v
    } else if v < 52 {
        97 + (v - 26)
    } else if v < 62 {
        48 + (v - 52)
    } else if v == 62 {
        if url {
            45
        } else {
            43
        }
    } else {
        if url {
            95
        } else {
            47
        }
    }
}

/// The sextet value of a character, `-1` when the character is not in the
/// selected alphabet.
fn val_exec(c: u8, url: bool) -> (r: i16)
    ensures
        r as int == b64_val(c as u8, url),
        -1 <= r < 64,
{
    if 65 <= c && c <= 90 {
        (c as i16) - 65
    } else if 97 <= c && c <= 122 {
        (c as i16) - 97 + 26
    } else if 48 <= c && c <= 57 {
        (c as i16) - 48 + 52
    } else if !url && c == 43 {
        62
    } else if !url && c == 47 {
        63
    } else if url && c == 45 {
        62
    } else if url && c == 95 {
        63
    } else {
        -1
    }
}

/// The base64 text of `bytes` in the chosen variant.
fn encode_with(bytes: &[u8], url: bool) -> (r: Vec<u8>)
    ensures
        r@ == spec_encode(bytes@, url),
{
    let mut out: Vec<u8> = Vec::new();
    let mut i: usize = 0;
    while bytes.len() - i >= 3
        invariant
            i % 3 == 0,
            i <= bytes.len(),
            out@ == spec_encode(bytes@.take(i as int), url),
        decreases bytes.len() - i,
    {
        let b0 = bytes[i];
        let b1 = bytes[i + 1];
        let b2 = bytes[i + 2];
        proof {
            assert((b0 >> 2) < 64 && (((b0 & 3) << 4) | (b1 >> 4)) < 64 && (((b1 & 15) << 2) | (b2
                >> 6)) < 64 && (b2 & 63) < 64) by (bit_vector);
        }
        let ghost pre = out@;
        out.push(char_exec(b0 >> 2, url));
        out.push(char_exec(((b0 & 3) << 4) | (b1 >> 4), url));
        out.push(char_exec(((b1 & 15) << 2) | (b2 >> 6), url));
        out.push(char_exec(b2 & 63, url));
        proof {
            let g = seq![b0, b1, b2];
            assert(bytes@.take(i as int + 3) =~= bytes@.take(i as int) + g);
            lemma_encode_append_group(bytes@.take(i as int), g, url);
            assert(g.skip(3) =~= Seq::<u8>::empty());
            assert(spec_encode(Seq::<u8>::empty(), url) =~= Seq::<u8>::empty());
            assert(spec_encode(g, url) =~= encode_group3(b0, b1, b2, url));
            assert(out@ =~= pre + encode_group3(b0, b1, b2, url));
        }
        i += 3;
    }
    let ghost pre = out@;
    if bytes.len() - i == 1 {
        let b0 = bytes[i];
        proof {
            assert((b0 >> 2) < 64 && ((b0 & 3) << 4) < 64) by (bit_vector);
        }
        out.push(char_exec(b0 >> 2, url));
        out.push(char_exec((b0 & 3) << 4, url));
        if !url {
            out.push(PAD);
            out.push(PAD);
        }
        proof {
            let g = seq![b0];
            assert(bytes@ =~= bytes@.take(i as int) + g);
            lemma_encode_append_group(bytes@.take(i as int), g, url);
            assert(spec_encode(g, url) == encode_tail1(b0, url));
            assert(out@ =~= pre + encode_tail1(b0, url));
        }
    } else if bytes.len() - i == 2 {
        let b0 = bytes[i];
        let b1 = bytes[i + 1];
        proof {
            assert((b0 >> 2) < 64 && (((b0 & 3) << 4) | (b1 >> 4)) < 64 && ((b1 & 15) << 2) < 64)
                by (bit_vector);
        }
        out.push(char_exec(b0 >> 2, url));
        out.push(char_exec(((b0 & 3) << 4) | (b1 >> 4), url));
        out.push(char_exec((b1 & 15) << 2, url));
        if !url {
            out.push(PAD);
        }
        proof {
            let g = seq![b0, b1];
            assert(bytes@ =~= bytes@.take(i as int) + g);
            lemma_encode_append_group(bytes@.take(i as int), g, url);
            assert(spec_encode(g, url) == encode_tail2(b0, b1, url));
            assert(out@ =~= pre + encode_tail2(b0, b1, url));
        }
    } else {
        proof {
            assert(bytes@.take(i as int) =~= bytes@);
        }
    }
    out
}

/// Standard padded base64 text for `bytes`: the form the server emits.
pub fn base64_encode(bytes: &[u8]) -> (r: Vec<u8>)
    ensures
        r@ == spec_encode(bytes@, false),
{
    encode_with(bytes, false)
}

/// URL-safe unpadded base64 text for `bytes`.
pub fn base64_encode_url_safe(bytes: &[u8]) -> (r: Vec<u8>)
    ensures
        r@ == spec_encode(bytes@, true),
{
    encode_with(bytes, true)
}

/// Strict decoder for the standard padded form.
pub fn base64_decode_standard(text: &[u8]) -> (r: Option<Vec<u8>>)
    ensures
        match r {
            Some(v) => spec_decode_std(text@) == Some(v@),
            None => spec_decode_std(text@) is None,
        },
{
    let mut out: Vec<u8> = Vec::new();
    let mut i: usize = 0;
    proof {
        assert(text@.skip(0) =~= text@);
    }
    while text.len() - i >= 4
        invariant
            i % 4 == 0,
            i <= text.len(),
            spec_decode_std(text@) == match spec_decode_std(text@.skip(i as int)) {
                Some(rest) => Some(out@ + rest),
                None => None::<Seq<u8>>,
            },
        decreases text.len() - i,
    {
        let ghost tail = text@.skip(i as int);
        proof {
            assert(tail[0] == text@[i as int] && tail[1] == text@[i as int + 1] && tail[2]
                == text@[i as int + 2] && tail[3] == text@[i as int + 3]);
        }
        let c0 = text[i];
        let c1 = text[i + 1];
        let c2 = text[i + 2];
        let c3 = text[i + 3];
        let v0 = val_exec(c0, false);
        let v1 = val_exec(c1, false);
        if v0 < 0 || v1 < 0 {
            return None;
        }
        let ghost pre = out@;
        if c2 == PAD {
            if i + 4 == text.len() && c3 == PAD && (v1 as u8) & 15 == 0 {
                out.push(((v0 as u8) << 2) | ((v1 as u8) >> 4));
                proof {
                    assert(tail.len() == 4);
                    assert(spec_decode_std(tail) == Some(
                        seq![((v0 as u8) << 2) | ((v1 as u8) >> 4)],
                    ));
                    assert(out@ =~= pre + seq![((v0 as u8) << 2) | ((v1 as u8) >> 4)]);
                    assert(text@.skip(i as int + 4) =~= Seq::<u8>::empty());
                    assert(out@ + Seq::<u8>::empty() =~= out@);
                }
                i += 4;
            } else {
                return None;
            }
        } else {
            let v2 = val_exec(c2, false);
            if v2 < 0 {
                return None;
            }
            if c3 == PAD {
                if i + 4 == text.len() && (v2 as u8) & 3 == 0 {
                    out.push(((v0 as u8) << 2) | ((v1 as u8) >> 4));
                    out.push((((v1 as u8) & 15) << 4) | ((v2 as u8) >> 2));
                    proof {
                        assert(tail.len() == 4);
                        assert(spec_decode_std(tail) == Some(
                            seq![
                                ((v0 as u8) << 2) | ((v1 as u8) >> 4),
                                (((v1 as u8) & 15) << 4) | ((v2 as u8) >> 2),
                            ],
                        ));
                        assert(out@ =~= pre + seq![
                            ((v0 as u8) << 2) | ((v1 as u8) >> 4),
                            (((v1 as u8) & 15) << 4) | ((v2 as u8) >> 2),
                        ]);
                        assert(text@.skip(i as int + 4) =~= Seq::<u8>::empty());
                        assert(out@ + Seq::<u8>::empty() =~= out@);
                    }
                    i += 4;
                } else {
                    return None;
                }
            } else {
                let v3 = val_exec(c3, false);
                if v3 < 0 {
                    return None;
                }
                let ghost ds = decode_sextets(v0 as u8, v1 as u8, v2 as u8, v3 as u8);
                out.push(((v0 as u8) << 2) | ((v1 as u8) >> 4));
                out.push((((v1 as u8) & 15) << 4) | ((v2 as u8) >> 2));
                out.push((((v2 as u8) & 3) << 6) | (v3 as u8));
                proof {
                    assert(out@ =~= pre + ds);
                    assert(tail.skip(4) =~= text@.skip(i as int + 4));
                    assert(spec_decode_std(tail) == match spec_decode_std(text@.skip(i as int + 4)) {
                        Some(rest) => Some(ds + rest),
                        None => None::<Seq<u8>>,
                    });
                    if spec_decode_std(text@.skip(i as int + 4)) is Some {
                        let rest = spec_decode_std(text@.skip(i as int + 4)).unwrap();
                        assert(pre + (ds + rest) =~= (pre + ds) + rest);
                    }
                }
                i += 4;
            }
        }
    }
    if i == text.len() {
        proof {
            assert(text@.skip(i as int) =~= Seq::<u8>::empty());
            assert(out@ + Seq::<u8>::empty() =~= out@);
        }
        Some(out)
    } else {
        None
    }
}

/// Strict decoder for the URL-safe unpadded form.
pub fn base64_decode_url_safe(text: &[u8]) -> (r: Option<Vec<u8>>)
    ensures
        match r {
            Some(v) => spec_decode_url(text@) == Some(v@),
            None => spec_decode_url(text@) is None,
        },
{
    let mut out: Vec<u8> = Vec::new();
    let mut i: usize = 0;
    proof {
        assert(text@.skip(0) =~= text@);
    }
    while text.len() - i >= 4
        invariant
            i % 4 == 0,
            i <= text.len(),
            spec_decode_url(text@) == match spec_decode_url(text@.skip(i as int)) {
                Some(rest) => Some(out@ + rest),
                None => None::<Seq<u8>>,
            },
        decreases text.len() - i,
    {
        let ghost tail = text@.skip(i as int);
        proof {
            assert(tail[0] == text@[i as int] && tail[1] == text@[i as int + 1] && tail[2]
                == text@[i as int + 2] && tail[3] == text@[i as int + 3]);
        }
        let c0 = text[i];
        let c1 = text[i + 1];
        let c2 = text[i + 2];
        let c3 = text[i + 3];
        let v0 = val_exec(c0, true);
        let v1 = val_exec(c1, true);
        let v2 = val_exec(c2, true);
        let v3 = val_exec(c3, true);
        if v0 < 0 || v1 < 0 || v2 < 0 || v3 < 0 {
            return None;
        }
        let ghost pre = out@;
        let ghost ds = decode_sextets(v0 as u8, v1 as u8, v2 as u8, v3 as u8);
        out.push(((v0 as u8) << 2) | ((v1 as u8) >> 4));
        out.push((((v1 as u8) & 15) << 4) | ((v2 as u8) >> 2));
        out.push((((v2 as u8) & 3) << 6) | (v3 as u8));
        proof {
            assert(out@ =~= pre + ds);
            assert(tail.skip(4) =~= text@.skip(i as int + 4));
            assert(spec_decode_url(tail) == match spec_decode_url(text@.skip(i as int + 4)) {
                Some(rest) => Some(ds + rest),
                None => None::<Seq<u8>>,
            });
            if spec_decode_url(text@.skip(i as int + 4)) is Some {
                let rest = spec_decode_url(text@.skip(i as int + 4)).unwrap();
                assert(pre + (ds + rest) =~= (pre + ds) + rest);
            }
        }
        i += 4;
    }
    let ghost tail = text@.skip(i as int);
    let ghost pre = out@;
    if i == text.len() {
        proof {
            assert(tail =~= Seq::<u8>::empty());
            assert(out@ + Seq::<u8>::empty() =~= out@);
        }
        Some(out)
    } else if i + 2 == text.len() {
        proof {
            assert(tail[0] == text@[i as int] && tail[1] == text@[i as int + 1]);
        }
        let c0 = text[i];
        let c1 = text[i + 1];
        let v0 = val_exec(c0, true);
        let v1 = val_exec(c1, true);
        if v0 >= 0 && v1 >= 0 && (v1 as u8) & 15 == 0 {
            out.push(((v0 as u8) << 2) | ((v1 as u8) >> 4));
            proof {
                assert(spec_decode_url(tail) == Some(seq![((v0 as u8) << 2) | ((v1 as u8) >> 4)]));
                assert(out@ =~= pre + seq![((v0 as u8) << 2) | ((v1 as u8) >> 4)]);
            }
            Some(out)
        } else {
            None
        }
    } else if i + 3 == text.len() {
        proof {
            assert(tail[0] == text@[i as int] && tail[1] == text@[i as int + 1] && tail[2]
                == text@[i as int + 2]);
        }
        let c0 = text[i];
        let c1 = text[i + 1];
        let c2 = text[i + 2];
        let v0 = val_exec(c0, true);
        let v1 = val_exec(c1, true);
        let v2 = val_exec(c2, true);
        if v0 >= 0 && v1 >= 0 && v2 >= 0 && (v2 as u8) & 3 == 0 {
            out.push(((v0 as u8) << 2) | ((v1 as u8) >> 4));
            out.push((((v1 as u8) & 15) << 4) | ((v2 as u8) >> 2));
            proof {
                assert(spec_decode_url(tail) == Some(
                    seq![
                        ((v0 as u8) << 2) | ((v1 as u8) >> 4),
                        (((v1 as u8) & 15) << 4) | ((v2 as u8) >> 2),
                    ],
                ));
                assert(out@ =~= pre + seq![
                    ((v0 as u8) << 2) | ((v1 as u8) >> 4),
                    (((v1 as u8) & 15) << 4) | ((v2 as u8) >> 2),
                ]);
            }
            Some(out)
        } else {
            None
        }
    } else {
        None
    }
}

/// The lenient decoder: standard padded base64 first, URL-safe unpadded as
/// the fallback.
pub fn base64_decode(text: &[u8]) -> (r: Option<Vec<u8>>)
    ensures
        match r {
            Some(v) => spec_decode_adapter(text@) == Some(v@),
            None => spec_decode_adapter(text@) is None,
        },
{
    match base64_decode_standard(text) {
        Some(v) => Some(v),
        None => base64_decode_url_safe(text),
    }
}

} // verus!

use vstd::prelude::*;
use vstd::string::StringSliceAdditionalSpecFns;
use vstd::utf8::{decode_utf8, encode_utf8, valid_utf8};

use base64::prelude::{Engine, BASE64_STANDARD_NO_PAD};

use crate::error::{Error, Result};

verus! {

#[verifier::external_type_specification]
#[verifier::external_body]
pub struct ExDecodeError(base64::DecodeError);

#[verifier::external_type_specification]
#[verifier::external_body]
pub struct ExFromUtf8Error(std::string::FromUtf8Error);

/// The symbol of the standard base64 alphabet (RFC 4648) for a six-bit
/// value: `A`-`Z`, `a`-`z`, `0`-`9`, `+`, `/`.
pub open spec fn b64_symbol(v: int) -> char {
    if v < 26 {
        (65 + v) as char
    } else if v < 52 {
        (71 + v) as char
    } else if v < 62 {
        (v - 4) as char
    } else if v == 62 {
        '+'
    } else {
        '/'
    }
}

/// The text that the standard base64 alphabet without padding encodes
/// `bytes` as: each group of three bytes becomes four symbols of six bits
/// each; a last group of one byte becomes two symbols, of two bytes three,
/// the unused low bits being zero.
pub open spec fn b64_nopad_encoded(bytes: Seq<u8>) -> Seq<char>
    decreases bytes.len(),
{
    let b0 = bytes[0] as int;
    let b1 = bytes[1] as int;
    let b2 = bytes[2] as int;
    if bytes.len() == 0 {
        Seq::empty()
    } else if bytes.len() == 1 {
        seq![b64_symbol(b0 / 4), b64_symbol((b0 % 4) * 16)]
    } else if bytes.len() == 2 {
        seq![b64_symbol(b0 / 4), b64_symbol((b0 % 4) * 16 + b1 / 16), b64_symbol((b1 % 16) * 4)]
    } else {
        seq![
            b64_symbol(b0 / 4),
            b64_symbol((b0 % 4) * 16 + b1 / 16),
            b64_symbol((b1 % 16) * 4 + b2 / 64),
            b64_symbol(b2 % 64),
        ] + b64_nopad_encoded(bytes.skip(3))
    }
}

/// The bytes that the standard base64 alphabet without padding decodes
/// `text` (given as its UTF-8 bytes) to: the bytes whose encoding it is;
/// `None` where it is the encoding of no bytes (a symbol outside the
/// alphabet, padding, a length of the form `4k + 1`, or unused low bits
/// that are not zero).
pub open spec fn b64_nopad_decoded(text: Seq<u8>) -> Option<Seq<u8>> {
    if exists|b: Seq<u8>| encode_utf8(#[trigger] b64_nopad_encoded(b)) == text {
        Some(choose|b: Seq<u8>| encode_utf8(#[trigger] b64_nopad_encoded(b)) == text)
    } else {
        None
    }
}

/// The number of symbols that encode `n` bytes.
pub open spec fn b64_encoded_len(n: nat) -> nat {
    (n / 3) * 4 + (if n % 3 == 0 {
        0nat
    } else if n % 3 == 1 {
        2nat
    } else {
        3nat
    })
}

proof fn lemma_encoded_len(bytes: Seq<u8>)
    ensures
        b64_nopad_encoded(bytes).len() == b64_encoded_len(bytes.len()),
    decreases bytes.len(),
{
    if bytes.len() >= 3 {
        lemma_encoded_len(bytes.skip(3));
    }
}

proof fn lemma_symbol_injective(v: int, w: int)
    requires
        0 <= v < 64,
        0 <= w < 64,
        b64_symbol(v) == b64_symbol(w),
    ensures
        v == w,
{
    assert((b64_symbol(v) as int) == (b64_symbol(w) as int));
}

proof fn lemma_group_injective(a0: u8, a1: u8, a2: u8, c0: u8, c1: u8, c2: u8)
    requires
        a0 / 4 == c0 / 4,
        (a0 % 4) * 16 + a1 / 16 == (c0 % 4) * 16 + c1 / 16,
        (a1 % 16) * 4 + a2 / 64 == (c1 % 16) * 4 + c2 / 64,
        a2 % 64 == c2 % 64,
    ensures
        a0 == c0,
        a1 == c1,
        a2 == c2,
{
    assert(a0 % 4 == c0 % 4 && a1 / 16 == c1 / 16) by (nonlinear_arith)
        requires
            (a0 % 4) * 16 + a1 / 16 == (c0 % 4) * 16 + c1 / 16,
            0 <= a0 % 4 < 4,
            0 <= c0 % 4 < 4,
            0 <= a1 / 16 < 16,
            0 <= c1 / 16 < 16,
    ;
    assert(a1 % 16 == c1 % 16 && a2 / 64 == c2 / 64) by (nonlinear_arith)
        requires
            (a1 % 16) * 4 + a2 / 64 == (c1 % 16) * 4 + c2 / 64,
            0 <= a1 % 16 < 16,
            0 <= c1 % 16 < 16,
            0 <= a2 / 64 < 4,
            0 <= c2 / 64 < 4,
    ;
}

/// Different bytes have different encodings.
proof fn lemma_encoded_injective(a: Seq<u8>, c: Seq<u8>)
    requires
        b64_nopad_encoded(a) == b64_nopad_encoded(c),
    ensures
        a == c,
    decreases a.len(),
{
    lemma_encoded_len(a);
    lemma_encoded_len(c);
    let ea = b64_nopad_encoded(a);
    let ec = b64_nopad_encoded(c);
    assert(a.len() == c.len()) by (nonlinear_arith)
        requires
            b64_encoded_len(a.len()) == b64_encoded_len(c.len()),
    {
    }
    if a.len() == 0 {
        assert(a =~= c);
    } else if a.len() == 1 {
        assert(ea[0] == ec[0] && ea[1] == ec[1]);
        lemma_symbol_injective(a[0] as int / 4, c[0] as int / 4);
        lemma_symbol_injective((a[0] as int % 4) * 16, (c[0] as int % 4) * 16);
        lemma_group_injective(a[0], 0, 0, c[0], 0, 0);
        assert(a =~= c);
    } else if a.len() == 2 {
        assert(ea[0] == ec[0] && ea[1] == ec[1] && ea[2] == ec[2]);
        lemma_symbol_injective(a[0] as int / 4, c[0] as int / 4);
        lemma_symbol_injective(
            (a[0] as int % 4) * 16 + a[1] as int / 16,
            (c[0] as int % 4) * 16 + c[1] as int / 16,
        );
        lemma_symbol_injective((a[1] as int % 16) * 4, (c[1] as int % 16) * 4);
        lemma_group_injective(a[0], a[1], 0, c[0], c[1], 0);
        assert(a =~= c);
    } else {
        assert(ea[0] == ec[0] && ea[1] == ec[1] && ea[2] == ec[2] && ea[3] == ec[3]);
        lemma_symbol_injective(a[0] as int / 4, c[0] as int / 4);
        lemma_symbol_injective(
            (a[0] as int % 4) * 16 + a[1] as int / 16,
            (c[0] as int % 4) * 16 + c[1] as int / 16,
        );
        lemma_symbol_injective(
            (a[1] as int % 16) * 4 + a[2] as int / 64,
            (c[1] as int % 16) * 4 + c[2] as int / 64,
        );
        lemma_symbol_injective(a[2] as int % 64, c[2] as int % 64);
        lemma_group_injective(a[0], a[1], a[2], c[0], c[1], c[2]);
        assert(ea.skip(4) =~= b64_nopad_encoded(a.skip(3)));
        assert(ec.skip(4) =~= b64_nopad_encoded(c.skip(3)));
        lemma_encoded_injective(a.skip(3), c.skip(3));
        assert(a =~= a.take(3) + a.skip(3));
        assert(c =~= c.take(3) + c.skip(3));
        assert(a.take(3) =~= c.take(3));
    }
}

/// Decoding the encoding of some bytes gives them back.
pub proof fn lemma_decode_encoded(bytes: Seq<u8>)
    ensures
        b64_nopad_decoded(encode_utf8(b64_nopad_encoded(bytes))) == Some(bytes),
{
    let text = encode_utf8(b64_nopad_encoded(bytes));
    assert(encode_utf8(b64_nopad_encoded(bytes)) == text);
    let b = choose|b: Seq<u8>| encode_utf8(#[trigger] b64_nopad_encoded(b)) == text;
    vstd::utf8::encode_utf8_decode_utf8(b64_nopad_encoded(b));
    vstd::utf8::encode_utf8_decode_utf8(b64_nopad_encoded(bytes));
    lemma_encoded_injective(b, bytes);
}

/// The length of the encoding of `n` bytes fits in a `usize`; the encoder
/// panics otherwise.
pub open spec fn b64_encoded_len_fits(n: nat) -> bool {
    (n / 3) * 4 + (if n % 3 == 0 {
        0int
    } else if n % 3 == 1 {
        2int
    } else {
        3int
    }) <= usize::MAX
}

/// Encode the UTF-8 bytes of `input` with `base64::prelude::BASE64_STANDARD_NO_PAD`
/// (`Engine::encode`).
///
/// Claimed: the result is the encoding that `b64_nopad_encoded` spells
/// out (RFC 4648, standard alphabet, no padding).
#[verifier::external_body]
fn base64_encode(input: &str) -> (r: String)
    requires
        b64_encoded_len_fits(input.spec_bytes().len()),
    ensures
        r@ == b64_nopad_encoded(input.spec_bytes()),
{
    BASE64_STANDARD_NO_PAD.encode(input)
}

/// Decode the UTF-8 bytes of `input` with `base64::prelude::BASE64_STANDARD_NO_PAD`
/// (`Engine::decode`).
///
/// Claimed: it succeeds exactly where the input is the encoding of some
/// bytes (`b64_nopad_decoded`), and returns them. Which error it reports
/// is not stated.
#[verifier::external_body]
fn base64_decode(input: &str) -> (r: core::result::Result<Vec<u8>, base64::DecodeError>)
    ensures
        match r {
            Ok(v) => b64_nopad_decoded(input.spec_bytes()) == Some(v@),
            Err(_) => b64_nopad_decoded(input.spec_bytes()) is None,
        },
{
    BASE64_STANDARD_NO_PAD.decode(input)
}

/// `std::string::String::from_utf8`.
///
/// Claimed, as std documents it: it succeeds exactly on valid UTF-8 and
/// then holds the characters that the bytes encode.
#[verifier::external_body]
fn string_from_utf8(bytes: Vec<u8>) -> (r: core::result::Result<String, std::string::FromUtf8Error>)
    ensures
        match r {
            Ok(s) => valid_utf8(bytes@) && s@ == decode_utf8(bytes@),
            Err(_) => !valid_utf8(bytes@),
        },
{
    String::from_utf8(bytes)
}

/// A WebRTC session description, carried base64-encoded.
#[derive(Debug)]
pub struct WebRTCSessionDescriptor {
    pub payload: String,
}

/// What decoding a payload gives: the text of the session description, or
/// `None` where the payload is not base64 or does not decode to UTF-8.
pub open spec fn decoded_payload(payload: Seq<char>) -> Option<Seq<char>> {
    match b64_nopad_decoded(encode_utf8(payload)) {
        Some(bytes) => if valid_utf8(bytes) {
            Some(decode_utf8(bytes))
        } else {
            None
        },
        None => None,
    }
}

impl WebRTCSessionDescriptor {
    /// Create a new session descriptor with the raw SDP string; the payload
    /// is base64 encoded, and decoding it gives the raw string back.
    pub fn new(desc_raw: &str) -> (r: Self)
        requires
            b64_encoded_len_fits(desc_raw.spec_bytes().len()),
        ensures
            r.payload@ == b64_nopad_encoded(encode_utf8(desc_raw@)),
            b64_nopad_decoded(encode_utf8(r.payload@)) == Some(encode_utf8(desc_raw@)),
            decoded_payload(r.payload@) == Some(desc_raw@),
    {
        let r = WebRTCSessionDescriptor { payload: base64_encode(desc_raw) };
        proof {
            lemma_decode_encoded(encode_utf8(desc_raw@));
            law_descriptor_round_trip(desc_raw@, r.payload@);
        }
        r
    }

    /// Create a new descriptor with the given encoded payload.
    pub fn new_encode(payload: String) -> (r: Self)
        ensures
            r.payload@ == payload@,
    {
        WebRTCSessionDescriptor { payload }
    }

    /// Return the decoded session descriptor payload.
    pub fn decode(&self) -> (r: Result<String>)
        ensures
            match decoded_payload(self.payload@) {
                Some(text) => r matches Ok(s) && s@ == text,
                None => r matches Err(Error::BadRTCDescriptor(_)),
            },
            r matches Err(Error::BadRTCDescriptor(m)) ==> {
                ||| b64_nopad_decoded(encode_utf8(self.payload@)) is None && m@.len() >= 33 && m@.take(33)
                    == "failed to decode base64 payload: "@
                ||| b64_nopad_decoded(encode_utf8(self.payload@)) is Some && m@.len() >= 51 && m@.take(51)
                    == "failed to decode utf8 string from decoded payload: "@
            },
    {
        let payload = match base64_decode(self.payload.as_str()) {
            Ok(s) => s,
            Err(err) => {
                let mut m = "failed to decode base64 payload: ".to_owned();
                let detail = err.to_string();
                m.append(detail.as_str());
                proof {
                    reveal_strlit("failed to decode base64 payload: ");
                    assert(m@.take(33) =~= "failed to decode base64 payload: "@);
                }
                return Err(Error::BadRTCDescriptor(m));
            },
        };
        match string_from_utf8(payload) {
            Ok(s) => Ok(s),
            Err(err) => {
                let mut m = "failed to decode utf8 string from decoded payload: ".to_owned();
                let detail = err.to_string();
                m.append(detail.as_str());
                proof {
                    reveal_strlit("failed to decode utf8 string from decoded payload: ");
                    assert(m@.take(51) =~= "failed to decode utf8 string from decoded payload: "@);
                }
                Err(Error::BadRTCDescriptor(m))
            },
        }
    }
}

/// Decoding a descriptor made from a session description gives the
/// description back.
pub proof fn law_descriptor_round_trip(raw: Seq<char>, payload: Seq<char>)
    requires
        b64_nopad_decoded(encode_utf8(payload)) == Some(encode_utf8(raw)),
    ensures
        decoded_payload(payload) == Some(raw),
{
    vstd::utf8::encode_utf8_valid_utf8(raw);
    vstd::utf8::encode_utf8_decode_utf8(raw);
}

} // verus!

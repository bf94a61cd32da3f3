//! The transport encoding of raw messages: base64 in the URL-safe alphabet,
//! without padding.

use vstd::prelude::*;
use vstd::string::StrSliceExecFns;
use vstd::utf8::encode_utf8;
use base64::Engine;

verus! {

/// An outside type: why a base64 text could not be decoded.
#[verifier::external_type_specification]
#[verifier::external_body]
pub struct ExDecodeError(base64::DecodeError);

/// A raw message could not be decoded.
#[derive(Debug, Clone, Copy, PartialEq, Eq, Structural)]
pub enum TransportError {
    /// The text is no base64 text, even in the standard alphabet and padded.
    Malformed,
}

/// The byte `b`, with the two URL-safe symbols replaced by the standard ones.
pub open spec fn standard_symbol(b: u8) -> u8 {
    if b == 0x2d {
        0x2b
    } else if b == 0x5f {
        0x2f
    } else {
        b
    }
}

/// `text` in the standard alphabet: `-` becomes `+` and `_` becomes `/`.
pub open spec fn in_standard_alphabet(text: Seq<u8>) -> Seq<u8> {
    text.map_values(|b: u8| standard_symbol(b))
}

/// How many `=` bring a text of `len` bytes to a multiple of four.
pub open spec fn padding_needed(len: nat) -> nat {
    ((4 - len % 4) % 4) as nat
}

/// `text`, followed by as many `=` as bring its length to a multiple of four.
pub open spec fn padded(text: Seq<u8>) -> Seq<u8> {
    text + Seq::new(padding_needed(text.len()), |i: int| 0x3du8)
}

/// What the standard base64 decoder makes of `text`: the decoded bytes, or
/// nothing where it refuses the text.
pub uninterp spec fn base64_standard_decoding(text: Seq<u8>) -> Option<Seq<u8>>;

/// What `decode_base64url` makes of the bytes `text`.
pub open spec fn base64url_decoding(text: Seq<u8>) -> Option<Seq<u8>> {
    base64_standard_decoding(padded(in_standard_alphabet(text)))
}

/// Decodes `text` with `base64::engine::general_purpose::STANDARD.decode`:
/// standard alphabet, padding required. The result is the decoder's, for the
/// bytes given; an error where it refuses them.
#[verifier::external_body]
fn base64_standard_decode(text: &Vec<u8>) -> (r: Result<Vec<u8>, base64::DecodeError>)
    ensures
        match r {
            Ok(bytes) => base64_standard_decoding(text@) == Some(bytes@),
            Err(_) => base64_standard_decoding(text@).is_none(),
        },
{
    base64::engine::general_purpose::STANDARD.decode(text)
}

/// Replaces the URL-safe symbols of `text` by the standard ones and pads it with `=` to a
/// multiple of four bytes.
pub fn to_padded_standard(text: &Vec<u8>) -> (out: Vec<u8>)
    ensures
        out@ == padded(in_standard_alphabet(text@)),
{
    let mut out: Vec<u8> = Vec::new();
    let mut i: usize = 0;
    while i < text.len()
        invariant
            i <= text.len(),
            out@ == in_standard_alphabet(text@).take(i as int),
        decreases text.len() - i,
    {
        let b: u8 = text[i];
        if b == 0x2d {
            out.push(0x2b);
        } else if b == 0x5f {
            out.push(0x2f);
        } else {
            out.push(b);
        }
        i += 1;
    }
    proof {
        assert(in_standard_alphabet(text@).take(text.len() as int) == in_standard_alphabet(text@));
    }
    let ghost body = out@;
    let mut pads: usize = 0;
    while out.len() % 4 != 0
        invariant
            pads < 4,
            body.len() == text.len(),
            out@ == body + Seq::new(pads as nat, |i: int| 0x3du8),
            pads <= padding_needed(body.len()),
        decreases 4 - pads,
    {
        out.push(0x3d);
        pads += 1;
    }
    out
}

/// Decodes a raw message from URL-safe, unpadded base64.
///
/// The text is put in the standard alphabet, padded with `=` to a
/// multiple of four bytes and handed to the standard decoder.
pub fn decode_base64url(s: &str) -> (r: Result<Vec<u8>, TransportError>)
    ensures
        match r {
            Ok(bytes) => base64url_decoding(encode_utf8(s@)) == Some(bytes@),
            Err(e) => e == TransportError::Malformed && base64url_decoding(encode_utf8(s@)).is_none(),
        },
{
    let given: Vec<u8> = s.as_bytes_vec();
    let text: Vec<u8> = to_padded_standard(&given);
    match base64_standard_decode(&text) {
        Ok(bytes) => Ok(bytes),
        Err(_) => Err(TransportError::Malformed),
    }
}

} // verus!

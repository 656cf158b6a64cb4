//! Encodings that outside crates compute: base64, form encoding, UTF-8 and
//! the three compressed streams.
//!
//! Each result that depends on the input alone has a name; the contracts of
//! the handlers speak of those names and claim nothing more of the encodings.

use vstd::prelude::*;
use vstd::utf8::*;
use crate::text::pairs_view;

verus! {

/// The outside type `base64::DecodeError`, carried through as an opaque value.
#[verifier::external_type_specification]
#[verifier::external_body]
pub struct ExBase64DecodeError(base64::DecodeError);

/// The outside type `serde::de::value::Error`, carried through as an opaque value.
#[verifier::external_type_specification]
#[verifier::external_body]
pub struct ExFormError(serde::de::value::Error);

/// The outside type `std::string::FromUtf8Error`, carried through as an opaque value.
#[verifier::external_type_specification]
#[verifier::external_body]
pub struct ExFromUtf8Error(std::string::FromUtf8Error);

/// The outside type `std::io::Error`, carried through as an opaque value.
#[verifier::external_type_specification]
#[verifier::external_body]
pub struct ExIoError(std::io::Error);

/// The bytes that the standard base64 alphabet, with padding, decodes `text`
/// to; `None` where `text` is not such an encoding.
pub uninterp spec fn base64_decoded(text: Seq<char>) -> Option<Seq<u8>>;

/// The pairs that `bytes` hold when read as `application/x-www-form-urlencoded`;
/// `None` where they cannot be read.
pub uninterp spec fn form_pairs(bytes: Seq<u8>) -> Option<Seq<(Seq<char>, Seq<char>)>>;

/// The raw DEFLATE stream that the `deflate` crate writes for `data` at its
/// default level.
pub uninterp spec fn deflate_stream(data: Seq<u8>) -> Seq<u8>;

/// The Brotli stream that the `brotli` crate writes for `data` with its
/// default parameters, and `None` where it fails on such data.
pub uninterp spec fn brotli_stream(data: Seq<u8>) -> Option<Seq<u8>>;

/// `Engine::decode` of `base64::engine::general_purpose::STANDARD`: the
/// decoded bytes or an error, as the text alone decides.
#[verifier::external_body]
pub(crate) fn base64_decode(text: &str) -> (r: Result<Vec<u8>, base64::DecodeError>)
    ensures
        r is Ok <==> base64_decoded(text@) is Some,
        r matches Ok(bytes) ==> base64_decoded(text@) == Some(bytes@),
{
    base64::Engine::decode(&base64::engine::general_purpose::STANDARD, text)
}

/// `serde_urlencoded::from_bytes` into a list of pairs of strings: the pairs
/// or an error, as the bytes alone decide.
#[verifier::external_body]
pub(crate) fn form_decode(bytes: &[u8]) -> (r: Result<
    Vec<(String, String)>,
    serde::de::value::Error,
>)
    ensures
        r is Ok <==> form_pairs(bytes@) is Some,
        r matches Ok(pairs) ==> form_pairs(bytes@) == Some(pairs_view(pairs@)),
{
    serde_urlencoded::from_bytes::<Vec<(String, String)>>(bytes)
}

/// `String::from_utf8`: the text that the bytes encode, exactly where they
/// are valid UTF-8.
#[verifier::external_body]
pub(crate) fn utf8_decode(bytes: Vec<u8>) -> (r: Result<String, std::string::FromUtf8Error>)
    ensures
        r is Ok <==> valid_utf8(bytes@),
        r matches Ok(s) ==> s@ == decode_utf8(bytes@),
{
    String::from_utf8(bytes)
}

/// `deflate::deflate_bytes`: the stream depends on the data alone.
#[verifier::external_body]
pub(crate) fn deflate_encode(data: &[u8]) -> (r: Vec<u8>)
    ensures
        r@ == deflate_stream(data@),
{
    deflate::deflate_bytes(data)
}

/// Whether `stream` is a gzip member around `payload`: ten bytes of header
/// that begin with the two magic bytes and the byte that says DEFLATE, then
/// the payload, then eight bytes of trailer.
pub open spec fn is_gzip_of(stream: Seq<u8>, payload: Seq<u8>) -> bool {
    &&& stream.len() == payload.len() + 18
    &&& stream[0] == 0x1f
    &&& stream[1] == 0x8b
    &&& stream[2] == 8
    &&& stream.subrange(10, stream.len() - 8) == payload
}

/// `deflate::deflate_bytes_gzip`: a gzip member around the DEFLATE stream
/// of the data. Its header names the system that the program was built for,
/// so the member is not a function of the data alone; what is stated is the
/// framing, and the payload between header and trailer.
#[verifier::external_body]
pub(crate) fn gzip_encode(data: &[u8]) -> (r: Vec<u8>)
    ensures
        is_gzip_of(r@, deflate_stream(data@)),
{
    deflate::deflate_bytes_gzip(data)
}

/// `brotli::BrotliCompress` from a slice into a vector, with
/// `BrotliEncoderParams::default()`: whether it succeeds, and the stream
/// that it writes, depend on the data alone.
#[verifier::external_body]
pub(crate) fn brotli_encode(data: &[u8]) -> (r: Result<Vec<u8>, std::io::Error>)
    ensures
        r is Ok <==> brotli_stream(data@) is Some,
        r matches Ok(stream) ==> brotli_stream(data@) == Some(stream@),
{
    let mut input = data;
    let mut output: Vec<u8> = Vec::new();
    let params = brotli::enc::BrotliEncoderParams::default();
    brotli::BrotliCompress(&mut input, &mut output, &params)?;
    Ok(output)
}

} // verus!

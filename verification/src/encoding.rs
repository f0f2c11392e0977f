//! Decoding of command output: UTF-8 when it is valid, otherwise GBK (the
//! code page of Chinese Windows consoles), otherwise UTF-8 with
//! replacement characters.
use vstd::prelude::*;
use vstd::utf8::{decode_utf8, encode_utf8, valid_utf8};

verus! {

/// `std::str::from_utf8`: the text when the bytes are valid UTF-8 (as vstd
/// defines valid UTF-8 and its decoding).
#[verifier::external_body]
fn utf8_text(bytes: &[u8]) -> (r: Option<String>)
    ensures
        r is Some <==> valid_utf8(bytes@),
        r matches Some(s) ==> s@ == decode_utf8(bytes@),
{
    match std::str::from_utf8(bytes) {
        Ok(s) => Some(s.to_string()),
        Err(_) => None,
    }
}

/// What `encoding_rs::GBK.decode` gives for some bytes: the decoded text
/// and whether malformed sequences were replaced.
pub uninterp spec fn gbk_decoded(bytes: Seq<u8>) -> (Seq<char>, bool);

/// `encoding_rs::Encoding::decode` on `encoding_rs::GBK`: decodes the whole
/// input as GBK (after sniffing a byte order mark), replacing malformed
/// sequences, and tells whether any were replaced. Its result depends on the
/// bytes alone; nothing more of the decoding is stated. The crate panics only
/// when the output size overflows `usize`, which the bound rules out.
#[verifier::external_body]
fn gbk_decode(bytes: &[u8]) -> (r: (String, bool))
    requires
        bytes@.len() <= usize::MAX / 8,
    ensures
        (r.0@, r.1) == gbk_decoded(bytes@),
{
    let (cow, _encoding, had_errors) = encoding_rs::GBK.decode(bytes);
    (cow.into_owned(), had_errors)
}

/// What `String::from_utf8_lossy` gives for some bytes.
pub uninterp spec fn utf8_lossy(bytes: Seq<u8>) -> Seq<char>;

/// `String::from_utf8_lossy`: UTF-8 with invalid sequences replaced by
/// U+FFFD. Stated: the result depends on the bytes alone, and valid UTF-8
/// comes out decoded; how invalid sequences are replaced is not stated.
#[verifier::external_body]
fn lossy_utf8(bytes: &[u8]) -> (r: String)
    ensures
        r@ == utf8_lossy(bytes@),
        valid_utf8(bytes@) ==> r@ == decode_utf8(bytes@),
{
    String::from_utf8_lossy(bytes).into_owned()
}

/// The text of command output, as `decode` reads it.
pub open spec fn decoded_text(bytes: Seq<u8>) -> Seq<char> {
    if valid_utf8(bytes) {
        decode_utf8(bytes)
    } else if !gbk_decoded(bytes).1 {
        gbk_decoded(bytes).0
    } else {
        utf8_lossy(bytes)
    }
}

/// Decodes command output: as UTF-8 when valid, else as GBK when that
/// decodes without errors, else as UTF-8 with replacement characters.
pub fn decode(bytes: &[u8]) -> (r: String)
    requires
        bytes@.len() <= usize::MAX / 8,
    ensures
        r@ == decoded_text(bytes@),
{
    if let Some(s) = utf8_text(bytes) {
        return s;
    }
    match gbk_text(gbk_decode(bytes)) {
        Some(text) => text,
        None => lossy_utf8(bytes),
    }
}

/// The text of a GBK decoding, when it met no malformed sequence; `None`
/// when the bytes are to be read as UTF-8 with replacements instead.
pub fn gbk_text(decoded: (String, bool)) -> (r: Option<String>)
    ensures
        !decoded.1 ==> (r matches Some(t) && t@ == decoded.0@),
        decoded.1 ==> r is None,
{
    let (text, had_errors) = decoded;
    if had_errors {
        None
    } else {
        Some(text)
    }
}

/// Output that a program wrote as UTF-8 reads back as the text it wrote.
pub proof fn decode_reads_utf8_back(text: Seq<char>)
    ensures
        decoded_text(encode_utf8(text)) == text,
{
    vstd::utf8::encode_utf8_valid_utf8(text);
    vstd::utf8::encode_utf8_decode_utf8(text);
}

} // verus!

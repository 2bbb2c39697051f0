//! Turning received bytes into text.
use vstd::prelude::*;
use vstd::slice::slice_to_vec;
use vstd::utf8::{
    decode_utf8, encode_utf8, encode_utf8_decode_utf8, encode_utf8_valid_utf8, is_ascii_chars,
    is_ascii_chars_encode_utf8, valid_utf8,
};

verus! {

/// The error of `String::from_utf8`. Nothing is read from it.
#[verifier::external_type_specification]
#[verifier::external_body]
pub struct ExFromUtf8Error(std::string::FromUtf8Error);

/// `String::from_utf8` succeeds exactly on well-formed UTF-8, and the string
/// it then returns holds the characters that the bytes encode.
pub assume_specification[ String::from_utf8 ](vec: Vec<u8>) -> (res: Result<
    String,
    std::string::FromUtf8Error,
>)
    ensures
        res is Ok <==> valid_utf8(vec@),
        res matches Ok(s) ==> s@ == decode_utf8(vec@),
;

/// The text that a sequence of ASCII bytes spells: one character per byte.
pub open spec fn ascii_text(s: Seq<u8>) -> Seq<char> {
    Seq::new(s.len(), |i: int| s[i] as char)
}

/// Whether every byte of `s` is below 128.
pub open spec fn all_ascii(s: Seq<u8>) -> bool {
    forall|i: int| 0 <= i < s.len() ==> #[trigger] s[i] < 0x80
}

/// What `bytes` decode to: their text, or `None` where they are not
/// well-formed UTF-8.
pub open spec fn decoded(bytes: Seq<u8>) -> Option<Seq<char>> {
    if valid_utf8(bytes) {
        Some(decode_utf8(bytes))
    } else {
        None
    }
}

/// ASCII bytes are well-formed UTF-8 and decode byte by byte.
pub proof fn lemma_ascii_decodes(s: Seq<u8>)
    requires
        all_ascii(s),
    ensures
        decoded(s) == Some(ascii_text(s)),
{
    let chars = ascii_text(s);
    assert(is_ascii_chars(chars));
    is_ascii_chars_encode_utf8(chars);
    assert(encode_utf8(chars) =~= s);
    encode_utf8_valid_utf8(chars);
    encode_utf8_decode_utf8(chars);
}

/// Decodes `bytes` into an owned string.
pub fn decode(bytes: &[u8]) -> (res: Option<String>)
    ensures
        match res {
            Some(s) => decoded(bytes@) == Some(s@),
            None => decoded(bytes@) is None,
        },
{
    match String::from_utf8(slice_to_vec(bytes)) {
        Ok(s) => Some(s),
        Err(_) => None,
    }
}

} // verus!

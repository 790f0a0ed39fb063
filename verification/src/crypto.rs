//! Message digests and Base64.

use base64::engine::general_purpose::STANDARD;
use base64::Engine;
use sha1::Sha1;
use sha2::{Digest, Sha256};
use vstd::prelude::*;

use crate::text;

verus! {

/// The SHA-256 digest of `data`.
pub uninterp spec fn sha256_digest(data: Seq<u8>) -> Seq<u8>;

/// The SHA-1 digest of `data`.
pub uninterp spec fn sha1_digest(data: Seq<u8>) -> Seq<u8>;

/// Calls `sha2::Sha256::digest`. Its result is [`sha256_digest`] of the data, 32 bytes.
#[verifier::external_body]
pub(crate) fn sha256(data: &[u8]) -> (r: Vec<u8>)
    ensures
        r@ == sha256_digest(data@),
        r@.len() == 32,
{
    Sha256::digest(data).to_vec()
}

/// Calls `sha1::Sha1::digest`. Its result is [`sha1_digest`] of the data, 20 bytes.
#[verifier::external_body]
pub(crate) fn sha1(data: &[u8]) -> (r: Vec<u8>)
    ensures
        r@ == sha1_digest(data@),
        r@.len() == 20,
{
    Sha1::digest(data).to_vec()
}

/// The character of the standard Base64 alphabet (`A-Z a-z 0-9 + /`) for six bits.
pub open spec fn base64_char(v: int) -> char {
    if v < 26 {
        (65 + v) as char
    } else if v < 52 {
        (97 + v - 26) as char
    } else if v < 62 {
        (48 + v - 52) as char
    } else if v == 62 {
        '+'
    } else {
        '/'
    }
}

/// The standard Base64 text for `bytes`, padded with `=`: four characters for each three
/// bytes, most significant bits first.
pub open spec fn base64_text(bytes: Seq<u8>) -> Seq<char>
    decreases bytes.len(),
{
    if bytes.len() == 0 {
        seq![]
    } else {
        let a = bytes[0] as int;
        let b = if bytes.len() > 1 { bytes[1] as int } else { 0 };
        let c = if bytes.len() > 2 { bytes[2] as int } else { 0 };
        let first = base64_char(a / 4);
        let second = base64_char(a % 4 * 16 + b / 16);
        let third = base64_char(b % 16 * 4 + c / 64);
        let fourth = base64_char(c % 64);
        if bytes.len() == 1 {
            seq![first, second, '=', '=']
        } else if bytes.len() == 2 {
            seq![first, second, third, '=']
        } else {
            seq![first, second, third, fourth] + base64_text(bytes.skip(3))
        }
    }
}

/// The bytes that the Base64 text `text` stands for, or the message of the decoder's error.
pub uninterp spec fn base64_decoded(text: Seq<char>) -> Result<Seq<u8>, Seq<char>>;

/// Whether `text` is Base64 for `bytes`.
pub open spec fn decodes_to(text: Seq<char>, bytes: Seq<u8>) -> bool {
    base64_decoded(text) == Ok::<Seq<u8>, Seq<char>>(bytes)
}

/// A decoded value or a message, seen as values.
pub open spec fn decoded_view(r: Result<Vec<u8>, String>) -> Result<Seq<u8>, Seq<char>> {
    match r {
        Ok(bytes) => Ok(bytes@),
        Err(e) => Err(e@),
    }
}

/// Calls the `encode` method of `base64`'s standard engine (standard alphabet, padded).
/// Its result is [`base64_text`] of the bytes, and decoding that text gives the bytes back.
#[verifier::external_body]
pub(crate) fn base64_encode(bytes: &[u8]) -> (r: String)
    ensures
        r@ == base64_text(bytes@),
        decodes_to(r@, bytes@),
{
    STANDARD.encode(bytes)
}

/// Calls the `decode` method of `base64`'s standard engine (standard alphabet, canonical
/// padding). Its result is [`base64_decoded`] of the text; an error is kept as its message.
#[verifier::external_body]
pub(crate) fn base64_decode(text: &str) -> (r: Result<Vec<u8>, String>)
    ensures
        decoded_view(r) == base64_decoded(text@),
{
    STANDARD.decode(text).map_err(|e| e.to_string())
}

/// There is no white space in Base64 text.
pub proof fn law_base64_has_no_white_space(bytes: Seq<u8>)
    ensures
        text::without_white_space(base64_text(bytes)) == base64_text(bytes),
{
    lemma_base64_is_visible(bytes);
    text::lemma_nothing_to_remove(base64_text(bytes));
}

proof fn lemma_base64_is_visible(bytes: Seq<u8>)
    ensures
        forall|i: int|
            0 <= i < base64_text(bytes).len() ==> !text::is_white_space(
                #[trigger] base64_text(bytes)[i],
            ),
    decreases bytes.len(),
{
    if bytes.len() > 2 {
        lemma_base64_is_visible(bytes.skip(3));
        let rest = base64_text(bytes.skip(3));
        assert forall|i: int| 4 <= i < base64_text(bytes).len() implies !text::is_white_space(
            #[trigger] base64_text(bytes)[i],
        ) by {
            assert(base64_text(bytes)[i] == rest[i - 4]);
        }
    }
}

} // verus!

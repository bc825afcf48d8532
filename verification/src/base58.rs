//! Base58 text, as `bs58` writes and reads it with its default alphabet.

use vstd::prelude::*;

verus! {

/// The text that `bs58` encodes `bytes` to.
pub uninterp spec fn base58_text(bytes: Seq<u8>) -> Seq<char>;

/// The bytes that `bs58` decodes `text` to, where it accepts `text`.
pub uninterp spec fn base58_bytes(text: Seq<char>) -> Option<Seq<u8>>;

/// `bs58::encode(..).into_string()`: the encoding depends on the bytes alone, and
/// decoding it gives the same bytes back.
#[verifier::external_body]
pub(crate) fn encode_base58(bytes: &Vec<u8>) -> (text: String)
    ensures
        text@ == base58_text(bytes@),
        base58_bytes(text@) == Some(bytes@),
{
    bs58::encode(bytes).into_string()
}

/// `bs58::decode(..).into_vec()`: whether the text is accepted, and the bytes it
/// stands for, depend on the text alone. Which character was refused is dropped.
#[verifier::external_body]
pub(crate) fn decode_base58(text: &str) -> (bytes: Option<Vec<u8>>)
    ensures
        match bytes {
            Some(decoded) => base58_bytes(text@) == Some(decoded@),
            None => base58_bytes(text@) is None,
        },
{
    bs58::decode(text).into_vec().ok()
}

} // verus!

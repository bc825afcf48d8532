//! Key material as the user writes it, and the address that signs with it.

use crate::base58::{base58_bytes, decode_base58};
use crate::json::{parse_json, parsed_json, Json, JsonValue};
use crate::text::{has_prefix, starts_with};
use vstd::prelude::*;

verus! {

/// The address of the signing key that `key_bytes` hold, where they hold one.
pub uninterp spec fn signer_address(key_bytes: Seq<u8>) -> Option<Seq<char>>;

/// `Keypair::from_bytes` of `solana_sdk`, and the public key of the pair as
/// `Pubkey` writes it: whether the bytes are a key pair, and the address that
/// belongs to it, depend on the bytes alone. Why bytes were refused is dropped.
#[verifier::external_body]
pub(crate) fn derive_address(key_bytes: &Vec<u8>) -> (address: Option<String>)
    ensures
        match address {
            Some(text) => signer_address(key_bytes@) == Some(text@),
            None => signer_address(key_bytes@) is None,
        },
{
    match solana_sdk::signature::Keypair::from_bytes(key_bytes) {
        Ok(pair) => Some(solana_sdk::signer::Signer::pubkey(&pair).to_string()),
        Err(_) => None,
    }
}

/// Whether a JSON value is an integer that fits a byte.
pub open spec fn is_byte(value: JsonValue) -> bool {
    value matches JsonValue::Integer(n) && 0 <= n <= 255
}

/// The bytes that a JSON array of byte values lists; nothing for any other value.
pub open spec fn byte_array(value: JsonValue) -> Option<Seq<u8>> {
    match value {
        JsonValue::Array(items) => if forall|i: int| 0 <= i < items.len() ==> is_byte(
            #[trigger] items[i],
        ) {
            Some(Seq::new(items.len(), |i: int| items[i]->Integer_0 as u8))
        } else {
            None
        },
        _ => None,
    }
}

/// Reads the bytes that a JSON array of byte values lists.
pub fn bytes_of_array(document: &Json) -> (bytes: Option<Vec<u8>>)
    ensures
        match bytes {
            Some(listed) => byte_array(document@) == Some(listed@),
            None => byte_array(document@) is None,
        },
{
    match document {
        Json::Array(items) => {
            proof {
                crate::json::lemma_array_view(*items);
            }
            let ghost said = crate::json::items_view(items@);
            let mut bytes: Vec<u8> = Vec::new();
            let mut i: usize = 0;
            while i < items.len()
                invariant
                    i <= items.len(),
                    said == crate::json::items_view(items@),
                    document@ == JsonValue::Array(said),
                    bytes.len() == i,
                    forall|j: int| 0 <= j < i ==> is_byte(#[trigger] said[j]),
                    forall|j: int| 0 <= j < i ==> bytes[j] == said[j]->Integer_0 as u8,
                decreases items.len() - i,
            {
                let ghost item = said[i as int];
                proof {
                    assert(items[i as int]@ == item);
                }
                let byte: Option<u8> = match &items[i] {
                    Json::Unsigned(n) => if *n <= 255 {
                        Some(*n as u8)
                    } else {
                        None
                    },
                    Json::Signed(n) => if 0 <= *n && *n <= 255 {
                        Some(*n as u8)
                    } else {
                        None
                    },
                    _ => None,
                };
                match byte {
                    Some(b) => {
                        proof {
                            assert(is_byte(item) && b == item->Integer_0 as u8);
                        }
                        bytes.push(b);
                    },
                    None => {
                        proof {
                            assert(!is_byte(item));
                            assert(document@ == JsonValue::Array(said));
                        }
                        return None;
                    },
                }
                i = i + 1;
            }
            proof {
                assert(document@ == JsonValue::Array(said));
                assert(bytes@ =~= Seq::new(said.len(), |i: int| said[i]->Integer_0 as u8));
            }
            Some(bytes)
        },
        _ => None,
    }
}

/// The bytes that key material stands for: those of a JSON array where the
/// text begins with a square bracket, those of base58 text where not.
pub open spec fn key_material(private_key: Seq<char>) -> Option<Seq<u8>> {
    if has_prefix(private_key, "["@) {
        match parsed_json(private_key) {
            Some(document) => byte_array(document),
            None => None,
        }
    } else {
        base58_bytes(private_key)
    }
}

/// Reads key material in either of its two forms.
pub fn decode_key_material(private_key: &str) -> (bytes: Option<Vec<u8>>)
    ensures
        match bytes {
            Some(decoded) => key_material(private_key@) == Some(decoded@),
            None => key_material(private_key@) is None,
        },
{
    if starts_with(private_key, "[") {
        match parse_json(private_key) {
            Some(document) => bytes_of_array(&document),
            None => None,
        }
    } else {
        decode_base58(private_key)
    }
}

} // verus!

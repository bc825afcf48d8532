//! The outbound header set: an `http` header map, and what it holds.
//!
//! The map itself is not verified. What this module states of it is what the
//! `http` crate's source shows of `HeaderName::from_str`, `HeaderValue::from_str`
//! and `HeaderMap::insert`.

use reqwest::header::{HeaderMap, HeaderName, HeaderValue};
use std::str::FromStr;
use vstd::prelude::*;

verus! {

/// `http::HeaderMap`, by the name that `reqwest` gives it.
#[verifier::external_type_specification]
#[verifier::external_body]
#[verifier::reject_recursive_types(T)]
pub struct ExHeaderMap<T>(HeaderMap<T>);

/// `http::HeaderValue`, which a header map holds where nothing else is said.
#[verifier::external_type_specification]
#[verifier::external_body]
pub struct ExHeaderValue(HeaderValue);

/// The headers that a map holds: each name, in lower case, with the bytes of its value.
pub uninterp spec fn header_entries(headers: HeaderMap) -> Map<Seq<u8>, Seq<u8>>;

/// The number of headers up to which `HeaderMap::insert` is sure to find room.
pub const HEADER_LIMIT: usize = 4096;

/// Whether a byte may stand in a header name: a letter, a digit, or one of
/// ``!"#$%&'*+-.^_`|~``.
pub open spec fn is_name_byte(b: u8) -> bool {
    ||| 33 <= b <= 39
    ||| b == 42
    ||| b == 43
    ||| b == 45
    ||| b == 46
    ||| 48 <= b <= 57
    ||| 65 <= b <= 90
    ||| 94 <= b <= 122
    ||| b == 124
    ||| b == 126
}

/// A byte of a header name as the map keeps it: capitals become small letters.
pub open spec fn lower_byte(b: u8) -> u8 {
    if 65 <= b <= 90 {
        (b + 32) as u8
    } else {
        b
    }
}

/// Whether `name` is accepted as a header name: between 1 and 65535
/// characters, each of them a name byte.
pub open spec fn is_header_name(name: Seq<char>) -> bool {
    &&& 1 <= name.len() <= 65535
    &&& forall|i: int| 0 <= i < name.len() ==> (name[i] as u32) < 128 && is_name_byte(name[i] as u8)
}

/// The name under which the map keeps a header called `name`.
pub open spec fn header_key(name: Seq<char>) -> Seq<u8> {
    Seq::new(name.len(), |i: int| lower_byte(name[i] as u8))
}

/// Whether `value` is accepted as a header value: no control character but the
/// tabulator, and no DEL.
pub open spec fn is_header_value(value: Seq<char>) -> bool {
    forall|i: int|
        0 <= i < value.len() ==> (value[i] as u32) == 9 || ((value[i] as u32) >= 32 && (
        value[i] as u32) != 127)
}

/// The entries once a header was asked for: set, in place of any of the same
/// name, where both name and value are accepted; as before where not.
pub open spec fn with_header(
    entries: Map<Seq<u8>, Seq<u8>>,
    name: Seq<char>,
    value: Seq<char>,
) -> Map<Seq<u8>, Seq<u8>> {
    if is_header_name(name) && is_header_value(value) {
        entries.insert(header_key(name), vstd::utf8::encode_utf8(value))
    } else {
        entries
    }
}

/// `HeaderMap::new`: a map without headers.
#[verifier::external_body]
pub(crate) fn new_header_map() -> (headers: HeaderMap)
    ensures
        header_entries(headers) == (Map::<Seq<u8>, Seq<u8>>::empty()),
{
    HeaderMap::new()
}

/// `HeaderName::from_str`, `HeaderValue::from_str` and `HeaderMap::insert`: where
/// the two parsers accept name and value, the header is set and replaces every
/// header of that name; where one of them refuses, the map stays as it is.
/// `insert` panics on a map that cannot grow, which `requires` leaves out.
#[verifier::external_body]
pub(crate) fn set_header(headers: &mut HeaderMap, name: &str, value: &str) -> (set: bool)
    requires
        header_entries(*old(headers)).dom().finite(),
        header_entries(*old(headers)).len() < HEADER_LIMIT,
    ensures
        set == (is_header_name(name@) && is_header_value(value@)),
        header_entries(*final(headers)) == with_header(
            header_entries(*old(headers)),
            name@,
            value@,
        ),
{
    match (HeaderName::from_str(name), HeaderValue::from_str(value)) {
        (Ok(parsed_name), Ok(parsed_value)) => {
            headers.insert(parsed_name, parsed_value);
            true
        },
        _ => false,
    }
}

/// Setting a header adds at most one entry and keeps the entries finite.
pub proof fn lemma_with_header_len(entries: Map<Seq<u8>, Seq<u8>>, name: Seq<char>, value: Seq<char>)
    requires
        entries.dom().finite(),
    ensures
        with_header(entries, name, value).dom().finite(),
        with_header(entries, name, value).len() <= entries.len() + 1,
{
    if is_header_name(name) && is_header_value(value) {
        let key = header_key(name);
        assert(entries.insert(key, vstd::utf8::encode_utf8(value)).dom() =~= entries.dom().insert(
            key,
        ));
        vstd::set::axiom_set_insert_len(entries.dom(), key);
    }
}

} // verus!

//! The intent of one transaction: the fields that every transaction has,
//! each in a place of its own, and room for others.

use crate::json::{FieldMap, Json, JsonValue};
use vstd::prelude::*;

verus! {

/// What is to be sent for one transaction. An intent is made anew for every
/// submission.
#[derive(Debug, PartialEq, Eq)]
pub struct TransactionIntent {
    /// The address that the funds come from; sent as `from`.
    pub sender: Option<String>,
    /// The address that the funds go to; sent as `to`.
    pub recipient: Option<String>,
    pub amount: Option<u64>,
    /// The token by which the client knows the transaction again.
    pub stealth_id: Option<String>,
    pub nonce: Option<u64>,
    pub gas_price: Option<u64>,
    /// The tag of the transaction; sent as `transaction_id`.
    pub transaction_tag: Option<String>,
    /// The time in milliseconds since the Unix epoch.
    pub timestamp: Option<i64>,
    /// Fields that have no place of their own. Where one of them bears the
    /// name of a field that has, it gives way.
    pub extra: FieldMap,
}

/// The fields with a string under `name`, where there is one.
pub open spec fn with_text(
    fields: Map<Seq<char>, JsonValue>,
    name: Seq<char>,
    value: Option<String>,
) -> Map<Seq<char>, JsonValue> {
    match value {
        Some(text) => fields.insert(name, JsonValue::Text(text@)),
        None => fields,
    }
}

/// The fields with a number under `name`, where there is one.
pub open spec fn with_number(
    fields: Map<Seq<char>, JsonValue>,
    name: Seq<char>,
    value: Option<int>,
) -> Map<Seq<char>, JsonValue> {
    match value {
        Some(number) => fields.insert(name, JsonValue::Integer(number)),
        None => fields,
    }
}

/// A number of 64 bits as an integer, where there is one.
pub open spec fn unsigned(value: Option<u64>) -> Option<int> {
    match value {
        Some(number) => Some(number as int),
        None => None,
    }
}

/// A signed number of 64 bits as an integer, where there is one.
pub open spec fn signed(value: Option<i64>) -> Option<int> {
    match value {
        Some(number) => Some(number as int),
        None => None,
    }
}

impl TransactionIntent {
    /// The fields that stand between the extra ones and the tag: sender,
    /// recipient, amount, token, nonce and gas price, over `extra`.
    pub open spec fn body(self, extra: Map<Seq<char>, JsonValue>) -> Map<Seq<char>, JsonValue> {
        with_number(
            with_number(
                with_text(
                    with_number(
                        with_text(with_text(extra, "from"@, self.sender), "to"@, self.recipient),
                        "amount"@,
                        unsigned(self.amount),
                    ),
                    "stealth_id"@,
                    self.stealth_id,
                ),
                "nonce"@,
                unsigned(self.nonce),
            ),
            "gas_price"@,
            unsigned(self.gas_price),
        )
    }
}

impl View for TransactionIntent {
    type V = Map<Seq<char>, JsonValue>;

    /// The fields as they are sent, by name.
    open spec fn view(&self) -> Map<Seq<char>, JsonValue> {
        with_number(
            with_text(self.body(self.extra@), "transaction_id"@, self.transaction_tag),
            "timestamp"@,
            signed(self.timestamp),
        )
    }
}

/// A number as JSON writes it.
pub fn json_integer(number: i64) -> (json: Json)
    ensures
        json@ == JsonValue::Integer(number as int),
{
    if number >= 0 {
        Json::Unsigned(number as u64)
    } else {
        Json::Signed(number)
    }
}

impl TransactionIntent {
    /// An intent without any field.
    pub fn new() -> (intent: TransactionIntent)
        ensures
            intent@ == (Map::<Seq<char>, JsonValue>::empty()),
            intent.sender is None,
            intent.recipient is None,
            intent.amount is None,
            intent.stealth_id is None,
            intent.nonce is None,
            intent.gas_price is None,
            intent.transaction_tag is None,
            intent.timestamp is None,
    {
        TransactionIntent {
            sender: None,
            recipient: None,
            amount: None,
            stealth_id: None,
            nonce: None,
            gas_price: None,
            transaction_tag: None,
            timestamp: None,
            extra: FieldMap::new(),
        }
    }

    /// The fields as they are sent, by name.
    pub fn into_fields(self) -> (fields: FieldMap)
        ensures
            fields@ == self@,
    {
        let mut fields = self.extra;
        match self.sender {
            Some(sender) => {
                fields.insert("from".to_owned(), Json::Text(sender));
            },
            None => {},
        }
        match self.recipient {
            Some(recipient) => {
                fields.insert("to".to_owned(), Json::Text(recipient));
            },
            None => {},
        }
        match self.amount {
            Some(amount) => {
                fields.insert("amount".to_owned(), Json::Unsigned(amount));
            },
            None => {},
        }
        match self.stealth_id {
            Some(stealth_id) => {
                fields.insert("stealth_id".to_owned(), Json::Text(stealth_id));
            },
            None => {},
        }
        match self.nonce {
            Some(nonce) => {
                fields.insert("nonce".to_owned(), Json::Unsigned(nonce));
            },
            None => {},
        }
        match self.gas_price {
            Some(gas_price) => {
                fields.insert("gas_price".to_owned(), Json::Unsigned(gas_price));
            },
            None => {},
        }
        match self.transaction_tag {
            Some(tag) => {
                fields.insert("transaction_id".to_owned(), Json::Text(tag));
            },
            None => {},
        }
        match self.timestamp {
            Some(timestamp) => {
                fields.insert("timestamp".to_owned(), json_integer(timestamp));
            },
            None => {},
        }
        fields
    }
}

} // verus!

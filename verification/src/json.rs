//! JSON values as the library holds them, and what each of them says.

use vstd::prelude::*;

verus! {

/// A JSON value.
#[derive(Debug, PartialEq, Eq)]
pub enum Json {
    Null,
    Bool(bool),
    /// An integer that is not negative.
    Unsigned(u64),
    /// A negative integer.
    Signed(i64),
    /// Any other number, by its numeral.
    Decimal(String),
    Text(String),
    Array(Vec<Json>),
    /// The members of an object as they were written. Where a name occurs twice,
    /// the later member counts.
    Object(Vec<(String, Json)>),
}

/// What a JSON value says, apart from how it is held in memory.
pub ghost enum JsonValue {
    Null,
    Bool(bool),
    Integer(int),
    Decimal(Seq<char>),
    Text(Seq<char>),
    Array(Seq<JsonValue>),
    /// The members as they were written; `members_map` tells what they stand for.
    Object(Seq<(Seq<char>, JsonValue)>),
}

/// The mapping that a list of members stands for: a later member replaces an
/// earlier one of the same name.
pub open spec fn members_map(members: Seq<(Seq<char>, JsonValue)>) -> Map<Seq<char>, JsonValue>
    decreases members.len(),
{
    if members.len() == 0 {
        Map::empty()
    } else {
        members_map(members.drop_last()).insert(members.last().0, members.last().1)
    }
}

/// What `json` says.
pub open spec fn json_value(json: Json) -> JsonValue
    decreases json,
{
    match json {
        Json::Null => JsonValue::Null,
        Json::Bool(b) => JsonValue::Bool(b),
        Json::Unsigned(n) => JsonValue::Integer(n as int),
        Json::Signed(n) => JsonValue::Integer(n as int),
        Json::Decimal(numeral) => JsonValue::Decimal(numeral@),
        Json::Text(text) => JsonValue::Text(text@),
        Json::Array(items) => JsonValue::Array(
            Seq::new(
                items.len() as nat,
                |i: int|
                    if 0 <= i < items.len() {
                        json_value(items[i])
                    } else {
                        JsonValue::Null
                    },
            ),
        ),
        Json::Object(members) => JsonValue::Object(
            Seq::new(
                members.len() as nat,
                |i: int|
                    if 0 <= i < members.len() {
                        (members[i].0@, json_value(members[i].1))
                    } else {
                        (Seq::empty(), JsonValue::Null)
                    },
            ),
        ),
    }
}

impl View for Json {
    type V = JsonValue;

    open spec fn view(&self) -> JsonValue {
        json_value(*self)
    }
}

/// What each item of a list says.
pub open spec fn items_view(items: Seq<Json>) -> Seq<JsonValue> {
    Seq::new(items.len(), |i: int| items[i]@)
}

/// What each member of a list says, under its name.
pub open spec fn members_view(members: Seq<(String, Json)>) -> Seq<(Seq<char>, JsonValue)> {
    Seq::new(members.len(), |i: int| (members[i].0@, members[i].1@))
}

/// The member of an object under `name`; nothing for a value that is no object.
pub open spec fn member(value: JsonValue, name: Seq<char>) -> Option<JsonValue> {
    match value {
        JsonValue::Object(members) => if members_map(members).contains_key(name) {
            Some(members_map(members)[name])
        } else {
            None
        },
        _ => None,
    }
}

/// An array says what its items say, in their order.
pub proof fn lemma_array_view(items: Vec<Json>)
    ensures
        Json::Array(items)@ == JsonValue::Array(items_view(items@)),
{
    let said = Json::Array(items)@;
    assert(said is Array);
    assert(said->Array_0 =~= items_view(items@));
}

/// An object says what its members say, each under its name and in their order.
pub proof fn lemma_object_view(members: Vec<(String, Json)>)
    ensures
        Json::Object(members)@ == JsonValue::Object(members_view(members@)),
{
    let said = Json::Object(members)@;
    assert(said is Object);
    assert(said->Object_0 =~= members_view(members@));
}

/// The last member under a name is the one that the mapping holds.
pub proof fn lemma_members_map_last(members: Seq<(Seq<char>, JsonValue)>, name: Seq<char>, at: int)
    requires
        0 <= at < members.len(),
        members[at].0 == name,
        forall|j: int| at < j < members.len() ==> members[j].0 != name,
    ensures
        members_map(members).contains_key(name),
        members_map(members)[name] == members[at].1,
    decreases members.len(),
{
    if at < members.len() - 1 {
        lemma_members_map_last(members.drop_last(), name, at);
    }
}

/// A name that no member has is not in the mapping.
pub proof fn lemma_members_map_absent(members: Seq<(Seq<char>, JsonValue)>, name: Seq<char>)
    requires
        forall|j: int| 0 <= j < members.len() ==> members[j].0 != name,
    ensures
        !members_map(members).contains_key(name),
    decreases members.len(),
{
    if members.len() > 0 {
        lemma_members_map_absent(members.drop_last(), name);
    }
}

/// Where the last member named `name` stands in the list.
pub fn find_member(members: &Vec<(String, Json)>, name: &str) -> (found: Option<usize>)
    ensures
        match found {
            Some(at) => {
                &&& at < members.len()
                &&& members[at as int].0@ == name@
                &&& forall|j: int| at < j < members.len() ==> members[j].0@ != name@
            },
            None => forall|j: int| 0 <= j < members.len() ==> members[j].0@ != name@,
        },
{
    let wanted = name.to_owned();
    let mut i: usize = members.len();
    while i > 0
        invariant
            i <= members.len(),
            wanted@ == name@,
            forall|j: int| i <= j < members.len() ==> members[j].0@ != name@,
        decreases i,
    {
        i = i - 1;
        if members[i].0 == wanted {
            return Some(i);
        }
    }
    None
}

impl Json {
    /// The member of an object under `name`.
    pub fn get(&self, name: &str) -> (found: Option<&Json>)
        ensures
            match found {
                Some(value) => member(self@, name@) == Some(value@),
                None => member(self@, name@) is None,
            },
    {
        match self {
            Json::Object(members) => {
                proof {
                    lemma_object_view(*members);
                }
                match find_member(members, name) {
                    Some(at) => {
                        proof {
                            lemma_members_map_last(members_view(members@), name@, at as int);
                        }
                        Some(&members[at].1)
                    },
                    None => {
                        proof {
                            lemma_members_map_absent(members_view(members@), name@);
                        }
                        None
                    },
                }
            },
            _ => None,
        }
    }

    /// Takes the member under `name` out of an object and hands it over. Where
    /// there is none, the value stays as it is.
    pub fn take_member(&mut self, name: &str) -> (taken: Option<Json>)
        ensures
            match taken {
                Some(value) => member(old(self)@, name@) == Some(value@),
                None => member(old(self)@, name@) is None && final(self)@ == old(self)@,
            },
    {
        match self {
            Json::Object(members) => {
                proof {
                    lemma_object_view(*members);
                }
                match find_member(members, name) {
                    Some(at) => {
                        proof {
                            lemma_members_map_last(members_view(members@), name@, at as int);
                        }
                        let entry = members.remove(at);
                        Some(entry.1)
                    },
                    None => {
                        proof {
                            lemma_members_map_absent(members_view(members@), name@);
                        }
                        None
                    },
                }
            },
            _ => None,
        }
    }

    /// The text of a string value.
    pub fn as_str(&self) -> (found: Option<&str>)
        ensures
            match found {
                Some(text) => self@ == JsonValue::Text(text@),
                None => !(self@ is Text),
            },
    {
        match self {
            Json::Text(text) => Some(text.as_str()),
            _ => None,
        }
    }
}

/// Taking out a member changes nothing under any other name.
proof fn lemma_members_map_remove_other(
    members: Seq<(Seq<char>, JsonValue)>,
    at: int,
    name: Seq<char>,
)
    requires
        0 <= at < members.len(),
        members[at].0 != name,
    ensures
        members_map(members.remove(at)).contains_key(name) == members_map(members).contains_key(
            name,
        ),
        members_map(members).contains_key(name) ==> members_map(members.remove(at))[name]
            == members_map(members)[name],
    decreases members.len(),
{
    if at == members.len() - 1 {
        assert(members.remove(at) =~= members.drop_last());
    } else {
        let shorter = members.remove(at);
        assert(shorter.drop_last() =~= members.drop_last().remove(at));
        assert(shorter.last() == members.last());
        lemma_members_map_remove_other(members.drop_last(), at, name);
    }
}

/// Whether two mappings hold the same under every name but `name`.
pub open spec fn same_elsewhere(
    one: Map<Seq<char>, JsonValue>,
    other: Map<Seq<char>, JsonValue>,
    name: Seq<char>,
) -> bool {
    forall|key: Seq<char>|
        key != name ==> (#[trigger] one.contains_key(key)) == other.contains_key(key) && (
        one.contains_key(key) ==> one[key] == other[key])
}

/// Taking out a member changes nothing under any name but its own.
pub proof fn lemma_remove_member_elsewhere(members: Seq<(Seq<char>, JsonValue)>, at: int)
    requires
        0 <= at < members.len(),
    ensures
        same_elsewhere(members_map(members.remove(at)), members_map(members), members[at].0),
{
    assert forall|key: Seq<char>| key != members[at].0 implies (#[trigger] members_map(
        members.remove(at),
    ).contains_key(key)) == members_map(members).contains_key(key) && (members_map(
        members.remove(at),
    ).contains_key(key) ==> members_map(members.remove(at))[key] == members_map(members)[key]) by {
        lemma_members_map_remove_other(members, at, key);
    }
}

/// Named JSON values: the fields of a transaction, a set of figures, a piece of metadata.
///
/// The entries are kept in the order in which they came. Where a name occurs
/// twice, the later entry is the one that counts.
#[derive(Debug, PartialEq, Eq)]
pub struct FieldMap {
    pub entries: Vec<(String, Json)>,
}

impl View for FieldMap {
    type V = Map<Seq<char>, JsonValue>;

    open spec fn view(&self) -> Map<Seq<char>, JsonValue> {
        members_map(members_view(self.entries@))
    }
}

impl FieldMap {
    /// No fields.
    pub fn new() -> (fields: FieldMap)
        ensures
            fields@ == (Map::<Seq<char>, JsonValue>::empty()),
    {
        FieldMap { entries: Vec::new() }
    }

    /// Whether there is a field called `name`.
    pub fn contains_key(&self, name: &str) -> (present: bool)
        ensures
            present == self@.contains_key(name@),
    {
        match find_member(&self.entries, name) {
            Some(at) => {
                proof {
                    lemma_members_map_last(members_view(self.entries@), name@, at as int);
                }
                true
            },
            None => {
                proof {
                    lemma_members_map_absent(members_view(self.entries@), name@);
                }
                false
            },
        }
    }

    /// The field called `name`.
    pub fn get(&self, name: &str) -> (found: Option<&Json>)
        ensures
            match found {
                Some(value) => self@.contains_key(name@) && self@[name@] == value@,
                None => !self@.contains_key(name@),
            },
    {
        match find_member(&self.entries, name) {
            Some(at) => {
                proof {
                    lemma_members_map_last(members_view(self.entries@), name@, at as int);
                }
                Some(&self.entries[at].1)
            },
            None => {
                proof {
                    lemma_members_map_absent(members_view(self.entries@), name@);
                }
                None
            },
        }
    }

    /// Takes the field called `name` away, if there is one; every other field stays.
    pub fn remove(&mut self, name: &str)
        ensures
            final(self)@ == old(self)@.remove(name@),
    {
        let wanted = name.to_owned();
        let ghost before = self@;
        let mut i: usize = self.entries.len();
        while i > 0
            invariant
                i <= self.entries.len(),
                wanted@ == name@,
                forall|j: int| i <= j < self.entries.len() ==> self.entries[j].0@ != name@,
                same_elsewhere(self@, before, name@),
            decreases i,
        {
            i = i - 1;
            if self.entries[i].0 == wanted {
                let ghost held = self.entries@;
                let ghost held_map = self@;
                self.entries.remove(i);
                proof {
                    assert(members_view(self.entries@) =~= members_view(held).remove(i as int));
                    lemma_remove_member_elsewhere(members_view(held), i as int);
                    assert(same_elsewhere(held_map, before, name@));
                    assert forall|j: int| i <= j < self.entries.len() implies self.entries[j].0@
                        != name@ by {
                        assert(self.entries[j] == held[j + 1]);
                    }
                }
            }
        }
        proof {
            lemma_members_map_absent(members_view(self.entries@), name@);
            assert(self@ =~= before.remove(name@));
        }
    }

    /// Sets the field called `name`, in place of the one that was there.
    pub fn insert(&mut self, name: String, value: Json)
        ensures
            final(self)@ == old(self)@.insert(name@, value@),
    {
        self.remove(name.as_str());
        let ghost listed = members_view(self.entries@);
        self.entries.push((name, value));
        proof {
            let longer = members_view(self.entries@);
            assert(longer.drop_last() =~= listed);
            assert(longer.last() == (name@, value@));
            assert(self@ =~= old(self)@.insert(name@, value@));
        }
    }

    /// The same fields as a JSON object.
    pub fn into_json(self) -> (object: Json)
        ensures
            object@ == JsonValue::Object(members_view(self.entries@)),
            member_map(object@) == self@,
    {
        proof {
            lemma_object_view(self.entries);
        }
        Json::Object(self.entries)
    }
}

/// The mapping that an object stands for; the empty one for any other value.
pub open spec fn member_map(value: JsonValue) -> Map<Seq<char>, JsonValue> {
    match value {
        JsonValue::Object(members) => members_map(members),
        _ => Map::empty(),
    }
}

/// `serde_json::Value`, as the parser hands it over.
#[verifier::external_type_specification]
#[verifier::external_body]
pub struct ExSerdeValue(serde_json::Value);

/// `serde_json::Number`, as it stands inside a parsed value.
#[verifier::external_type_specification]
#[verifier::external_body]
pub struct ExSerdeNumber(serde_json::Number);

/// What `serde_json` reads out of `text`, where `text` is JSON at all.
pub uninterp spec fn parsed_json(text: Seq<char>) -> Option<JsonValue>;

/// `serde_json::from_str` for a `serde_json::Value`: whether the text is JSON, and
/// what it says, depend on the text alone. Why a text was refused is dropped.
#[verifier::external_body]
pub(crate) fn parse_json(text: &str) -> (document: Option<Json>)
    ensures
        match document {
            Some(json) => parsed_json(text@) == Some(json@),
            None => parsed_json(text@) is None,
        },
{
    match serde_json::from_str::<serde_json::Value>(text) {
        Ok(value) => Some(json_from_value(value)),
        Err(_) => None,
    }
}

/// Moves a `serde_json::Value` into a `Json`, variant by variant.
#[verifier::external_body]
fn json_from_value(value: serde_json::Value) -> Json {
    match value {
        serde_json::Value::Null => Json::Null,
        serde_json::Value::Bool(b) => Json::Bool(b),
        serde_json::Value::Number(n) => json_from_number(n),
        serde_json::Value::String(s) => Json::Text(s),
        serde_json::Value::Array(items) => Json::Array(
            items.into_iter().map(json_from_value).collect(),
        ),
        serde_json::Value::Object(members) => Json::Object(
            members.into_iter().map(|(name, v)| (name, json_from_value(v))).collect(),
        ),
    }
}

/// Moves a `serde_json::Number` into a `Json`: by `as_u64` where that gives a value,
/// else by `as_i64`, else by its numeral.
#[verifier::external_body]
fn json_from_number(number: serde_json::Number) -> Json {
    match (number.as_u64(), number.as_i64()) {
        (Some(n), _) => Json::Unsigned(n),
        (None, Some(n)) => Json::Signed(n),
        (None, None) => Json::Decimal(number.to_string()),
    }
}

} // verus!

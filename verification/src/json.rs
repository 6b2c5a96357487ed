//! A loosely typed JSON document and its mathematical model.

use vstd::prelude::*;
use vstd::string::*;

verus! {

/// A JSON document.
#[derive(Debug, PartialEq, Eq)]
pub enum Json {
    Null,
    Bool(bool),
    /// A number, kept as the decimal text it is written with.
    Number(String),
    Text(String),
    Array(Vec<Json>),
    /// An object: its members in order. Looking a key up finds the first
    /// member that carries it.
    Object(Vec<Member>),
}

/// One `key: value` pair of an object.
#[derive(Debug, PartialEq, Eq)]
pub struct Member {
    pub key: String,
    pub value: Json,
}

/// What a [`Json`] document holds.
pub enum JsonModel {
    Null,
    Bool(bool),
    Number(Seq<char>),
    Text(Seq<char>),
    Array(Seq<JsonModel>),
    Object(Seq<Entry>),
}

/// One `key: value` pair of an object's model.
pub struct Entry {
    pub key: Seq<char>,
    pub value: JsonModel,
}

impl View for Json {
    type V = JsonModel;

    open spec fn view(&self) -> JsonModel
        decreases self,
    {
        match self {
            Json::Null => JsonModel::Null,
            Json::Bool(b) => JsonModel::Bool(*b),
            Json::Number(digits) => JsonModel::Number(digits@),
            Json::Text(text) => JsonModel::Text(text@),
            Json::Array(items) => JsonModel::Array(
                Seq::new(
                    items@.len(),
                    |i: int|
                        if 0 <= i < items@.len() {
                            items@[i].view()
                        } else {
                            JsonModel::Null
                        },
                ),
            ),
            Json::Object(members) => JsonModel::Object(
                Seq::new(
                    members@.len(),
                    |i: int|
                        if 0 <= i < members@.len() {
                            Entry { key: members@[i].key@, value: members@[i].value.view() }
                        } else {
                            Entry { key: Seq::empty(), value: JsonModel::Null }
                        },
                ),
            ),
        }
    }
}

/// The models of `items`, one for one.
pub open spec fn models_of(items: Seq<Json>) -> Seq<JsonModel> {
    Seq::new(items.len(), |i: int| items[i]@)
}

/// The keys and the values' models of `members`, one for one.
pub open spec fn entries_of(members: Seq<Member>) -> Seq<Entry> {
    Seq::new(members.len(), |i: int| Entry { key: members[i].key@, value: members[i].value@ })
}

/// The value of the first of `entries` whose key is `key`.
pub open spec fn lookup(entries: Seq<Entry>, key: Seq<char>) -> Option<JsonModel>
    decreases entries.len(),
{
    if entries.len() == 0 {
        None
    } else if entries[0].key == key {
        Some(entries[0].value)
    } else {
        lookup(entries.drop_first(), key)
    }
}

impl JsonModel {
    /// The value under `key`, where the document is an object that has it.
    pub open spec fn field(self, key: Seq<char>) -> Option<JsonModel> {
        match self {
            JsonModel::Object(entries) => lookup(entries, key),
            _ => None,
        }
    }

    /// The items, where the document is an array.
    pub open spec fn items(self) -> Option<Seq<JsonModel>> {
        match self {
            JsonModel::Array(items) => Some(items),
            _ => None,
        }
    }

    /// The text, where the document is a string.
    pub open spec fn text(self) -> Option<Seq<char>> {
        match self {
            JsonModel::Text(text) => Some(text),
            _ => None,
        }
    }
}

/// An array's model is the array of its items' models, and an object's
/// model the list of its members' keys and values' models.
pub proof fn lemma_view_of_parts(doc: Json)
    ensures
        doc matches Json::Array(items) ==> doc@ == JsonModel::Array(models_of(items@)),
        doc matches Json::Object(members) ==> doc@ == JsonModel::Object(entries_of(members@)),
{
    match doc {
        Json::Array(items) => {
            assert(doc@->Array_0 =~= models_of(items@));
        },
        Json::Object(members) => {
            assert(doc@->Object_0 =~= entries_of(members@));
        },
        _ => {},
    }
}

impl Json {
    /// The value under `key`, where the document is an object that has it.
    pub fn get(&self, key: &str) -> (found: Option<&Json>)
        ensures
            match found {
                Some(value) => self@.field(key@) == Some(value@),
                None => self@.field(key@) is None,
            },
    {
        proof {
            lemma_view_of_parts(*self);
        }
        match self {
            Json::Object(members) => {
                let wanted = key.to_owned();
                let ghost entries = entries_of(members@);
                let mut i: usize = 0;
                assert(entries.skip(0) =~= entries);
                while i < members.len()
                    invariant
                        i <= members.len(),
                        wanted@ == key@,
                        entries == entries_of(members@),
                        self@ == JsonModel::Object(entries),
                        lookup(entries, key@) == lookup(entries.skip(i as int), key@),
                    decreases members.len() - i,
                {
                    assert(entries.skip(i as int).drop_first() =~= entries.skip(i + 1));
                    assert(entries.skip(i as int)[0] == entries[i as int]);
                    if members[i].key == wanted {
                        return Some(&members[i].value);
                    }
                    i += 1;
                }
                None
            },
            _ => None,
        }
    }

    /// The items, where the document is an array.
    pub fn as_array(&self) -> (items: Option<&Vec<Json>>)
        ensures
            match items {
                Some(items) => self@.items() == Some(models_of(items@)),
                None => self@.items() is None,
            },
    {
        proof {
            lemma_view_of_parts(*self);
        }
        match self {
            Json::Array(items) => Some(items),
            _ => None,
        }
    }

    /// The text, where the document is a string.
    pub fn as_text(&self) -> (text: Option<&String>)
        ensures
            match text {
                Some(text) => self@.text() == Some(text@),
                None => self@.text() is None,
            },
    {
        match self {
            Json::Text(text) => Some(text),
            _ => None,
        }
    }

    /// Whether the document is an object.
    pub fn is_object(&self) -> (yes: bool)
        ensures
            yes == (self@ is Object),
    {
        match self {
            Json::Object(_) => true,
            _ => false,
        }
    }
}

/// The outside document type that the parser builds.
#[verifier::external_type_specification]
#[verifier::external_body]
pub struct ExValue(serde_json::Value);

/// What `serde_json::from_str` makes of `text` when asked for a
/// `serde_json::Value`: the document that the text spells, or, where it is
/// not one JSON value, the parser's description of the error.
pub uninterp spec fn parsed(text: Seq<char>) -> Result<JsonModel, Seq<char>>;

/// Rebuilds a `serde_json::Value` as a [`Json`], variant by variant: a
/// number as its decimal text, an object as its members in the order in
/// which the map hands them out. Nothing is claimed of the result here.
#[verifier::external_body]
fn json_from_value(value: serde_json::Value) -> Json {
    match value {
        serde_json::Value::Null => Json::Null,
        serde_json::Value::Bool(flag) => Json::Bool(flag),
        serde_json::Value::Number(number) => Json::Number(number.to_string()),
        serde_json::Value::String(text) => Json::Text(text),
        serde_json::Value::Array(items) => Json::Array(
            items.into_iter().map(json_from_value).collect(),
        ),
        serde_json::Value::Object(map) => Json::Object(
            map.into_iter().map(|(key, value)| Member { key, value: json_from_value(value) }).collect(),
        ),
    }
}

/// Calls `serde_json::from_str` for a `serde_json::Value`. The outcome is a
/// function of the text alone, which [`parsed`] names: the document
/// rebuilt as a [`Json`], or the text of the parser's error.
#[verifier::external_body]
pub(crate) fn parse(text: &str) -> (outcome: Result<Json, String>)
    ensures
        match outcome {
            Ok(doc) => parsed(text@) == Ok::<JsonModel, Seq<char>>(doc@),
            Err(reason) => parsed(text@) == Err::<JsonModel, Seq<char>>(reason@),
        },
{
    match serde_json::from_str::<serde_json::Value>(text) {
        Ok(value) => Ok(json_from_value(value)),
        Err(error) => Err(error.to_string()),
    }
}

} // verus!

//! JSON documents: a mathematical model, the tree held in memory, and the
//! parser behind it.

use vstd::prelude::*;

verus! {

/// One member of a JSON object, as a mathematical value.
pub struct Member {
    pub name: Seq<char>,
    pub value: Json,
}

/// A JSON document as a mathematical value. A number carries no payload: no
/// decoding rule reads one.
pub enum Json {
    Null,
    Bool(bool),
    Number,
    Text(Seq<char>),
    Array(Seq<Json>),
    /// The members in the order in which the parser hands them out.
    Object(Seq<Member>),
}

/// The value of the first member called `name`, if there is one.
pub open spec fn find_member(members: Seq<Member>, name: Seq<char>) -> Option<Json>
    decreases members.len(),
{
    if members.len() == 0 {
        None
    } else if members[0].name == name {
        Some(members[0].value)
    } else {
        find_member(members.drop_first(), name)
    }
}

impl Json {
    /// The member `name` of an object; `None` where `self` is no object or
    /// has no such member.
    pub open spec fn member(self, name: Seq<char>) -> Option<Json> {
        match self {
            Json::Object(members) => find_member(members, name),
            _ => None,
        }
    }
}

/// One member of a JSON object.
#[derive(Debug)]
pub struct JsonMember {
    pub name: String,
    pub value: JsonValue,
}

/// A JSON document held in memory.
#[derive(Debug)]
pub enum JsonValue {
    Null,
    Bool(bool),
    Number,
    Text(String),
    Array(Vec<JsonValue>),
    Object(Vec<JsonMember>),
}

impl View for JsonValue {
    type V = Json;

    open spec fn view(&self) -> Json
        decreases self,
    {
        match self {
            JsonValue::Null => Json::Null,
            JsonValue::Bool(flag) => Json::Bool(*flag),
            JsonValue::Number => Json::Number,
            JsonValue::Text(text) => Json::Text(text@),
            JsonValue::Array(items) => Json::Array(
                Seq::new(
                    items@.len(),
                    |i: int|
                        if 0 <= i < items@.len() {
                            items@[i].view()
                        } else {
                            Json::Null
                        },
                ),
            ),
            JsonValue::Object(members) => Json::Object(
                Seq::new(
                    members@.len(),
                    |i: int|
                        if 0 <= i < members@.len() {
                            Member { name: members@[i].name@, value: members@[i].value.view() }
                        } else {
                            Member { name: Seq::empty(), value: Json::Null }
                        },
                ),
            ),
        }
    }
}

/// The model of a document that may be missing.
pub open spec fn view_of(parsed: Option<JsonValue>) -> Option<Json> {
    match parsed {
        Some(value) => Some(value@),
        None => None,
    }
}

/// The model of an object lists the models of its members, and the model of
/// an array those of its items.
pub proof fn lemma_view_unfolds(value: JsonValue)
    ensures
        value matches JsonValue::Object(members) ==> {
            &&& value@ matches Json::Object(entries)
            &&& entries.len() == members@.len()
            &&& forall|i: int|
                0 <= i < entries.len() ==> (#[trigger] entries[i]) == (Member {
                    name: members@[i].name@,
                    value: members@[i].value@,
                })
        },
        value matches JsonValue::Array(items) ==> {
            &&& value@ matches Json::Array(models)
            &&& models.len() == items@.len()
            &&& forall|i: int| 0 <= i < models.len() ==> (#[trigger] models[i]) == items@[i]@
        },
{
}

impl JsonValue {
    /// The member `name` of an object.
    pub fn member(&self, name: &str) -> (found: Option<&JsonValue>)
        ensures
            found matches Some(value) ==> self@.member(name@) == Some(value@),
            found is None ==> self@.member(name@) is None,
    {
        match self {
            JsonValue::Object(members) => {
                let key = name.to_owned();
                let ghost entries = self@->Object_0;
                proof {
                    lemma_view_unfolds(*self);
                    assert(entries.skip(0) == entries);
                }
                let mut i: usize = 0;
                while i < members.len()
                    invariant
                        i <= members.len(),
                        key@ == name@,
                        self@ == Json::Object(entries),
                        entries.len() == members.len(),
                        forall|k: int|
                            0 <= k < entries.len() ==> (#[trigger] entries[k]) == (Member {
                                name: members@[k].name@,
                                value: members@[k].value@,
                            }),
                        find_member(entries, name@) == find_member(entries.skip(i as int), name@),
                    decreases members.len() - i,
                {
                    if members[i].name == key {
                        return Some(&members[i].value);
                    }
                    assert(entries.skip(i as int).drop_first() == entries.skip(i + 1));
                    i += 1;
                }
                None
            },
            _ => None,
        }
    }
}

/// What `serde_json::from_str` yields for `text`, read as a [`Json`] document:
/// `None` where the text is not one well-formed JSON document.
pub uninterp spec fn parsed_json(text: Seq<char>) -> Option<Json>;

/// `serde_json::Value`, the document tree that the parser builds. Nothing is
/// read from it here but by [`lift`].
#[verifier::external_type_specification]
#[verifier::external_body]
pub struct ExValue(serde_json::Value);

/// Copies a `serde_json::Value` into a [`JsonValue`], variant for variant,
/// the members of an object in the order in which its map walks them.
/// A number keeps no payload.
#[verifier::external_body]
fn lift(value: serde_json::Value) -> JsonValue {
    match value {
        serde_json::Value::Null => JsonValue::Null,
        serde_json::Value::Bool(flag) => JsonValue::Bool(flag),
        serde_json::Value::Number(_) => JsonValue::Number,
        serde_json::Value::String(text) => JsonValue::Text(text),
        serde_json::Value::Array(items) => JsonValue::Array(items.into_iter().map(lift).collect()),
        serde_json::Value::Object(members) => JsonValue::Object(
            members
                .into_iter()
                .map(|(name, value)| JsonMember { name, value: lift(value) })
                .collect(),
        ),
    }
}

/// Parses `text` with `serde_json::from_str` into a `serde_json::Value` and
/// copies the tree. The contract claims that the outcome depends on the
/// characters of `text` alone, and gives that outcome the name
/// [`parsed_json`]; it says nothing of which texts parse.
#[verifier::external_body]
pub(crate) fn parse_json(text: &str) -> (parsed: Option<JsonValue>)
    ensures
        view_of(parsed) == parsed_json(text@),
{
    serde_json::from_str::<serde_json::Value>(text).ok().map(lift)
}

} // verus!

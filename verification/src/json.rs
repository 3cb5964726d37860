//! Documents of nested lists and named fields.

use crate::model::{no_items, put};
use vstd::prelude::*;

verus! {

/// A document.
#[derive(Debug, PartialEq)]
pub enum Json {
    Null,
    Text(String),
    Number(u64),
    /// A number of thousandths.
    Thousandths(u64),
    List(Vec<Json>),
    Object(Vec<Field>),
}

/// A named field of an object.
#[derive(Debug, PartialEq)]
pub struct Field {
    pub key: String,
    pub value: Json,
}

pub enum JsonM {
    Null,
    Text(Seq<char>),
    Number(u64),
    Thousandths(u64),
    List(Seq<JsonM>),
    Object(Seq<FieldM>),
}

pub struct FieldM {
    pub key: Seq<char>,
    pub value: JsonM,
}

/// The model of a document.
pub open spec fn json_m(j: Json) -> JsonM
    decreases j,
{
    match j {
        Json::Null => JsonM::Null,
        Json::Text(s) => JsonM::Text(s@),
        Json::Number(n) => JsonM::Number(n),
        Json::Thousandths(n) => JsonM::Thousandths(n),
        Json::List(v) => JsonM::List(
            Seq::new(
                v@.len(),
                |i: int| if 0 <= i < v@.len() { json_m(v@[i]) } else { arbitrary() },
            ),
        ),
        Json::Object(v) => JsonM::Object(
            Seq::new(
                v@.len(),
                |i: int|
                    if 0 <= i < v@.len() {
                        FieldM { key: v@[i].key@, value: json_m(v@[i].value) }
                    } else {
                        arbitrary()
                    },
            ),
        ),
    }
}

impl DeepView for Json {
    type V = JsonM;

    open spec fn deep_view(&self) -> JsonM {
        json_m(*self)
    }
}

impl DeepView for Field {
    type V = FieldM;

    open spec fn deep_view(&self) -> FieldM {
        FieldM { key: self.key@, value: json_m(self.value) }
    }
}

/// The list of the documents.
pub fn list(v: Vec<Json>) -> (j: Json)
    ensures
        j.deep_view() == JsonM::List(v.deep_view()),
{
    let j = Json::List(v);
    assert(j.deep_view()->List_0 =~= v.deep_view());
    j
}

/// The object with the fields.
pub fn object(v: Vec<Field>) -> (j: Json)
    ensures
        j.deep_view() == JsonM::Object(v.deep_view()),
{
    let j = Json::Object(v);
    assert(j.deep_view()->Object_0 =~= v.deep_view());
    j
}

/// The text.
pub fn text(s: &str) -> (j: Json)
    ensures
        j.deep_view() == JsonM::Text(s@),
{
    Json::Text(s.to_string())
}

/// The text, if there is one.
pub open spec fn optional(s: Option<Seq<char>>) -> JsonM {
    match s {
        Some(t) => JsonM::Text(t),
        None => JsonM::Null,
    }
}

/// The text, if there is one.
pub fn optional_text(s: &Option<String>) -> (j: Json)
    ensures
        j.deep_view() == optional(s.deep_view()),
{
    match s {
        Some(t) => text(t),
        None => Json::Null,
    }
}

/// The list of the texts.
pub open spec fn listed(v: Seq<Seq<char>>) -> JsonM {
    JsonM::List(v.map_values(|s: Seq<char>| JsonM::Text(s)))
}

/// The list of the texts.
pub fn texts(v: &Vec<String>) -> (j: Json)
    ensures
        j.deep_view() == listed(v.deep_view()),
{
    let ghost all = v.deep_view().map_values(|s: Seq<char>| JsonM::Text(s));
    let mut r = no_items::<Json>();
    let mut i: usize = 0;
    assert(r.deep_view() =~= all.take(0));
    while i < v.len()
        invariant
            i <= v@.len(),
            all == v.deep_view().map_values(|s: Seq<char>| JsonM::Text(s)),
            r.deep_view() == all.take(i as int),
        decreases v@.len() - i,
    {
        put(&mut r, text(&v[i]));
        i = i + 1;
        assert(r.deep_view() =~= all.take(i as int));
    }
    assert(all.take(v@.len() as int) =~= all);
    list(r)
}

/// Puts the field into the object that is built.
pub fn put_field(v: &mut Vec<Field>, key: &str, value: Json)
    ensures
        final(v).deep_view() == old(v).deep_view().push(
            (FieldM { key: key@, value: value.deep_view() }),
        ),
{
    put(v, Field { key: key.to_string(), value });
}

} // verus!

//! JSON values: what a client typed, and what a script reads.

use crate::text::same;
use crate::assoc::mapped;
use crate::vars::{in_order, law_order_is_canonical};
use vstd::prelude::*;

verus! {

#[verifier::external_type_specification]
#[verifier::external_body]
pub struct ExValue(serde_json::Value);

#[verifier::external_type_specification]
#[verifier::external_body]
pub struct ExNumber(serde_json::Number);

/// A JSON document over plain text, its objects in order of their keys.
pub enum DocView {
    Null,
    Bool(bool),
    Number(serde_json::Number),
    String(Seq<char>),
    Array(Seq<DocView>),
    Object(Seq<(Seq<char>, DocView)>),
}

/// What a `serde_json::Value` holds.
pub uninterp spec fn held(value: serde_json::Value) -> DocView;

/// What `serde_json::from_str` reads a text as.
pub uninterp spec fn document(text: Seq<char>) -> Option<DocView>;

/// What `serde_json::Value` prints as, without any space between its parts.
pub uninterp spec fn document_text(doc: DocView) -> Seq<char>;

/// What `serde_json::Number::as_i64` answers.
pub uninterp spec fn whole(number: serde_json::Number) -> Option<i64>;

/// The double nearest to a number, by `serde_json::Number::as_f64`.
pub uninterp spec fn double(number: serde_json::Number) -> serde_json::Number;

/// The number `serde_json` makes of an integer.
pub uninterp spec fn integer(n: i64) -> serde_json::Number;

/// One level of a document, with what is below it still unopened.
pub enum Opened {
    Null,
    Bool(bool),
    Number(serde_json::Number),
    String(String),
    Array(Vec<serde_json::Value>),
    Object(Vec<(String, serde_json::Value)>),
}

/// What the values of an array hold.
pub open spec fn held_items(items: Seq<serde_json::Value>) -> Seq<DocView> {
    items.map_values(|v: serde_json::Value| held(v))
}

/// What the fields of an object hold.
pub open spec fn held_fields(fields: Seq<(String, serde_json::Value)>) -> Seq<
    (Seq<char>, DocView),
> {
    fields.map_values(|f: (String, serde_json::Value)| (f.0@, held(f.1)))
}

/// `serde_json::from_str` reads a text as a document or refuses it, and which
/// it does depends on the text alone.
#[verifier::external_body]
fn read_document(text: &str) -> (r: Option<serde_json::Value>)
    ensures
        match r {
            Some(value) => document(text@) == Some(held(value)),
            None => document(text@) is None,
        },
{
    serde_json::from_str::<serde_json::Value>(text).ok()
}

/// A `serde_json::Value` is one of six kinds, and its map hands its fields out
/// in order of their keys, each key once.
#[verifier::external_body]
fn open_value(value: &serde_json::Value) -> (r: Opened)
    ensures
        match r {
            Opened::Null => held(*value) == DocView::Null,
            Opened::Bool(b) => held(*value) == DocView::Bool(b),
            Opened::Number(n) => held(*value) == DocView::Number(n),
            Opened::String(s) => held(*value) == DocView::String(s@),
            Opened::Array(items) => held(*value) == DocView::Array(held_items(items@)),
            Opened::Object(fields) => held(*value) == DocView::Object(held_fields(fields@))
                && in_order(held_fields(fields@)),
        },
{
    match value {
        serde_json::Value::Null => Opened::Null,
        serde_json::Value::Bool(b) => Opened::Bool(*b),
        serde_json::Value::Number(n) => Opened::Number(n.clone()),
        serde_json::Value::String(s) => Opened::String(s.clone()),
        serde_json::Value::Array(items) => Opened::Array(items.clone()),
        serde_json::Value::Object(fields) => Opened::Object(fields.clone().into_iter().collect()),
    }
}

/// The same six kinds put together: `serde_json`'s map keeps the last of the
/// fields that share a key, and keeps them in order of their keys.
#[verifier::external_body]
fn close_value(opened: Opened) -> (r: serde_json::Value)
    ensures
        match opened {
            Opened::Null => held(r) == DocView::Null,
            Opened::Bool(b) => held(r) == DocView::Bool(b),
            Opened::Number(n) => held(r) == DocView::Number(n),
            Opened::String(s) => held(r) == DocView::String(s@),
            Opened::Array(items) => held(r) == DocView::Array(held_items(items@)),
            Opened::Object(fields) => match held(r) {
                DocView::Object(kept) => in_order(kept) && mapped(kept) == mapped(
                    held_fields(fields@),
                ),
                _ => false,
            },
        },
{
    match opened {
        Opened::Null => serde_json::Value::Null,
        Opened::Bool(b) => serde_json::Value::Bool(b),
        Opened::Number(n) => serde_json::Value::Number(n),
        Opened::String(s) => serde_json::Value::String(s),
        Opened::Array(items) => serde_json::Value::Array(items),
        Opened::Object(fields) => serde_json::Value::Object(fields.into_iter().collect()),
    }
}

/// `serde_json::Number::as_i64` answers the integer a number is, where it is
/// one that fits.
#[verifier::external_body]
fn whole_of(number: &serde_json::Number) -> (r: Option<i64>)
    ensures
        r == whole(*number),
{
    number.as_i64()
}

/// `serde_json::Number::as_f64` answers the double nearest to a number, which
/// is finite and so is a number again by `Number::from_f64`.
#[verifier::external_body]
fn double_of(number: &serde_json::Number) -> (r: serde_json::Number)
    ensures
        r == double(*number),
{
    number.as_f64().and_then(serde_json::Number::from_f64).unwrap_or(number.clone())
}

/// `serde_json::Number` holds any integer exactly: `as_i64` answers it again.
#[verifier::external_body]
fn integer_of(n: i64) -> (r: serde_json::Number)
    ensures
        r == integer(n),
        whole(r) == Some(n),
{
    serde_json::Number::from(n)
}

/// A `serde_json::Number` copied is the same number.
pub assume_specification[ <serde_json::Number as std::clone::Clone>::clone ](
    number: &serde_json::Number,
) -> (r: serde_json::Number)
    ensures
        r == *number,
;

/// A `serde_json::Value` prints itself, and what it prints depends on what it
/// holds alone.
#[verifier::external_body]
fn value_text(value: &serde_json::Value) -> (r: String)
    ensures
        r@ == document_text(held(*value)),
{
    value.to_string()
}

/// A JSON value.
///
/// Objects are pairs in the order they were written rather than a map, and
/// integers are kept apart from other numbers so that a large id never becomes
/// a double.
#[derive(Debug, PartialEq)]
pub enum Json {
    Null,
    Bool(bool),
    Int(i64),
    /// A number that is no integer.
    Float(serde_json::Number),
    String(String),
    Array(Vec<Json>),
    Object(Vec<(String, Json)>),
}

/// [`Json`] over plain text.
pub enum JsonView {
    Null,
    Bool(bool),
    Int(i64),
    Float(serde_json::Number),
    String(Seq<char>),
    Array(Seq<JsonView>),
    Object(Seq<(Seq<char>, JsonView)>),
}

/// A value over plain text.
pub open spec fn json_view(json: Json) -> JsonView
    decreases json,
{
    match json {
        Json::Null => JsonView::Null,
        Json::Bool(b) => JsonView::Bool(b),
        Json::Int(i) => JsonView::Int(i),
        Json::Float(n) => JsonView::Float(n),
        Json::String(s) => JsonView::String(s@),
        Json::Array(items) => JsonView::Array(item_views(items@)),
        Json::Object(fields) => JsonView::Object(field_views(fields@)),
    }
}

/// The values of an array over plain text.
pub open spec fn item_views(items: Seq<Json>) -> Seq<JsonView>
    decreases items,
{
    if items.len() == 0 {
        Seq::empty()
    } else {
        item_views(items.drop_last()).push(json_view(items.last()))
    }
}

/// The fields of an object over plain text.
pub open spec fn field_views(fields: Seq<(String, Json)>) -> Seq<(Seq<char>, JsonView)>
    decreases fields,
{
    if fields.len() == 0 {
        Seq::empty()
    } else {
        field_views(fields.drop_last()).push((fields.last().0@, json_view(fields.last().1)))
    }
}

impl View for Json {
    type V = JsonView;

    open spec fn view(&self) -> JsonView {
        json_view(*self)
    }
}

/// The value a document is: an integer where its number is one, and else the
/// double nearest to it.
pub open spec fn json_of(doc: DocView) -> JsonView
    decreases doc,
{
    match doc {
        DocView::Null => JsonView::Null,
        DocView::Bool(b) => JsonView::Bool(b),
        DocView::Number(n) => match whole(n) {
            Some(i) => JsonView::Int(i),
            None => JsonView::Float(double(n)),
        },
        DocView::String(s) => JsonView::String(s),
        DocView::Array(items) => JsonView::Array(json_items(items)),
        DocView::Object(fields) => JsonView::Object(json_fields(fields)),
    }
}

/// The values of a document's array.
pub open spec fn json_items(items: Seq<DocView>) -> Seq<JsonView>
    decreases items,
{
    if items.len() == 0 {
        Seq::empty()
    } else {
        json_items(items.drop_last()).push(json_of(items.last()))
    }
}

/// The fields of a document's object.
pub open spec fn json_fields(fields: Seq<(Seq<char>, DocView)>) -> Seq<(Seq<char>, JsonView)>
    decreases fields,
{
    if fields.len() == 0 {
        Seq::empty()
    } else {
        json_fields(fields.drop_last()).push((fields.last().0, json_of(fields.last().1)))
    }
}

/// Fields in order of their keys, the last of those that share a key.
pub open spec fn by_key(fields: Seq<(Seq<char>, DocView)>) -> Seq<(Seq<char>, DocView)> {
    choose|kept: Seq<(Seq<char>, DocView)>| in_order(kept) && mapped(kept) == mapped(fields)
}

/// The document a value is printed as.
pub open spec fn doc_of(json: JsonView) -> DocView
    decreases json,
{
    match json {
        JsonView::Null => DocView::Null,
        JsonView::Bool(b) => DocView::Bool(b),
        JsonView::Int(i) => DocView::Number(integer(i)),
        JsonView::Float(n) => DocView::Number(n),
        JsonView::String(s) => DocView::String(s),
        JsonView::Array(items) => DocView::Array(doc_items(items)),
        JsonView::Object(fields) => DocView::Object(by_key(doc_fields(fields))),
    }
}

/// The document values of an array.
pub open spec fn doc_items(items: Seq<JsonView>) -> Seq<DocView>
    decreases items,
{
    if items.len() == 0 {
        Seq::empty()
    } else {
        doc_items(items.drop_last()).push(doc_of(items.last()))
    }
}

/// The document fields of an object, as they were written.
pub open spec fn doc_fields(fields: Seq<(Seq<char>, JsonView)>) -> Seq<(Seq<char>, DocView)>
    decreases fields,
{
    if fields.len() == 0 {
        Seq::empty()
    } else {
        doc_fields(fields.drop_last()).push((fields.last().0, doc_of(fields.last().1)))
    }
}

/// What a value prints as: nothing for null, a string without its quotes, and
/// else the document.
pub open spec fn json_text(json: JsonView) -> Seq<char> {
    match json {
        JsonView::Null => Seq::empty(),
        JsonView::String(s) => s,
        other => document_text(doc_of(other)),
    }
}

/// The first field of a name.
pub open spec fn field_named(fields: Seq<(Seq<char>, JsonView)>, key: Seq<char>) -> Option<JsonView>
    decreases fields.len(),
{
    if fields.len() == 0 {
        None
    } else if fields[0].0 == key {
        Some(fields[0].1)
    } else {
        field_named(fields.skip(1), key)
    }
}

/// Views of a run of fields are the views of each.
proof fn lemma_field_views(fields: Seq<(String, Json)>, i: int)
    requires
        0 <= i < fields.len(),
    ensures
        field_views(fields).len() == fields.len(),
        field_views(fields)[i] == (fields[i].0@, json_view(fields[i].1)),
    decreases fields.len(),
{
    let short = fields.drop_last();
    lemma_field_views_len(short);
    if i < short.len() {
        lemma_field_views(short, i);
    }
}

/// There are as many views of a run of fields as there are fields.
proof fn lemma_field_views_len(fields: Seq<(String, Json)>)
    ensures
        field_views(fields).len() == fields.len(),
    decreases fields.len(),
{
    if fields.len() > 0 {
        lemma_field_views_len(fields.drop_last());
    }
}

/// The value a document is.
pub fn from_value(value: &serde_json::Value) -> (r: Json)
    ensures
        r@ == json_of(held(*value)),
    decreases held(*value),
{
    match open_value(value) {
        Opened::Null => Json::Null,
        Opened::Bool(b) => Json::Bool(b),
        Opened::Number(n) => match whole_of(&n) {
            Some(i) => Json::Int(i),
            None => Json::Float(double_of(&n)),
        },
        Opened::String(s) => Json::String(s),
        Opened::Array(items) => {
            let ghost docs = held_items(items@);
            let mut out: Vec<Json> = Vec::new();
            let mut i: usize = 0;
            while i < items.len()
                invariant
                    i <= items@.len(),
                    docs == held_items(items@),
                    held(*value) == DocView::Array(docs),
                    out@.len() == i,
                    item_views(out@) == json_items(docs.take(i as int)),
                decreases items@.len() - i,
            {
                proof {
                    assert(docs[i as int] == held(items@[i as int]));
                    assert(decreases_to!(held(*value) => held(*value)->Array_0));
                    assert(decreases_to!(docs => docs[i as int]));
                }
                let item = from_value(&items[i]);
                let ghost before = out@;
                out.push(item);
                proof {
                    assert(docs.take(i + 1).drop_last() =~= docs.take(i as int));
                    assert(out@.drop_last() =~= before);
                }
                i = i + 1;
            }
            proof {
                assert(docs.take(docs.len() as int) =~= docs);
            }
            Json::Array(out)
        },
        Opened::Object(fields) => {
            let ghost docs = held_fields(fields@);
            let mut out: Vec<(String, Json)> = Vec::new();
            let mut i: usize = 0;
            while i < fields.len()
                invariant
                    i <= fields@.len(),
                    docs == held_fields(fields@),
                    held(*value) == DocView::Object(docs),
                    out@.len() == i,
                    field_views(out@) == json_fields(docs.take(i as int)),
                decreases fields@.len() - i,
            {
                proof {
                    assert(docs[i as int] == (fields@[i as int].0@, held(fields@[i as int].1)));
                    assert(decreases_to!(held(*value) => held(*value)->Object_0));
                    assert(decreases_to!(docs => docs[i as int]));
                    assert(decreases_to!(docs[i as int] => docs[i as int].1));
                }
                let item = from_value(&fields[i].1);
                let ghost before = out@;
                out.push((fields[i].0.clone(), item));
                proof {
                    assert(docs.take(i + 1).drop_last() =~= docs.take(i as int));
                    assert(out@.drop_last() =~= before);
                }
                i = i + 1;
            }
            proof {
                assert(docs.take(docs.len() as int) =~= docs);
            }
            Json::Object(out)
        },
    }
}

/// The document a value is printed as.
///
/// An integer stays the integer it is, however large.
pub fn to_value(json: &Json) -> (r: serde_json::Value)
    ensures
        held(r) == doc_of(json@),
        json@ is Int ==> json_of(held(r)) == json@,
    decreases json,
{
    match json {
        Json::Null => close_value(Opened::Null),
        Json::Bool(b) => close_value(Opened::Bool(*b)),
        Json::Int(i) => close_value(Opened::Number(integer_of(*i))),
        Json::Float(n) => close_value(Opened::Number(n.clone())),
        Json::String(s) => close_value(Opened::String(s.clone())),
        Json::Array(items) => {
            let mut out: Vec<serde_json::Value> = Vec::new();
            let mut i: usize = 0;
            while i < items.len()
                invariant
                    i <= items@.len(),
                    *json == Json::Array(*items),
                    out@.len() == i,
                    held_items(out@) == doc_items(item_views(items@.take(i as int))),
                decreases items@.len() - i,
            {
                proof {
                    assert(decreases_to!(*json => json->Array_0));
                    assert(decreases_to!(*items => items@));
                    assert(decreases_to!(items@ => items@[i as int]));
                }
                let value = to_value(&items[i]);
                let ghost before = out@;
                out.push(value);
                proof {
                    let now = items@.take(i + 1);
                    assert(now.drop_last() =~= items@.take(i as int));
                    assert(item_views(now).drop_last() =~= item_views(items@.take(i as int)));
                    assert(held_items(out@) =~= held_items(before).push(held(value)));
                }
                i = i + 1;
            }
            proof {
                assert(items@.take(items@.len() as int) =~= items@);
            }
            close_value(Opened::Array(out))
        },
        Json::Object(fields) => {
            let mut out: Vec<(String, serde_json::Value)> = Vec::new();
            let mut i: usize = 0;
            while i < fields.len()
                invariant
                    i <= fields@.len(),
                    *json == Json::Object(*fields),
                    out@.len() == i,
                    held_fields(out@) == doc_fields(field_views(fields@.take(i as int))),
                decreases fields@.len() - i,
            {
                proof {
                    assert(decreases_to!(*json => json->Object_0));
                    assert(decreases_to!(*fields => fields@));
                    assert(decreases_to!(fields@ => fields@[i as int]));
                    assert(decreases_to!(fields@[i as int] => fields@[i as int].1));
                }
                let value = to_value(&fields[i].1);
                let ghost before = out@;
                let key = fields[i].0.clone();
                out.push((key, value));
                proof {
                    let now = fields@.take(i + 1);
                    assert(now.drop_last() =~= fields@.take(i as int));
                    assert(field_views(now).drop_last() =~= field_views(fields@.take(i as int)));
                    assert(held_fields(out@) =~= held_fields(before).push((key@, held(value))));
                }
                i = i + 1;
            }
            proof {
                assert(fields@.take(fields@.len() as int) =~= fields@);
            }
            let r = close_value(Opened::Object(out));
            proof {
                let written = doc_fields(field_views(fields@));
                let kept = held(r)->Object_0;
                assert(in_order(kept) && mapped(kept) == mapped(written));
                law_order_is_canonical(kept, by_key(written));
            }
            r
        },
    }
}

impl Json {
    /// Looks up a key, for an object: its first field of that name.
    pub fn get(&self, key: &str) -> (r: Option<&Json>)
        ensures
            match self@ {
                JsonView::Object(fields) => match r {
                    Some(json) => field_named(fields, key@) == Some(json@),
                    None => field_named(fields, key@) is None,
                },
                _ => r is None,
            },
    {
        match self {
            Json::Object(fields) => {
                let ghost views = field_views(fields@);
                let mut i: usize = 0;
                proof {
                    assert(views.skip(0) =~= views);
                    if fields@.len() > 0 {
                        lemma_field_views(fields@, 0);
                    }
                }
                while i < fields.len()
                    invariant
                        i <= fields@.len(),
                        *self == Json::Object(*fields),
                        views == field_views(fields@),
                        views.len() == fields@.len(),
                        field_named(views, key@) == field_named(views.skip(i as int), key@),
                    decreases fields@.len() - i,
                {
                    proof {
                        lemma_field_views(fields@, i as int);
                        assert(views.skip(i as int)[0] == views[i as int]);
                        assert(views.skip(i as int).skip(1) =~= views.skip(i + 1));
                    }
                    if same(&fields[i].0, key) {
                        return Some(&fields[i].1);
                    }
                    i = i + 1;
                }
                proof {
                    assert(views.skip(i as int).len() == 0);
                }
                None
            },
            _ => None,
        }
    }

    /// What a text that may be a document is, given what it was read as: the
    /// document, or else the text itself.
    pub fn document_or_text(text: &str, read: Option<serde_json::Value>) -> (r: Json)
        ensures
            r@ == match read {
                Some(value) => json_of(held(value)),
                None => JsonView::String(text@),
            },
    {
        match read {
            Some(value) => from_value(&value),
            None => Json::String(text.to_owned()),
        }
    }

    /// Parses JSON, falling back to a plain string: a word is as good a value
    /// as a document.
    pub fn parse_or_string(text: &str) -> (r: Json)
        ensures
            r@ == match document(text@) {
                Some(doc) => json_of(doc),
                None => JsonView::String(text@),
            },
    {
        Json::document_or_text(text, read_document(text))
    }

    /// What a script sees.
    pub fn to_string(&self) -> (r: String)
        ensures
            r@ == json_text(self@),
    {
        match self {
            Json::Null => String::new(),
            Json::String(s) => s.clone(),
            _ => value_text(&to_value(self)),
        }
    }
}

impl Default for Json {
    fn default() -> (r: Self)
        ensures
            r@ == JsonView::Null,
    {
        Json::Null
    }
}

} // verus!

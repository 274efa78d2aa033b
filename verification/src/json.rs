//! JSON, read by `serde_json` one level at a time.

use crate::text;
use serde_json::Value;
use vstd::prelude::*;

verus! {

/// A JSON value. What lists and objects hold is JSON again.
#[derive(Debug, PartialEq)]
pub enum JsonShape {
    Null,
    Bool(bool),
    Number(String),
    Text(String),
    List(Vec<String>),
    Object(Vec<(String, String)>),
}

/// The model of a JSON value.
pub enum ShapeView {
    Null,
    Bool(bool),
    Number(Seq<char>),
    Text(Seq<char>),
    List(Seq<Seq<char>>),
    Object(Seq<(Seq<char>, Seq<char>)>),
}

impl View for JsonShape {
    type V = ShapeView;

    open spec fn view(&self) -> ShapeView {
        match self {
            JsonShape::Null => ShapeView::Null,
            JsonShape::Bool(b) => ShapeView::Bool(*b),
            JsonShape::Number(n) => ShapeView::Number(n@),
            JsonShape::Text(t) => ShapeView::Text(t@),
            JsonShape::List(v) => ShapeView::List(text::texts(v@)),
            JsonShape::Object(v) => ShapeView::Object(text::pair_texts(v@)),
        }
    }
}

/// The value that a text writes, or the reason why it writes none.
pub uninterp spec fn json_value(raw: Seq<char>) -> Result<ShapeView, Seq<char>>;

pub open spec fn shape_view(r: Result<JsonShape, String>) -> Result<ShapeView, Seq<char>> {
    match r {
        Ok(s) => Ok(s@),
        Err(e) => Err(e@),
    }
}

/// `serde_json::from_str` into a `serde_json::Value`, with what it holds written
/// as JSON again. A text writes one value, whatever it is read for.
#[verifier::external_body]
pub(crate) fn parse_json(raw: &str) -> (r: Result<JsonShape, String>)
    ensures
        shape_view(r) == json_value(raw@),
{
    Ok(match serde_json::from_str::<Value>(raw).map_err(|e| e.to_string())? {
        Value::Null => JsonShape::Null,
        Value::Bool(b) => JsonShape::Bool(b),
        Value::Number(n) => JsonShape::Number(n.to_string()),
        Value::String(s) => JsonShape::Text(s),
        Value::Array(v) => JsonShape::List(v.iter().map(|x| x.to_string()).collect()),
        Value::Object(m) => {
            JsonShape::Object(m.into_iter().map(|(k, x)| (k, x.to_string())).collect())
        }
    })
}

/// The elements of the list that a text writes, or the reason why it writes none.
pub uninterp spec fn json_elements(raw: Seq<char>) -> Result<Seq<Seq<char>>, Seq<char>>;

pub open spec fn elements_view(r: Result<Vec<String>, String>) -> Result<
    Seq<Seq<char>>,
    Seq<char>,
> {
    match r {
        Ok(v) => Ok(text::texts(v@)),
        Err(e) => Err(e@),
    }
}

/// `serde_json::from_str` into a list of `serde_json::Value`, each written as JSON
/// again.
#[verifier::external_body]
pub(crate) fn parse_json_list(raw: &str) -> (r: Result<Vec<String>, String>)
    ensures
        elements_view(r) == json_elements(raw@),
{
    let values: Vec<Value> = serde_json::from_str(raw).map_err(|e| e.to_string())?;
    Ok(values.iter().map(|x| x.to_string()).collect())
}

/// The value of a text, where the text writes one.
pub open spec fn json_text(raw: Seq<char>) -> Option<Seq<char>> {
    match json_value(raw) {
        Ok(ShapeView::Text(t)) => Some(t),
        _ => None,
    }
}

pub fn read_text(raw: &str) -> (r: Option<String>)
    ensures
        text::text_option(r) == json_text(raw@),
{
    match parse_json(raw) {
        Ok(JsonShape::Text(t)) => Some(t),
        _ => None,
    }
}

/// The values of some texts, where all of them write one.
pub open spec fn json_texts(raws: Seq<Seq<char>>) -> Option<Seq<Seq<char>>> {
    if forall|i: int| 0 <= i < raws.len() ==> json_text(#[trigger] raws[i]) is Some {
        Some(Seq::new(raws.len(), |i: int| json_text(raws[i])->0))
    } else {
        None
    }
}

pub open spec fn texts_option(o: Option<Vec<String>>) -> Option<Seq<Seq<char>>> {
    match o {
        Some(v) => Some(text::texts(v@)),
        None => None,
    }
}

pub fn read_texts(raws: &Vec<String>) -> (r: Option<Vec<String>>)
    ensures
        texts_option(r) == json_texts(text::texts(raws@)),
{
    let mut r: Vec<String> = Vec::new();
    let mut i: usize = 0;
    while i < raws.len()
        invariant
            i <= raws@.len(),
            r@.len() == i,
            forall|j: int|
                0 <= j < i ==> json_text(text::texts(raws@)[j]) == Some((#[trigger] r@[j])@),
        decreases raws@.len() - i,
    {
        match read_text(raws[i].as_str()) {
            Some(t) => {
                r.push(t);
            },
            None => {
                assert(text::texts(raws@)[i as int] == raws@[i as int]@);
                return None;
            },
        }
        i += 1;
    }
    assert forall|j: int| 0 <= j < text::texts(raws@).len() implies json_text(
        #[trigger] text::texts(raws@)[j],
    ) is Some by {
        assert(json_text(text::texts(raws@)[j]) == Some(r@[j]@));
    }
    assert(text::texts(r@) =~= json_texts(text::texts(raws@))->0);
    Some(r)
}

/// A list is one of texts exactly where each of its items is one, and it is then those texts
/// in their order.
pub proof fn law_lists_of_texts_are_read_item_by_item(raws: Seq<Seq<char>>, i: int)
    requires
        0 <= i < raws.len(),
    ensures
        json_text(raws[i]) is None ==> json_texts(raws) is None,
        (forall|j: int| 0 <= j < raws.len() ==> json_text(#[trigger] raws[j]) is Some)
            ==> json_texts(raws) is Some,
        json_texts(raws) matches Some(texts) ==> texts.len() == raws.len() && json_text(raws[i])
            == Some(texts[i]),
        json_value(raws[i]) is Ok && json_value(raws[i])->Ok_0 is Text ==> json_text(raws[i])
            == Some(json_value(raws[i])->Ok_0->Text_0),
        json_text(raws[i]) is Some <==> json_value(raws[i]) is Ok && json_value(raws[i])->Ok_0
            is Text,
{
}

} // verus!

//! JSON values as plain data, and the parser that produces them.

use vstd::prelude::*;

verus! {

#[verifier::external_type_specification]
#[verifier::external_body]
pub struct ExValue(serde_json::Value);

#[verifier::external_type_specification]
#[verifier::external_body]
pub struct ExError(serde_json::Error);

/// A JSON number, as the parser describes it: its value as a signed
/// 64-bit integer, where it is an integer in that range; its value as an
/// unsigned 64-bit integer, where it is an integer in that range; and its
/// decimal notation. A number written with a fraction or an exponent has
/// neither integer value.
#[derive(Debug, PartialEq)]
pub struct Number {
    pub signed: Option<i64>,
    pub unsigned: Option<u64>,
    pub notation: String,
}

/// A JSON value. The members of an object are kept in the order in which
/// the parser lists them.
#[derive(Debug, PartialEq)]
pub enum Json {
    Null,
    Bool(bool),
    Number(Number),
    Text(String),
    Array(Vec<Json>),
    Object(Vec<(String, Json)>),
}

/// What a `Number` stands for.
pub struct NumberView {
    pub signed: Option<i64>,
    pub unsigned: Option<u64>,
    pub notation: Seq<char>,
}

/// What a `Json` stands for.
pub enum JsonView {
    Null,
    Bool(bool),
    Number(NumberView),
    Text(Seq<char>),
    Array(Seq<JsonView>),
    Object(Seq<(Seq<char>, JsonView)>),
}

impl View for Number {
    type V = NumberView;

    open spec fn view(&self) -> NumberView {
        NumberView { signed: self.signed, unsigned: self.unsigned, notation: self.notation@ }
    }
}

impl View for Json {
    type V = JsonView;

    open spec fn view(&self) -> JsonView
        decreases self,
    {
        match self {
            Json::Null => JsonView::Null,
            Json::Bool(b) => JsonView::Bool(*b),
            Json::Number(n) => JsonView::Number(n@),
            Json::Text(text) => JsonView::Text(text@),
            Json::Array(items) => JsonView::Array(
                Seq::new(
                    items.len() as nat,
                    |i: int|
                        if 0 <= i < items.len() {
                            items[i]@
                        } else {
                            JsonView::Null
                        },
                ),
            ),
            Json::Object(members) => JsonView::Object(
                Seq::new(
                    members.len() as nat,
                    |i: int|
                        if 0 <= i < members.len() {
                            (members[i].0@, members[i].1@)
                        } else {
                            (Seq::empty(), JsonView::Null)
                        },
                ),
            ),
        }
    }
}

/// The members of an object, as its view lists them.
pub open spec fn members_view(members: Seq<(String, Json)>) -> Seq<(Seq<char>, JsonView)> {
    Seq::new(members.len(), |i: int| (members[i].0@, members[i].1@))
}

/// The views of a list of values.
pub open spec fn items_view(items: Seq<Json>) -> Seq<JsonView> {
    Seq::new(items.len(), |i: int| items[i]@)
}

/// The view of an object lists its members in order.
pub proof fn lemma_object_view(members: Vec<(String, Json)>)
    ensures
        Json::Object(members)@ == JsonView::Object(members_view(members@)),
{
    reveal_with_fuel(<Json as View>::view, 2);
    assert(Json::Object(members)@->Object_0 =~= members_view(members@));
}

/// The view of an array lists its items in order.
pub proof fn lemma_array_view(items: Vec<Json>)
    ensures
        Json::Array(items)@ == JsonView::Array(items_view(items@)),
{
    reveal_with_fuel(<Json as View>::view, 2);
    assert(Json::Array(items)@->Array_0 =~= items_view(items@));
}

/// The integer that a number is, where it is one that fits 64 bits,
/// signed or unsigned.
pub open spec fn integer_value(n: NumberView) -> Option<int> {
    match n.signed {
        Some(i) => Some(i as int),
        None => match n.unsigned {
            Some(u) => Some(u as int),
            None => None,
        },
    }
}

impl Number {
    /// A copy of the number.
    pub fn duplicate(&self) -> (n: Number)
        ensures
            n@ == self@,
    {
        Number { signed: self.signed, unsigned: self.unsigned, notation: self.notation.clone() }
    }
}

/// A `serde_json::Value` taken apart by one level: the variant and what it
/// holds, with the items of an array and the members of an object still as
/// the parser's own values.
pub enum Node {
    Null,
    Bool(bool),
    Number(Number),
    Text(String),
    Array(Vec<serde_json::Value>),
    Object(Vec<(String, serde_json::Value)>),
}

/// The value that `serde_json` reads from a text, `None` where it reads
/// none: the text is no JSON, holds more than one value, or nests deeper
/// than the parser follows.
pub uninterp spec fn json_of(bytes: Seq<u8>) -> Option<JsonView>;

/// What a `serde_json::Value` holds.
pub uninterp spec fn held(value: serde_json::Value) -> JsonView;

/// What the items of an array hold.
pub open spec fn held_items(items: Seq<serde_json::Value>) -> Seq<JsonView> {
    Seq::new(items.len(), |i: int| held(items[i]))
}

/// What the members of an object hold.
pub open spec fn held_members(members: Seq<(String, serde_json::Value)>) -> Seq<
    (Seq<char>, JsonView),
> {
    Seq::new(members.len(), |i: int| (members[i].0@, held(members[i].1)))
}

/// What a node holds.
pub open spec fn node_view(node: Node) -> JsonView {
    match node {
        Node::Null => JsonView::Null,
        Node::Bool(b) => JsonView::Bool(b),
        Node::Number(n) => JsonView::Number(n@),
        Node::Text(text) => JsonView::Text(text@),
        Node::Array(items) => JsonView::Array(held_items(items@)),
        Node::Object(members) => JsonView::Object(held_members(members@)),
    }
}

/// `serde_json::from_slice` at the type `serde_json::Value`. What is read
/// is a function of the bytes alone.
#[verifier::external_body]
fn read_value(bytes: &[u8]) -> (r: Result<serde_json::Value, serde_json::Error>)
    ensures
        match r {
            Ok(value) => json_of(bytes@) == Some(held(value)),
            Err(_) => json_of(bytes@) is None,
        },
{
    serde_json::from_slice::<serde_json::Value>(bytes)
}

/// Tells the variants of a `serde_json::Value` apart and moves out what the
/// value holds. A number is described by `Number::as_i64`, `Number::as_u64`
/// and its `Display` text; the members of an object come in the order in
/// which `serde_json::Map` hands them out.
#[verifier::external_body]
fn open(value: serde_json::Value) -> (node: Node)
    ensures
        held(value) == node_view(node),
{
    match value {
        serde_json::Value::Null => Node::Null,
        serde_json::Value::Bool(b) => Node::Bool(b),
        serde_json::Value::Number(n) => Node::Number(
            Number { signed: n.as_i64(), unsigned: n.as_u64(), notation: n.to_string() },
        ),
        serde_json::Value::String(s) => Node::Text(s),
        serde_json::Value::Array(items) => Node::Array(items),
        serde_json::Value::Object(members) => Node::Object(members.into_iter().collect()),
    }
}

/// The `Display` text of a `serde_json::Error`: the parser's own words for
/// what is wrong and where. Nothing is claimed of it.
#[verifier::external_body]
fn describe(e: &serde_json::Error) -> (words: String) {
    e.to_string()
}

/// Turns a value of the parser into a `Json` that holds the same.
fn lift(value: serde_json::Value) -> (json: Json)
    ensures
        json@ == held(value),
    decreases held(value),
{
    match open(value) {
        Node::Null => Json::Null,
        Node::Bool(b) => Json::Bool(b),
        Node::Number(n) => Json::Number(n),
        Node::Text(text) => Json::Text(text),
        Node::Array(items) => {
            let ghost all = items@;
            let ghost whole = held(value);
            let mut lifted: Vec<Json> = Vec::new();
            for item in it: items
                invariant
                    it.seq() == all,
                    whole == JsonView::Array(held_items(all)),
                    whole == held(value),
                    lifted@.len() == it.index(),
                    forall|j: int| 0 <= j < lifted@.len() ==> (#[trigger] lifted@[j])@ == held(all[j]),
            {
                proof {
                    let listed = whole->Array_0;
                    let k = it.index() as int;
                    assert(listed[k] == held(item));
                    assert(decreases_to!(whole => listed));
                    assert(decreases_to!(listed => listed[k]));
                }
                lifted.push(lift(item));
            }
            proof {
                lemma_array_view(lifted);
                assert(items_view(lifted@) =~= held_items(all));
            }
            Json::Array(lifted)
        },
        Node::Object(members) => {
            let ghost all = members@;
            let ghost whole = held(value);
            let mut lifted: Vec<(String, Json)> = Vec::new();
            for member in it: members
                invariant
                    it.seq() == all,
                    whole == JsonView::Object(held_members(all)),
                    whole == held(value),
                    lifted@.len() == it.index(),
                    forall|j: int|
                        0 <= j < lifted@.len() ==> (#[trigger] lifted@[j]).0@ == all[j].0@
                            && lifted@[j].1@ == held(all[j].1),
            {
                proof {
                    let listed = whole->Object_0;
                    let k = it.index() as int;
                    assert(listed[k] == (member.0@, held(member.1)));
                    assert(decreases_to!(whole => listed));
                    assert(decreases_to!(listed => listed[k]));
                    assert(decreases_to!(listed[k] => listed[k].1));
                }
                let (key, inner) = member;
                lifted.push((key, lift(inner)));
            }
            proof {
                lemma_object_view(lifted);
                assert(members_view(lifted@) =~= held_members(all));
            }
            Json::Object(lifted)
        },
    }
}

/// Parses a text as one JSON value. The error is the parser's message.
pub fn parse(bytes: &[u8]) -> (r: Result<Json, String>)
    ensures
        match r {
            Ok(json) => json_of(bytes@) == Some(json@),
            Err(_) => json_of(bytes@) is None,
        },
{
    match read_value(bytes) {
        Ok(value) => Ok(lift(value)),
        Err(e) => Err(describe(&e)),
    }
}

} // verus!

//! The documents that a store receives, as plain data, and how records are
//! written as documents.

use crate::json::{integer_value, JsonView, Number, NumberView};
use crate::record::{area_of, member, Area, AreaView, Candidate, CandidateView};
use vstd::prelude::*;
use vstd::string::*;

verus! {

/// An element of a document. `Int32` is a 32-bit integer and stays one;
/// `Single` is a number that the store keeps as the double nearest to its
/// single-precision value. The fields of a `Document` keep their order.
#[derive(Debug, PartialEq)]
pub enum Element {
    Null,
    Boolean(bool),
    Int32(i32),
    Text(String),
    Single(Number),
    Array(Vec<Element>),
    Document(Vec<(String, Element)>),
}

/// One document of a bulk insert: named fields, in order.
#[derive(Debug, PartialEq)]
pub struct Document {
    pub fields: Vec<(String, Element)>,
}

/// What a `Element` stands for.
pub enum ElementView {
    Null,
    Boolean(bool),
    Int32(i32),
    Text(Seq<char>),
    Single(NumberView),
    Array(Seq<ElementView>),
    Document(Seq<(Seq<char>, ElementView)>),
}

impl View for Element {
    type V = ElementView;

    open spec fn view(&self) -> ElementView
        decreases self,
    {
        match self {
            Element::Null => ElementView::Null,
            Element::Boolean(b) => ElementView::Boolean(*b),
            Element::Int32(i) => ElementView::Int32(*i),
            Element::Text(text) => ElementView::Text(text@),
            Element::Single(n) => ElementView::Single(n@),
            Element::Array(items) => ElementView::Array(
                Seq::new(
                    items.len() as nat,
                    |i: int|
                        if 0 <= i < items.len() {
                            items[i]@
                        } else {
                            ElementView::Null
                        },
                ),
            ),
            Element::Document(fields) => ElementView::Document(
                Seq::new(
                    fields.len() as nat,
                    |i: int|
                        if 0 <= i < fields.len() {
                            (fields[i].0@, fields[i].1@)
                        } else {
                            (Seq::empty(), ElementView::Null)
                        },
                ),
            ),
        }
    }
}

/// The fields of a document, as its view lists them.
pub open spec fn fields_view(fields: Seq<(String, Element)>) -> Seq<(Seq<char>, ElementView)> {
    Seq::new(fields.len(), |i: int| (fields[i].0@, fields[i].1@))
}

/// The views of a list of elements.
pub open spec fn elements_view(values: Seq<Element>) -> Seq<ElementView> {
    Seq::new(values.len(), |i: int| values[i]@)
}

impl View for Document {
    type V = Seq<(Seq<char>, ElementView)>;

    open spec fn view(&self) -> Seq<(Seq<char>, ElementView)> {
        fields_view(self.fields@)
    }
}

/// The views of a list of documents.
pub open spec fn documents_view(documents: Seq<Document>) -> Seq<Seq<(Seq<char>, ElementView)>> {
    Seq::new(documents.len(), |i: int| documents[i]@)
}

/// The view of a document value lists its fields in order.
pub proof fn lemma_document_view(fields: Vec<(String, Element)>)
    ensures
        Element::Document(fields)@ == ElementView::Document(fields_view(fields@)),
{
    reveal_with_fuel(<Element as View>::view, 2);
    assert(Element::Document(fields)@->Document_0 =~= fields_view(fields@));
}

/// The view of an array value lists its items in order.
pub proof fn lemma_array_element_view(items: Vec<Element>)
    ensures
        Element::Array(items)@ == ElementView::Array(elements_view(items@)),
{
    reveal_with_fuel(<Element as View>::view, 2);
    assert(Element::Array(items)@->Array_0 =~= elements_view(items@));
}

/// An optional 32-bit integer: `null` when unknown.
pub open spec fn optional_int32(i: Option<i32>) -> ElementView {
    match i {
        Some(i) => ElementView::Int32(i),
        None => ElementView::Null,
    }
}

/// An optional 16-bit integer, widened: `null` when unknown.
pub open spec fn optional_int16(i: Option<i16>) -> ElementView {
    match i {
        Some(i) => ElementView::Int32(i as i32),
        None => ElementView::Null,
    }
}

/// An optional 8-bit integer, widened: `null` when unknown.
pub open spec fn optional_int8(i: Option<i8>) -> ElementView {
    match i {
        Some(i) => ElementView::Int32(i as i32),
        None => ElementView::Null,
    }
}

/// An optional single-precision number: `null` when unknown.
pub open spec fn optional_single(n: Option<NumberView>) -> ElementView {
    match n {
        Some(n) => ElementView::Single(n),
        None => ElementView::Null,
    }
}

/// A list of counts as an array of 32-bit integers.
pub open spec fn counts_value(counts: Seq<i32>) -> ElementView {
    ElementView::Array(Seq::new(counts.len(), |i: int| ElementView::Int32(counts[i])))
}

/// The fields of a candidate's document: one per field of the candidate,
/// under the field's name, in the order of declaration.
pub open spec fn candidate_fields(c: CandidateView) -> Seq<(Seq<char>, ElementView)> {
    seq![
        ("counts"@, counts_value(c.counts)),
        ("elected"@, ElementView::Boolean(c.elected)),
        ("first_pref_pc"@, optional_single(c.first_pref_pc)),
        ("full_name"@, ElementView::Text(c.full_name)),
        ("party"@, ElementView::Text(c.party)),
        ("transfers"@, optional_int32(c.transfers)),
        ("transfers_pc"@, optional_single(c.transfers_pc)),
    ]
}

/// A list of candidates as an array of documents, in order.
pub open spec fn candidates_value(candidates: Seq<CandidateView>) -> ElementView {
    ElementView::Array(
        Seq::new(candidates.len(), |i: int| ElementView::Document(candidate_fields(candidates[i]))),
    )
}

/// The fields of a record's document: one per field of the record, under
/// the field's name, in the order of declaration. Integers of every width
/// become 32-bit integers of the same value.
pub open spec fn area_fields(a: AreaView) -> Seq<(Seq<char>, ElementView)> {
    seq![
        ("area_type"@, ElementView::Text(a.area_type)),
        ("candidates"@, candidates_value(a.candidates)),
        ("counts_held"@, optional_int8(a.counts_held)),
        ("description"@, ElementView::Text(a.description)),
        ("election_type"@, ElementView::Text(a.election_type)),
        ("electorate"@, optional_int32(a.electorate)),
        ("name"@, ElementView::Text(a.name)),
        ("quota"@, optional_int32(a.quota)),
        ("spoilt"@, optional_int16(a.spoilt)),
        ("turnout"@, optional_int32(a.turnout)),
        ("valid"@, optional_int32(a.valid)),
        ("year"@, ElementView::Int32(a.year as i32)),
    ]
}

/// Encoding keeps integers: a record's count of valid votes is written
/// under `valid` as the 32-bit integer of the same value.
pub proof fn lemma_valid_is_kept(a: AreaView, valid: i32)
    requires
        a.valid == Some(valid),
    ensures
        area_fields(a).len() == 12,
        area_fields(a)[10] == ("valid"@, ElementView::Int32(valid)),
{
}

/// A count of valid votes that a JSON object gives as an integer of 32
/// signed bits reaches the record's document unchanged.
pub proof fn lemma_valid_read_is_valid_written(
    m: Seq<(Seq<char>, JsonView)>,
    n: NumberView,
    valid: i32,
)
    requires
        member(m, "valid"@) == Some(JsonView::Number(n)),
        integer_value(n) == Some(valid as int),
        area_of(JsonView::Object(m)) is Some,
    ensures
        area_fields(area_of(JsonView::Object(m))->Some_0)[10] == (
            "valid"@,
            ElementView::Int32(valid),
        ),
{
}

/// The documents among a list of elements, in order.
pub open spec fn documents_in(values: Seq<ElementView>) -> Seq<Seq<(Seq<char>, ElementView)>>
    decreases values.len(),
{
    if values.len() == 0 {
        Seq::empty()
    } else {
        match values.last() {
            ElementView::Document(fields) => documents_in(values.drop_last()).push(fields),
            _ => documents_in(values.drop_last()),
        }
    }
}

fn int32_or_null(i: Option<i32>) -> (v: Element)
    ensures
        v@ == optional_int32(i),
{
    match i {
        Some(i) => Element::Int32(i),
        None => Element::Null,
    }
}

fn int16_or_null(i: Option<i16>) -> (v: Element)
    ensures
        v@ == optional_int16(i),
{
    match i {
        Some(i) => Element::Int32(i as i32),
        None => Element::Null,
    }
}

fn int8_or_null(i: Option<i8>) -> (v: Element)
    ensures
        v@ == optional_int8(i),
{
    match i {
        Some(i) => Element::Int32(i as i32),
        None => Element::Null,
    }
}

fn single_or_null(n: &Option<Number>) -> (v: Element)
    ensures
        v@ == optional_single(crate::record::number_view(*n)),
{
    match n {
        Some(n) => Element::Single(n.duplicate()),
        None => Element::Null,
    }
}

fn text_value(text: &String) -> (v: Element)
    ensures
        v@ == ElementView::Text(text@),
{
    Element::Text(text.clone())
}

fn counts_array(counts: &Vec<i32>) -> (v: Element)
    ensures
        v@ == counts_value(counts@),
{
    let mut items: Vec<Element> = Vec::new();
    let mut i: usize = 0;
    while i < counts.len()
        invariant
            i <= counts.len(),
            items@.len() == i,
            forall|j: int| 0 <= j < i ==> (#[trigger] items@[j])@ == ElementView::Int32(counts@[j]),
        decreases counts.len() - i,
    {
        items.push(Element::Int32(counts[i]));
        i += 1;
    }
    proof {
        lemma_array_element_view(items);
        assert(elements_view(items@) =~= counts_value(counts@)->Array_0);
    }
    Element::Array(items)
}

fn field(name: &str, value: Element) -> (f: (String, Element))
    ensures
        f.0@ == name@,
        f.1 == value,
{
    (String::from_str(name), value)
}

impl Candidate {
    /// Writes the candidate as the fields of a document.
    pub fn to_fields(&self) -> (fields: Vec<(String, Element)>)
        ensures
            fields_view(fields@) == candidate_fields(self@),
    {
        let mut fields: Vec<(String, Element)> = Vec::new();
        fields.push(field("counts", counts_array(&self.counts)));
        fields.push(field("elected", Element::Boolean(self.elected)));
        fields.push(field("first_pref_pc", single_or_null(&self.first_pref_pc)));
        fields.push(field("full_name", text_value(&self.full_name)));
        fields.push(field("party", text_value(&self.party)));
        fields.push(field("transfers", int32_or_null(self.transfers)));
        fields.push(field("transfers_pc", single_or_null(&self.transfers_pc)));
        assert(fields_view(fields@) =~= candidate_fields(self@));
        fields
    }
}

fn candidates_array(candidates: &Vec<Candidate>) -> (v: Element)
    ensures
        v@ == candidates_value(crate::record::candidate_views(candidates@)),
{
    let mut items: Vec<Element> = Vec::new();
    let mut i: usize = 0;
    while i < candidates.len()
        invariant
            i <= candidates.len(),
            items@.len() == i,
            forall|j: int|
                0 <= j < i ==> (#[trigger] items@[j])@ == ElementView::Document(
                    candidate_fields(candidates@[j]@),
                ),
        decreases candidates.len() - i,
    {
        let fields = candidates[i].to_fields();
        proof {
            lemma_document_view(fields);
        }
        items.push(Element::Document(fields));
        i += 1;
    }
    proof {
        lemma_array_element_view(items);
        assert(elements_view(items@) =~= candidates_value(
            crate::record::candidate_views(candidates@),
        )->Array_0);
    }
    Element::Array(items)
}

impl Area {
    /// Writes the record as an element: always a document, with the fields of
    /// `area_fields`.
    pub fn encode(&self) -> (v: Element)
        ensures
            v@ == ElementView::Document(area_fields(self@)),
    {
        let mut fields: Vec<(String, Element)> = Vec::new();
        fields.push(field("area_type", text_value(&self.area_type)));
        fields.push(field("candidates", candidates_array(&self.candidates)));
        fields.push(field("counts_held", int8_or_null(self.counts_held)));
        fields.push(field("description", text_value(&self.description)));
        fields.push(field("election_type", text_value(&self.election_type)));
        fields.push(field("electorate", int32_or_null(self.electorate)));
        fields.push(field("name", text_value(&self.name)));
        fields.push(field("quota", int32_or_null(self.quota)));
        fields.push(field("spoilt", int16_or_null(self.spoilt)));
        fields.push(field("turnout", int32_or_null(self.turnout)));
        fields.push(field("valid", int32_or_null(self.valid)));
        fields.push(field("year", Element::Int32(self.year as i32)));
        proof {
            lemma_document_view(fields);
            assert(fields_view(fields@) =~= area_fields(self@));
        }
        Element::Document(fields)
    }
}

} // verus!

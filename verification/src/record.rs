//! Constituency records and how they are read from JSON.

use crate::json::{
    integer_value, items_view, json_of, lemma_array_view, lemma_object_view, members_view, parse, Json, JsonView,
    Number, NumberView,
};
use vstd::prelude::*;
use vstd::string::*;

verus! {

/// One candidate's result within a constituency.
///
/// The two percentages are kept as the numbers that the source gives; they
/// are rounded to single precision where they are handed to the store.
#[derive(Debug, PartialEq)]
pub struct Candidate {
    pub counts: Vec<i32>,
    pub elected: bool,
    pub first_pref_pc: Option<Number>,
    pub full_name: String,
    pub party: String,
    pub transfers: Option<i32>,
    pub transfers_pc: Option<Number>,
}

/// One constituency's result for one year.
#[derive(Debug, PartialEq)]
pub struct Area {
    pub area_type: String,
    pub candidates: Vec<Candidate>,
    pub counts_held: Option<i8>,
    pub description: String,
    pub election_type: String,
    pub electorate: Option<i32>,
    pub name: String,
    pub quota: Option<i32>,
    pub spoilt: Option<i16>,
    pub turnout: Option<i32>,
    pub valid: Option<i32>,
    pub year: i16,
}

/// What a `Candidate` stands for.
pub struct CandidateView {
    pub counts: Seq<i32>,
    pub elected: bool,
    pub first_pref_pc: Option<NumberView>,
    pub full_name: Seq<char>,
    pub party: Seq<char>,
    pub transfers: Option<i32>,
    pub transfers_pc: Option<NumberView>,
}

/// What an `Area` stands for.
pub struct AreaView {
    pub area_type: Seq<char>,
    pub candidates: Seq<CandidateView>,
    pub counts_held: Option<i8>,
    pub description: Seq<char>,
    pub election_type: Seq<char>,
    pub electorate: Option<i32>,
    pub name: Seq<char>,
    pub quota: Option<i32>,
    pub spoilt: Option<i16>,
    pub turnout: Option<i32>,
    pub valid: Option<i32>,
    pub year: i16,
}

/// Why a text is no record.
#[derive(Debug, PartialEq)]
pub enum DecodeError {
    /// The text is not one JSON value; the parser's message is kept.
    Malformed(String),
    /// The value is no object, or a field that is present has the wrong
    /// type or a number out of the field's range.
    Mismatch,
}

/// The view of an optional number.
pub open spec fn number_view(n: Option<Number>) -> Option<NumberView> {
    match n {
        Some(n) => Some(n@),
        None => None,
    }
}

impl View for Candidate {
    type V = CandidateView;

    open spec fn view(&self) -> CandidateView {
        CandidateView {
            counts: self.counts@,
            elected: self.elected,
            first_pref_pc: number_view(self.first_pref_pc),
            full_name: self.full_name@,
            party: self.party@,
            transfers: self.transfers,
            transfers_pc: number_view(self.transfers_pc),
        }
    }
}

/// The views of a list of candidates.
pub open spec fn candidate_views(candidates: Seq<Candidate>) -> Seq<CandidateView> {
    Seq::new(candidates.len(), |i: int| candidates[i]@)
}

impl View for Area {
    type V = AreaView;

    open spec fn view(&self) -> AreaView {
        AreaView {
            area_type: self.area_type@,
            candidates: candidate_views(self.candidates@),
            counts_held: self.counts_held,
            description: self.description@,
            election_type: self.election_type@,
            electorate: self.electorate,
            name: self.name@,
            quota: self.quota,
            spoilt: self.spoilt,
            turnout: self.turnout,
            valid: self.valid,
            year: self.year,
        }
    }
}

/// The views of a list of records.
pub open spec fn area_views(areas: Seq<Area>) -> Seq<AreaView> {
    Seq::new(areas.len(), |i: int| areas[i]@)
}

/// The candidate in which every field has its default.
pub open spec fn default_candidate() -> CandidateView {
    CandidateView {
        counts: Seq::empty(),
        elected: false,
        first_pref_pc: None,
        full_name: Seq::empty(),
        party: Seq::empty(),
        transfers: None,
        transfers_pc: None,
    }
}

/// The record in which every field has its default.
pub open spec fn default_area() -> AreaView {
    AreaView {
        area_type: Seq::empty(),
        candidates: Seq::empty(),
        counts_held: None,
        description: Seq::empty(),
        election_type: Seq::empty(),
        electorate: None,
        name: Seq::empty(),
        quota: None,
        spoilt: None,
        turnout: None,
        valid: None,
        year: 0,
    }
}

/// The value of the first member with the given key.
pub open spec fn member(members: Seq<(Seq<char>, JsonView)>, key: Seq<char>) -> Option<JsonView>
    decreases members.len(),
{
    if members.len() == 0 {
        None
    } else if members.first().0 == key {
        Some(members.first().1)
    } else {
        member(members.drop_first(), key)
    }
}

/// The integer that a value holds, where it is an integer between `lo` and
/// `hi`. A number written with a fraction or an exponent is no integer.
pub open spec fn integer_in(v: JsonView, lo: int, hi: int) -> Option<int> {
    match v {
        JsonView::Number(n) => match integer_value(n) {
            Some(i) => if lo <= i <= hi {
                Some(i)
            } else {
                None
            },
            None => None,
        },
        _ => None,
    }
}

/// A text field: empty when absent, else the member must be a string.
/// `None` stands for a mismatch, here and in the functions below.
pub open spec fn text_field(m: Option<JsonView>) -> Option<Seq<char>> {
    match m {
        None => Some(Seq::empty()),
        Some(JsonView::Text(text)) => Some(text),
        Some(_) => None,
    }
}

/// A flag: false when absent, else the member must be `true` or `false`.
pub open spec fn flag_field(m: Option<JsonView>) -> Option<bool> {
    match m {
        None => Some(false),
        Some(JsonView::Bool(b)) => Some(b),
        Some(_) => None,
    }
}

/// An integer field: zero when absent, else the member must be an integer
/// in the field's range.
pub open spec fn integer_field(m: Option<JsonView>, lo: int, hi: int) -> Option<int> {
    match m {
        None => Some(0),
        Some(v) => integer_in(v, lo, hi),
    }
}

/// An optional integer field: unknown when absent or `null`, else the
/// member must be an integer in the field's range.
pub open spec fn optional_integer_field(m: Option<JsonView>, lo: int, hi: int) -> Option<
    Option<int>,
> {
    match m {
        None => Some(None),
        Some(JsonView::Null) => Some(None),
        Some(v) => match integer_in(v, lo, hi) {
            Some(i) => Some(Some(i)),
            None => None,
        },
    }
}

/// An optional number field: unknown when absent or `null`, else the
/// member must be a number, of any form.
pub open spec fn optional_number_field(m: Option<JsonView>) -> Option<Option<NumberView>> {
    match m {
        None => Some(None),
        Some(JsonView::Null) => Some(None),
        Some(JsonView::Number(n)) => Some(Some(n)),
        Some(_) => None,
    }
}

/// A list of counts: every item must be an integer of 32 signed bits.
pub open spec fn counts_of(items: Seq<JsonView>) -> Option<Seq<i32>> {
    if forall|i: int|
        0 <= i < items.len() ==> integer_in(#[trigger] items[i], i32::MIN as int, i32::MAX as int)
            is Some {
        Some(
            Seq::new(
                items.len(),
                |i: int| integer_in(items[i], i32::MIN as int, i32::MAX as int)->Some_0 as i32,
            ),
        )
    } else {
        None
    }
}

/// The field of counts: empty when absent, else the member must be an
/// array of counts.
pub open spec fn counts_field(m: Option<JsonView>) -> Option<Seq<i32>> {
    match m {
        None => Some(Seq::empty()),
        Some(JsonView::Array(items)) => counts_of(items),
        Some(_) => None,
    }
}

/// As `i32`, `i16` or `i8`, where the integer is known to fit.
pub open spec fn narrow32(i: Option<int>) -> Option<i32> {
    match i {
        Some(i) => Some(i as i32),
        None => None,
    }
}

pub open spec fn narrow16(i: Option<int>) -> Option<i16> {
    match i {
        Some(i) => Some(i as i16),
        None => None,
    }
}

pub open spec fn narrow8(i: Option<int>) -> Option<i8> {
    match i {
        Some(i) => Some(i as i8),
        None => None,
    }
}

/// The candidate that a JSON value describes: the value must be an object,
/// a field that is absent takes its default, a field that is present must
/// have the field's type, and members with other keys are passed over.
pub open spec fn candidate_of(v: JsonView) -> Option<CandidateView> {
    match v {
        JsonView::Object(m) => {
            let counts = counts_field(member(m, "counts"@));
            let elected = flag_field(member(m, "elected"@));
            let first_pref_pc = optional_number_field(member(m, "first_pref_pc"@));
            let full_name = text_field(member(m, "full_name"@));
            let party = text_field(member(m, "party"@));
            let transfers = optional_integer_field(
                member(m, "transfers"@),
                i32::MIN as int,
                i32::MAX as int,
            );
            let transfers_pc = optional_number_field(member(m, "transfers_pc"@));
            if counts is Some && elected is Some && first_pref_pc is Some && full_name is Some
                && party is Some && transfers is Some && transfers_pc is Some {
                Some(
                    CandidateView {
                        counts: counts->Some_0,
                        elected: elected->Some_0,
                        first_pref_pc: first_pref_pc->Some_0,
                        full_name: full_name->Some_0,
                        party: party->Some_0,
                        transfers: narrow32(transfers->Some_0),
                        transfers_pc: transfers_pc->Some_0,
                    },
                )
            } else {
                None
            }
        },
        _ => None,
    }
}

/// A list of candidates: every item must describe a candidate.
pub open spec fn candidates_of(items: Seq<JsonView>) -> Option<Seq<CandidateView>> {
    if forall|i: int| 0 <= i < items.len() ==> candidate_of(#[trigger] items[i]) is Some {
        Some(Seq::new(items.len(), |i: int| candidate_of(items[i])->Some_0))
    } else {
        None
    }
}

/// The field of candidates: empty when absent, else the member must be an
/// array of candidates. Their order is kept.
pub open spec fn candidates_field(m: Option<JsonView>) -> Option<Seq<CandidateView>> {
    match m {
        None => Some(Seq::empty()),
        Some(JsonView::Array(items)) => candidates_of(items),
        Some(_) => None,
    }
}

/// The record that a JSON value describes, under the same rules as for a
/// candidate.
pub open spec fn area_of(v: JsonView) -> Option<AreaView> {
    match v {
        JsonView::Object(m) => {
            let area_type = text_field(member(m, "area_type"@));
            let candidates = candidates_field(member(m, "candidates"@));
            let counts_held = optional_integer_field(
                member(m, "counts_held"@),
                i8::MIN as int,
                i8::MAX as int,
            );
            let description = text_field(member(m, "description"@));
            let election_type = text_field(member(m, "election_type"@));
            let electorate = optional_integer_field(
                member(m, "electorate"@),
                i32::MIN as int,
                i32::MAX as int,
            );
            let name = text_field(member(m, "name"@));
            let quota = optional_integer_field(
                member(m, "quota"@),
                i32::MIN as int,
                i32::MAX as int,
            );
            let spoilt = optional_integer_field(
                member(m, "spoilt"@),
                i16::MIN as int,
                i16::MAX as int,
            );
            let turnout = optional_integer_field(
                member(m, "turnout"@),
                i32::MIN as int,
                i32::MAX as int,
            );
            let valid = optional_integer_field(
                member(m, "valid"@),
                i32::MIN as int,
                i32::MAX as int,
            );
            let year = integer_field(member(m, "year"@), i16::MIN as int, i16::MAX as int);
            if area_type is Some && candidates is Some && counts_held is Some && description
                is Some && election_type is Some && electorate is Some && name is Some && quota
                is Some && spoilt is Some && turnout is Some && valid is Some && year is Some {
                Some(
                    AreaView {
                        area_type: area_type->Some_0,
                        candidates: candidates->Some_0,
                        counts_held: narrow8(counts_held->Some_0),
                        description: description->Some_0,
                        election_type: election_type->Some_0,
                        electorate: narrow32(electorate->Some_0),
                        name: name->Some_0,
                        quota: narrow32(quota->Some_0),
                        spoilt: narrow16(spoilt->Some_0),
                        turnout: narrow32(turnout->Some_0),
                        valid: narrow32(valid->Some_0),
                        year: year->Some_0 as i16,
                    },
                )
            } else {
                None
            }
        },
        _ => None,
    }
}

/// The record that a text describes, and the error where it describes
/// none; the parser's message is left open.
pub open spec fn decoded(bytes: Seq<u8>, r: Result<AreaView, DecodeError>) -> bool {
    match json_of(bytes) {
        None => r matches Err(DecodeError::Malformed(_)),
        Some(v) => match area_of(v) {
            None => r matches Err(DecodeError::Mismatch),
            Some(area) => r == Ok::<AreaView, DecodeError>(area),
        },
    }
}

impl Default for Candidate {
    /// The candidate in which every field has its default.
    fn default() -> (candidate: Candidate)
        ensures
            candidate@ == default_candidate(),
    {
        Candidate {
            counts: Vec::new(),
            elected: false,
            first_pref_pc: None,
            full_name: String::new(),
            party: String::new(),
            transfers: None,
            transfers_pc: None,
        }
    }
}

impl Default for Area {
    /// The record in which every field has its default.
    fn default() -> (area: Area)
        ensures
            area@ == default_area(),
    {
        let area = Area {
            area_type: String::new(),
            candidates: Vec::new(),
            counts_held: None,
            description: String::new(),
            election_type: String::new(),
            electorate: None,
            name: String::new(),
            quota: None,
            spoilt: None,
            turnout: None,
            valid: None,
            year: 0,
        };
        assert(area@.candidates =~= Seq::<CandidateView>::empty());
        area
    }
}

/// Whether an object holds none of a record's fields but, perhaps, `name`.
pub open spec fn only_name(m: Seq<(Seq<char>, JsonView)>) -> bool {
    &&& member(m, "area_type"@) is None
    &&& member(m, "candidates"@) is None
    &&& member(m, "counts_held"@) is None
    &&& member(m, "description"@) is None
    &&& member(m, "election_type"@) is None
    &&& member(m, "electorate"@) is None
    &&& member(m, "quota"@) is None
    &&& member(m, "spoilt"@) is None
    &&& member(m, "turnout"@) is None
    &&& member(m, "valid"@) is None
    &&& member(m, "year"@) is None
}

/// Decoding never fails for want of a field: an object that holds none of
/// a record's fields describes the default record, whatever else it holds.
pub proof fn lemma_absent_fields_default(m: Seq<(Seq<char>, JsonView)>)
    requires
        only_name(m),
        member(m, "name"@) is None,
    ensures
        area_of(JsonView::Object(m)) == Some(default_area()),
{
}

/// An object that holds a name and no other field of a record describes
/// the default record under that name: year zero, no candidates, every
/// optional number unknown.
pub proof fn lemma_name_only(m: Seq<(Seq<char>, JsonView)>, name: Seq<char>)
    requires
        only_name(m),
        member(m, "name"@) == Some(JsonView::Text(name)),
    ensures
        area_of(JsonView::Object(m)) == Some(
            AreaView {
                area_type: Seq::empty(),
                candidates: Seq::empty(),
                counts_held: None,
                description: Seq::empty(),
                election_type: Seq::empty(),
                electorate: None,
                name: name,
                quota: None,
                spoilt: None,
                turnout: None,
                valid: None,
                year: 0,
            },
        ),
{
}

/// A member under another key does not change what a key gives: members
/// that name no field are passed over.
pub proof fn lemma_member_push_other(
    m: Seq<(Seq<char>, JsonView)>,
    other: Seq<char>,
    v: JsonView,
    key: Seq<char>,
)
    requires
        other != key,
    ensures
        member(m.push((other, v)), key) == member(m, key),
    decreases m.len(),
{
    let grown = m.push((other, v));
    if m.len() == 0 {
        assert(grown.drop_first() =~= m);
    } else {
        assert(grown.first() == m.first());
        assert(grown.drop_first() =~= m.drop_first().push((other, v)));
        lemma_member_push_other(m.drop_first(), other, v, key);
    }
}

/// The view of a decoding result.
pub open spec fn result_view(r: Result<Area, DecodeError>) -> Result<AreaView, DecodeError> {
    match r {
        Ok(area) => Ok(area@),
        Err(e) => Err(e),
    }
}

/// Looks a key up among the members of an object.
pub fn get<'a>(members: &'a Vec<(String, Json)>, key: &str) -> (found: Option<&'a Json>)
    ensures
        match found {
            Some(value) => member(members_view(members@), key@) == Some(value@),
            None => member(members_view(members@), key@) is None,
        },
{
    let wanted = String::from_str(key);
    let ghost mv = members_view(members@);
    assert(mv.skip(0) =~= mv);
    let mut i: usize = 0;
    while i < members.len()
        invariant
            i <= members.len(),
            wanted@ == key@,
            mv == members_view(members@),
            member(mv, key@) == member(mv.skip(i as int), key@),
        decreases members.len() - i,
    {
        proof {
            assert(mv.skip(i as int).first() == mv[i as int]);
            assert(mv.skip(i as int).drop_first() =~= mv.skip(i + 1));
        }
        if members[i].0 == wanted {
            return Some(&members[i].1);
        }
        i += 1;
    }
    None
}

/// The integer that a value holds, where it lies between `lo` and `hi`.
pub fn integer_of(value: &Json, lo: i64, hi: i64) -> (r: Option<i64>)
    ensures
        match r {
            Some(i) => integer_in(value@, lo as int, hi as int) == Some(i as int),
            None => integer_in(value@, lo as int, hi as int) is None,
        },
{
    match value {
        Json::Number(n) => match n.signed {
            Some(i) => {
                if lo <= i && i <= hi {
                    Some(i)
                } else {
                    None
                }
            },
            None => match n.unsigned {
                Some(u) => {
                    if hi >= 0 && u <= hi as u64 && (lo <= 0 || lo as u64 <= u) {
                        Some(u as i64)
                    } else {
                        None
                    }
                },
                None => None,
            },
        },
        _ => None,
    }
}

fn text_at(members: &Vec<(String, Json)>, key: &str) -> (r: Result<String, DecodeError>)
    ensures
        match r {
            Ok(text) => text_field(member(members_view(members@), key@)) == Some(text@),
            Err(e) => text_field(member(members_view(members@), key@)) is None
                && e is Mismatch,
        },
{
    match get(members, key) {
        None => Ok(String::new()),
        Some(Json::Text(text)) => Ok(text.clone()),
        Some(_) => Err(DecodeError::Mismatch),
    }
}

fn flag_at(members: &Vec<(String, Json)>, key: &str) -> (r: Result<bool, DecodeError>)
    ensures
        match r {
            Ok(b) => flag_field(member(members_view(members@), key@)) == Some(b),
            Err(e) => flag_field(member(members_view(members@), key@)) is None
                && e is Mismatch,
        },
{
    match get(members, key) {
        None => Ok(false),
        Some(Json::Bool(b)) => Ok(*b),
        Some(_) => Err(DecodeError::Mismatch),
    }
}

fn integer_at(members: &Vec<(String, Json)>, key: &str, lo: i64, hi: i64) -> (r: Result<
    i64,
    DecodeError,
>)
    ensures
        match r {
            Ok(i) => integer_field(member(members_view(members@), key@), lo as int, hi as int)
                == Some(i as int),
            Err(e) => integer_field(member(members_view(members@), key@), lo as int, hi as int)
                is None && e is Mismatch,
        },
{
    match get(members, key) {
        None => Ok(0),
        Some(value) => match integer_of(value, lo, hi) {
            Some(i) => Ok(i),
            None => Err(DecodeError::Mismatch),
        },
    }
}

fn optional_integer_at(members: &Vec<(String, Json)>, key: &str, lo: i64, hi: i64) -> (r: Result<
    Option<i64>,
    DecodeError,
>)
    ensures
        match r {
            Ok(Some(i)) => optional_integer_field(
                member(members_view(members@), key@),
                lo as int,
                hi as int,
            ) == Some(Some(i as int)),
            Ok(None) => optional_integer_field(
                member(members_view(members@), key@),
                lo as int,
                hi as int,
            ) == Some(None::<int>),
            Err(e) => optional_integer_field(
                member(members_view(members@), key@),
                lo as int,
                hi as int,
            ) is None && e is Mismatch,
        },
{
    match get(members, key) {
        None => Ok(None),
        Some(Json::Null) => Ok(None),
        Some(value) => match integer_of(value, lo, hi) {
            Some(i) => Ok(Some(i)),
            None => Err(DecodeError::Mismatch),
        },
    }
}

fn optional_number_at(members: &Vec<(String, Json)>, key: &str) -> (r: Result<
    Option<Number>,
    DecodeError,
>)
    ensures
        match r {
            Ok(n) => optional_number_field(member(members_view(members@), key@)) == Some(
                number_view(n),
            ),
            Err(e) => optional_number_field(member(members_view(members@), key@)) is None
                && e is Mismatch,
        },
{
    match get(members, key) {
        None => Ok(None),
        Some(Json::Null) => Ok(None),
        Some(Json::Number(n)) => Ok(Some(n.duplicate())),
        Some(_) => Err(DecodeError::Mismatch),
    }
}

fn counts_at(members: &Vec<(String, Json)>, key: &str) -> (r: Result<Vec<i32>, DecodeError>)
    ensures
        match r {
            Ok(counts) => counts_field(member(members_view(members@), key@)) == Some(counts@),
            Err(e) => counts_field(member(members_view(members@), key@)) is None
                && e is Mismatch,
        },
{
    match get(members, key) {
        None => Ok(Vec::new()),
        Some(Json::Array(items)) => {
            proof {
                lemma_array_view(*items);
            }
            let ghost views = items_view(items@);
            let mut counts: Vec<i32> = Vec::new();
            let mut i: usize = 0;
            while i < items.len()
                invariant
                    i <= items.len(),
                    views == items_view(items@),
                    member(members_view(members@), key@) == Some(JsonView::Array(views)),
                    counts@.len() == i,
                    forall|j: int|
                        0 <= j < i ==> integer_in(
                            #[trigger] views[j],
                            i32::MIN as int,
                            i32::MAX as int,
                        ) == Some(counts@[j] as int),
                decreases items.len() - i,
            {
                match integer_of(&items[i], -0x8000_0000, 0x7fff_ffff) {
                    Some(count) => {
                        counts.push(count as i32);
                    },
                    None => {
                        assert(integer_in(views[i as int], i32::MIN as int, i32::MAX as int)
                            is None);
                        return Err(DecodeError::Mismatch);
                    },
                }
                i += 1;
            }
            assert(counts_of(views)->Some_0 =~= counts@);
            Ok(counts)
        },
        Some(_) => Err(DecodeError::Mismatch),
    }
}

fn to_i32(i: Option<i64>) -> (r: Option<i32>)
    requires
        i matches Some(v) ==> i32::MIN <= v <= i32::MAX,
    ensures
        i matches Some(v) ==> r == narrow32(Some(v as int)),
        i is None ==> r == narrow32(None),
{
    match i {
        Some(v) => Some(v as i32),
        None => None,
    }
}

fn to_i16(i: Option<i64>) -> (r: Option<i16>)
    requires
        i matches Some(v) ==> i16::MIN <= v <= i16::MAX,
    ensures
        i matches Some(v) ==> r == narrow16(Some(v as int)),
        i is None ==> r == narrow16(None),
{
    match i {
        Some(v) => Some(v as i16),
        None => None,
    }
}

fn to_i8(i: Option<i64>) -> (r: Option<i8>)
    requires
        i matches Some(v) ==> i8::MIN <= v <= i8::MAX,
    ensures
        i matches Some(v) ==> r == narrow8(Some(v as int)),
        i is None ==> r == narrow8(None),
{
    match i {
        Some(v) => Some(v as i8),
        None => None,
    }
}

impl Candidate {
    /// Reads a candidate from a JSON value.
    pub fn from_json(value: &Json) -> (r: Result<Candidate, DecodeError>)
        ensures
            match r {
                Ok(candidate) => candidate_of(value@) == Some(candidate@),
                Err(e) => candidate_of(value@) is None && e is Mismatch,
            },
    {
        match value {
            Json::Object(members) => {
                proof {
                    lemma_object_view(*members);
                }
                let counts = counts_at(members, "counts")?;
                let elected = flag_at(members, "elected")?;
                let first_pref_pc = optional_number_at(members, "first_pref_pc")?;
                let full_name = text_at(members, "full_name")?;
                let party = text_at(members, "party")?;
                let transfers = optional_integer_at(
                    members,
                    "transfers",
                    -0x8000_0000,
                    0x7fff_ffff,
                )?;
                let transfers_pc = optional_number_at(members, "transfers_pc")?;
                Ok(
                    Candidate {
                        counts,
                        elected,
                        first_pref_pc,
                        full_name,
                        party,
                        transfers: to_i32(transfers),
                        transfers_pc,
                    },
                )
            },
            _ => Err(DecodeError::Mismatch),
        }
    }
}

fn candidates_at(members: &Vec<(String, Json)>, key: &str) -> (r: Result<
    Vec<Candidate>,
    DecodeError,
>)
    ensures
        match r {
            Ok(candidates) => candidates_field(member(members_view(members@), key@)) == Some(
                candidate_views(candidates@),
            ),
            Err(e) => candidates_field(member(members_view(members@), key@)) is None
                && e is Mismatch,
        },
{
    match get(members, key) {
        None => {
            assert(candidate_views(Seq::<Candidate>::empty()) =~= Seq::<CandidateView>::empty());
            Ok(Vec::new())
        },
        Some(Json::Array(items)) => {
            proof {
                lemma_array_view(*items);
            }
            let ghost views = items_view(items@);
            let mut candidates: Vec<Candidate> = Vec::new();
            let mut i: usize = 0;
            while i < items.len()
                invariant
                    i <= items.len(),
                    views == items_view(items@),
                    member(members_view(members@), key@) == Some(JsonView::Array(views)),
                    candidates@.len() == i,
                    forall|j: int|
                        0 <= j < i ==> candidate_of(#[trigger] views[j]) == Some(candidates@[j]@),
                decreases items.len() - i,
            {
                match Candidate::from_json(&items[i]) {
                    Ok(candidate) => {
                        candidates.push(candidate);
                    },
                    Err(e) => {
                        assert(candidate_of(views[i as int]) is None);
                        return Err(e);
                    },
                }
                i += 1;
            }
            assert(candidates_of(views)->Some_0 =~= candidate_views(candidates@));
            Ok(candidates)
        },
        Some(_) => Err(DecodeError::Mismatch),
    }
}

impl Area {
    /// Reads a record from a JSON value.
    pub fn from_json(value: &Json) -> (r: Result<Area, DecodeError>)
        ensures
            match r {
                Ok(area) => area_of(value@) == Some(area@),
                Err(e) => area_of(value@) is None && e is Mismatch,
            },
    {
        match value {
            Json::Object(members) => {
                proof {
                    lemma_object_view(*members);
                }
                let area_type = text_at(members, "area_type")?;
                let candidates = candidates_at(members, "candidates")?;
                let counts_held = optional_integer_at(members, "counts_held", -0x80, 0x7f)?;
                let description = text_at(members, "description")?;
                let election_type = text_at(members, "election_type")?;
                let electorate = optional_integer_at(
                    members,
                    "electorate",
                    -0x8000_0000,
                    0x7fff_ffff,
                )?;
                let name = text_at(members, "name")?;
                let quota = optional_integer_at(members, "quota", -0x8000_0000, 0x7fff_ffff)?;
                let spoilt = optional_integer_at(members, "spoilt", -0x8000, 0x7fff)?;
                let turnout = optional_integer_at(
                    members,
                    "turnout",
                    -0x8000_0000,
                    0x7fff_ffff,
                )?;
                let valid = optional_integer_at(members, "valid", -0x8000_0000, 0x7fff_ffff)?;
                let year = integer_at(members, "year", -0x8000, 0x7fff)?;
                Ok(
                    Area {
                        area_type,
                        candidates,
                        counts_held: to_i8(counts_held),
                        description,
                        election_type,
                        electorate: to_i32(electorate),
                        name,
                        quota: to_i32(quota),
                        spoilt: to_i16(spoilt),
                        turnout: to_i32(turnout),
                        valid: to_i32(valid),
                        year: year as i16,
                    },
                )
            },
            _ => Err(DecodeError::Mismatch),
        }
    }
}

/// Reads one record from the content of a file. The content must be one
/// JSON object; see `area_of` for what the object may hold.
pub fn load_json(content: &[u8]) -> (r: Result<Area, DecodeError>)
    ensures
        decoded(content@, result_view(r)),
{
    match parse(content) {
        Err(words) => Err(DecodeError::Malformed(words)),
        Ok(json) => Area::from_json(&json),
    }
}

} // verus!

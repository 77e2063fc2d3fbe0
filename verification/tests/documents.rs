use election_db::document::{Document, Element};
use election_db::json::Number;
use election_db::loader::{documents_of, encode_all};
use election_db::record::{load_json, Area, Candidate};

fn signed(i: i64) -> Number {
    Number { signed: Some(i), unsigned: if i >= 0 { Some(i as u64) } else { None }, notation: i.to_string() }
}

fn fraction(notation: &str) -> Number {
    Number { signed: None, unsigned: None, notation: notation.to_string() }
}

fn field<'a>(fields: &'a [(String, Element)], name: &str) -> &'a Element {
    &fields.iter().find(|(k, _)| k == name).expect("field is present").1
}

fn fields_of(element: Element) -> Vec<(String, Element)> {
    match element {
        Element::Document(fields) => fields,
        other => panic!("no document: {:?}", other),
    }
}

fn names(fields: &[(String, Element)]) -> Vec<&str> {
    fields.iter().map(|(k, _)| k.as_str()).collect()
}

#[test]
fn valid_count_stays_a_32_bit_integer() {
    let mut area = Area::default();
    area.valid = Some(44034);
    let fields = fields_of(area.encode());
    assert_eq!(field(&fields, "valid"), &Element::Int32(44034));
}

#[test]
fn decoded_valid_count_is_encoded_unchanged() {
    let area = load_json(b"{\"valid\":44034}").unwrap();
    let fields = fields_of(area.encode());
    assert_eq!(field(&fields, "valid"), &Element::Int32(44034));
}

#[test]
fn default_record_encodes_every_field() {
    let fields = fields_of(Area::default().encode());
    assert_eq!(
        fields,
        vec![
            ("area_type".to_string(), Element::Text(String::new())),
            ("candidates".to_string(), Element::Array(vec![])),
            ("counts_held".to_string(), Element::Null),
            ("description".to_string(), Element::Text(String::new())),
            ("election_type".to_string(), Element::Text(String::new())),
            ("electorate".to_string(), Element::Null),
            ("name".to_string(), Element::Text(String::new())),
            ("quota".to_string(), Element::Null),
            ("spoilt".to_string(), Element::Null),
            ("turnout".to_string(), Element::Null),
            ("valid".to_string(), Element::Null),
            ("year".to_string(), Element::Int32(0)),
        ]
    );
}

#[test]
fn record_fields_come_in_declaration_order() {
    let area = Area {
        area_type: "constituency".to_string(),
        candidates: vec![],
        counts_held: Some(-128),
        description: "General election".to_string(),
        election_type: "dail".to_string(),
        electorate: Some(70677),
        name: "Carlow-Kilkenny".to_string(),
        quota: Some(7339),
        spoilt: Some(-32768),
        turnout: Some(i32::MAX),
        valid: Some(i32::MIN),
        year: 32767,
    };
    let fields = fields_of(area.encode());
    assert_eq!(
        names(&fields),
        vec![
            "area_type",
            "candidates",
            "counts_held",
            "description",
            "election_type",
            "electorate",
            "name",
            "quota",
            "spoilt",
            "turnout",
            "valid",
            "year"
        ]
    );
    assert_eq!(field(&fields, "area_type"), &Element::Text("constituency".to_string()));
    assert_eq!(field(&fields, "counts_held"), &Element::Int32(-128));
    assert_eq!(field(&fields, "description"), &Element::Text("General election".to_string()));
    assert_eq!(field(&fields, "election_type"), &Element::Text("dail".to_string()));
    assert_eq!(field(&fields, "electorate"), &Element::Int32(70677));
    assert_eq!(field(&fields, "name"), &Element::Text("Carlow-Kilkenny".to_string()));
    assert_eq!(field(&fields, "quota"), &Element::Int32(7339));
    assert_eq!(field(&fields, "spoilt"), &Element::Int32(-32768));
    assert_eq!(field(&fields, "turnout"), &Element::Int32(i32::MAX));
    assert_eq!(field(&fields, "valid"), &Element::Int32(i32::MIN));
    assert_eq!(field(&fields, "year"), &Element::Int32(32767));
}

#[test]
fn candidate_fields_come_in_declaration_order() {
    let candidate = Candidate {
        counts: vec![8215, -1, 0],
        elected: true,
        first_pref_pc: Some(fraction("18.66")),
        full_name: "A Candidate".to_string(),
        party: "Party One".to_string(),
        transfers: Some(85),
        transfers_pc: Some(signed(1)),
    };
    assert_eq!(
        candidate.to_fields(),
        vec![
            (
                "counts".to_string(),
                Element::Array(vec![Element::Int32(8215), Element::Int32(-1), Element::Int32(0)])
            ),
            ("elected".to_string(), Element::Boolean(true)),
            ("first_pref_pc".to_string(), Element::Single(fraction("18.66"))),
            ("full_name".to_string(), Element::Text("A Candidate".to_string())),
            ("party".to_string(), Element::Text("Party One".to_string())),
            ("transfers".to_string(), Element::Int32(85)),
            ("transfers_pc".to_string(), Element::Single(signed(1))),
        ]
    );
    assert_eq!(
        Candidate::default().to_fields(),
        vec![
            ("counts".to_string(), Element::Array(vec![])),
            ("elected".to_string(), Element::Boolean(false)),
            ("first_pref_pc".to_string(), Element::Null),
            ("full_name".to_string(), Element::Text(String::new())),
            ("party".to_string(), Element::Text(String::new())),
            ("transfers".to_string(), Element::Null),
            ("transfers_pc".to_string(), Element::Null),
        ]
    );
}

#[test]
fn candidates_are_embedded_in_order() {
    let mut area = Area::default();
    for name in ["c", "a", "b"] {
        let mut candidate = Candidate::default();
        candidate.full_name = name.to_string();
        area.candidates.push(candidate);
    }
    let fields = fields_of(area.encode());
    match field(&fields, "candidates") {
        Element::Array(items) => {
            assert_eq!(items.len(), 3);
            let listed: Vec<Element> = items
                .iter()
                .map(|item| match item {
                    Element::Document(fields) => match field(fields, "full_name") {
                        Element::Text(name) => Element::Text(name.clone()),
                        other => panic!("{:?}", other),
                    },
                    other => panic!("{:?}", other),
                })
                .collect();
            assert_eq!(
                listed,
                vec![
                    Element::Text("c".to_string()),
                    Element::Text("a".to_string()),
                    Element::Text("b".to_string())
                ]
            );
        }
        other => panic!("{:?}", other),
    }
}

#[test]
fn encode_all_keeps_every_record_in_order() {
    let mut areas = Vec::new();
    for year in [2016, 2011, 2007] {
        let mut area = Area::default();
        area.year = year;
        areas.push(area);
    }
    let encoded = encode_all(&areas);
    assert_eq!(encoded.len(), 3);
    let years: Vec<Element> =
        encoded.into_iter().map(|e| fields_of(e).pop().expect("year is last").1).collect();
    assert_eq!(years, vec![Element::Int32(2016), Element::Int32(2011), Element::Int32(2007)]);
    assert!(encode_all(&vec![]).is_empty());
}

#[test]
fn documents_of_drops_what_is_no_document() {
    let one = vec![("a".to_string(), Element::Int32(1))];
    let two = vec![("b".to_string(), Element::Null)];
    let elements = vec![
        Element::Null,
        Element::Document(vec![]),
        Element::Int32(5),
        Element::Document(vec![("a".to_string(), Element::Int32(1))]),
        Element::Array(vec![Element::Document(vec![])]),
        Element::Text("x".to_string()),
        Element::Boolean(true),
        Element::Single(signed(1)),
        Element::Document(vec![("b".to_string(), Element::Null)]),
    ];
    assert_eq!(
        documents_of(elements),
        vec![Document { fields: vec![] }, Document { fields: one }, Document { fields: two }]
    );
    assert_eq!(documents_of(vec![]), vec![]);
    assert_eq!(documents_of(vec![Element::Null, Element::Int32(1)]), vec![]);
}

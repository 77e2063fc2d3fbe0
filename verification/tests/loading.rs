use election_db::document::{Document, Element};
use election_db::kind::{ElectionDatabase, ElectionKind};
use election_db::loader::{create_database, BulkInsert, Creation, Failure};
use election_db::record::{Area, DecodeError};

fn file(name: &str) -> Vec<u8> {
    format!("{{\"name\":\"{}\"}}", name).into_bytes()
}

fn name_of(document: &Document) -> &Element {
    &document.fields.iter().find(|(k, _)| k == "name").expect("a name").1
}

fn named(name: &str) -> Area {
    let mut area = Area::default();
    area.name = name.to_string();
    area
}

#[test]
fn database_builds() {
    let content = b"{\"name\":\"Carlow-Kilkenny\",\"valid\":44034,\"year\":2016}".to_vec();
    let tree = vec![vec![content]];
    let creation = create_database("dail", Some("test"), Some(&tree)).expect("builds");
    assert_eq!(creation.database, ElectionDatabase::Dail("test".to_string()));
    let insert = creation.insert.expect("an insert");
    assert_eq!(insert.database, "test");
    assert_eq!(insert.collection, "area");
    assert_eq!(insert.documents.len(), 1);
    let valid = &insert.documents[0].fields.iter().find(|(k, _)| k == "valid").unwrap().1;
    match valid {
        Element::Int32(valid) => assert_eq!(44034 as i32, *valid),
        _ => panic!("Expected Element::Int32!"),
    };
}

#[test]
fn unsupported_directory_fails_first() {
    let tree = vec![vec![file("a")]];
    for name in ["senate", "", "Dail", "constituencies"] {
        assert_eq!(create_database(name, Some("foo"), Some(&tree)), Err(Failure::Unsupported));
        assert_eq!(create_database(name, None, Some(&tree)), Err(Failure::Unsupported));
        assert_eq!(create_database(name, Some("foo"), None), Err(Failure::Unsupported));
    }
    let bad = vec![vec![b"{".to_vec()]];
    assert_eq!(create_database("senate", None, Some(&bad)), Err(Failure::Unsupported));
}

#[test]
fn missing_constituencies_directory_fails() {
    for name in ["assembly", "dail", "westminster"] {
        assert_eq!(create_database(name, Some("foo"), None), Err(Failure::MissingConstituencies));
    }
    let db = ElectionDatabase::Dail("foo".to_string());
    assert_eq!(db.create_constituencies(None), Err(Failure::MissingConstituencies));
}

#[test]
fn empty_tree_has_nothing_to_create() {
    for tree in [vec![], vec![vec![]], vec![vec![], vec![]]] {
        for name in ["assembly", "dail", "westminster"] {
            assert_eq!(
                create_database(name, Some("foo"), Some(&tree)),
                Err(Failure::NothingToCreate)
            );
        }
        let db = ElectionDatabase::Dail("foo".to_string());
        assert_eq!(db.create_constituencies(Some(&tree)), Err(Failure::NothingToCreate));
    }
}

#[test]
fn undecodable_file_fails_the_run() {
    let tree = vec![vec![file("a")], vec![b"{\"year\":\"x\"}".to_vec()]];
    assert_eq!(
        create_database("dail", Some("foo"), Some(&tree)),
        Err(Failure::Decode(DecodeError::Mismatch))
    );
    let tree = vec![vec![b"oops".to_vec()], vec![file("a")]];
    assert!(matches!(
        create_database("assembly", Some("foo"), Some(&tree)),
        Err(Failure::Decode(DecodeError::Malformed(_)))
    ));
}

#[test]
fn two_subdirectories_make_one_insert_of_two_documents() {
    let tree = vec![vec![file("first")], vec![file("second")]];
    let creation = create_database("dail", Some("foo"), Some(&tree)).expect("builds");
    let insert = creation.insert.expect("one insert");
    assert_eq!(insert.database, "foo");
    assert_eq!(insert.collection, "area");
    assert_eq!(insert.documents.len(), 2);
    assert_eq!(name_of(&insert.documents[0]), &Element::Text("first".to_string()));
    assert_eq!(name_of(&insert.documents[1]), &Element::Text("second".to_string()));
}

#[test]
fn only_dail_gets_an_insert() {
    let tree = vec![vec![file("first")], vec![file("second")]];
    for (name, kind) in [("assembly", ElectionKind::Assembly), ("westminster", ElectionKind::Westminster)] {
        let creation = create_database(name, Some("foo"), Some(&tree)).expect("builds");
        assert_eq!(creation.database.get_kind(), kind);
        assert_eq!(creation.database.get_database(), "foo");
        assert_eq!(creation.insert, None);
    }
    let areas = vec![named("a")];
    assert_eq!(ElectionDatabase::Assembly("x".to_string()).create_documents(&areas), None);
    assert_eq!(ElectionDatabase::Westminster("x".to_string()).create_documents(&areas), None);
}

#[test]
fn create_documents_carries_every_record() {
    let areas = vec![named("b"), named("a"), named("c")];
    let db = ElectionDatabase::Dail("results".to_string());
    let insert = db.create_documents(&areas).expect("an insert");
    assert_eq!(insert.database, "results");
    assert_eq!(insert.collection, "area");
    let listed: Vec<&Element> = insert.documents.iter().map(name_of).collect();
    assert_eq!(
        listed,
        vec![
            &Element::Text("b".to_string()),
            &Element::Text("a".to_string()),
            &Element::Text("c".to_string())
        ]
    );
    for document in &insert.documents {
        assert_eq!(document.fields.len(), 12);
    }
}

#[test]
fn create_documents_of_no_records_is_an_empty_insert() {
    let db = ElectionDatabase::Dail("results".to_string());
    assert_eq!(
        db.create_documents(&vec![]),
        Some(BulkInsert {
            database: "results".to_string(),
            collection: "area".to_string(),
            documents: vec![],
        })
    );
}

#[test]
fn create_constituencies_plans_the_insert() {
    let tree = vec![vec![file("b"), file("a")], vec![], vec![file("c")]];
    let db = ElectionDatabase::Dail("results".to_string());
    let insert = db.create_constituencies(Some(&tree)).unwrap().expect("an insert");
    assert_eq!(insert.documents.len(), 3);
    assert_eq!(name_of(&insert.documents[2]), &Element::Text("c".to_string()));
    let db = ElectionDatabase::Westminster("results".to_string());
    assert_eq!(db.create_constituencies(Some(&tree)), Ok(None));
}

#[test]
fn generated_name_goes_into_the_insert() {
    let tree = vec![vec![file("a")]];
    let Creation { database, insert } = create_database("dail", None, Some(&tree)).expect("builds");
    let name = database.get_database();
    assert!(name.starts_with("dail_"));
    assert_eq!(name.len(), "dail_".len() + 5);
    assert_eq!(insert.expect("an insert").database, name);
}

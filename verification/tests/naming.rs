use election_db::kind::{same_text, ElectionDatabase, ElectionKind};
use election_db::util::{
    epoch, epoch_at, epoch_from, mini_hash, mini_hash_at, mini_hash_from, shorten,
};

fn is_lower_hex(text: &str) -> bool {
    text.chars().all(|c| c.is_ascii_digit() || ('a'..='f').contains(&c))
}

#[test]
fn epoch_at_writes_decimal_notation() {
    assert_eq!(epoch_at(0), "0");
    assert_eq!(epoch_at(7), "7");
    assert_eq!(epoch_at(10), "10");
    assert_eq!(epoch_at(1500000000), "1500000000");
    assert_eq!(epoch_at(1009), "1009");
    assert_eq!(epoch_at(u64::MAX), "18446744073709551615");
}

#[test]
fn epoch_is_a_count_of_seconds() {
    let text = epoch().expect("the clock reads a time after 1970");
    assert!(!text.is_empty());
    assert!(text.chars().all(|c| c.is_ascii_digit()));
    let seconds: u64 = text.parse().unwrap();
    assert!(seconds > 1_500_000_000);
    assert_eq!(epoch_at(seconds), text);
}

#[test]
fn shorten_keeps_five_characters() {
    assert_eq!(shorten("b6589fc6ab0dc82cf12099d1c2d40ab994e8410c"), "b6589");
    assert_eq!(shorten("abcde"), "abcde");
    assert_eq!(shorten("abcdef"), "abcde");
    assert_eq!(shorten("abc"), "abc");
    assert_eq!(shorten(""), "");
    assert_eq!(shorten("D\u{e1}il \u{c9}ireann"), "D\u{e1}il ");
}

#[test]
fn mini_hash_at_is_the_start_of_the_sha1_digest() {
    assert_eq!(mini_hash_at(0), "b6589");
    assert_eq!(mini_hash_at(1), "356a1");
    assert_eq!(mini_hash_at(1500000000), "2090b");
    assert_eq!(mini_hash_at(u64::MAX), "23452");
}

#[test]
fn mini_hash_at_depends_on_the_second_alone() {
    assert_eq!(mini_hash_at(1234567890), mini_hash_at(1234567890));
    assert_ne!(mini_hash_at(0), mini_hash_at(1));
}

#[test]
fn mini_hash_has_five_hex_characters() {
    let unique = mini_hash().expect("the clock reads a time after 1970");
    assert_eq!(unique.chars().count(), 5);
    assert!(is_lower_hex(&unique));
}

#[test]
fn mini_hash_matches_the_current_second() {
    let before: u64 = epoch().unwrap().parse().unwrap();
    let unique = mini_hash().unwrap();
    let after: u64 = epoch().unwrap().parse().unwrap();
    assert!((before..=after).any(|s| mini_hash_at(s) == unique));
}

#[test]
fn same_text_compares_characters() {
    assert!(same_text("dail", "dail"));
    assert!(same_text("", ""));
    assert!(!same_text("dail", "Dail"));
    assert!(!same_text("dail", "dail "));
}

#[test]
fn kind_from_name_knows_three_names() {
    assert_eq!(ElectionKind::from_name("assembly"), Some(ElectionKind::Assembly));
    assert_eq!(ElectionKind::from_name("dail"), Some(ElectionKind::Dail));
    assert_eq!(ElectionKind::from_name("westminster"), Some(ElectionKind::Westminster));
}

#[test]
fn kind_from_name_rejects_other_names() {
    for name in ["", "Dail", "DAIL", "dail ", " dail", "dail/", "senate", "constituencies", "assembly2", "west"] {
        assert_eq!(ElectionKind::from_name(name), None, "{:?}", name);
    }
}

#[test]
fn unsupported_directory_does_not_resolve() {
    assert_eq!(ElectionDatabase::from_str("senate", Some("foo")), None);
    assert_eq!(ElectionDatabase::from_str("senate", None), None);
    assert_eq!(ElectionDatabase::from_str("", None), None);
    assert_eq!(ElectionDatabase::from_parts("test", Some("foo"), "abcde"), None);
    assert_eq!(ElectionDatabase::from_parts("test", None, "abcde"), None);
}

#[test]
fn explicit_database_name_is_used_verbatim() {
    assert_eq!(
        ElectionDatabase::from_str("dail", Some("foo")),
        Some(ElectionDatabase::Dail("foo".to_string()))
    );
    assert_eq!(
        ElectionDatabase::from_str("assembly", Some("foo")),
        Some(ElectionDatabase::Assembly("foo".to_string()))
    );
    assert_eq!(
        ElectionDatabase::from_str("westminster", Some("foo")),
        Some(ElectionDatabase::Westminster("foo".to_string()))
    );
    let db = ElectionDatabase::from_str("dail", Some("dail_12345")).unwrap();
    assert_eq!(db.get_database(), "dail_12345");
    let empty = ElectionDatabase::from_str("dail", Some("")).unwrap();
    assert_eq!(empty.get_database(), "");
}

#[test]
fn generated_database_name_has_kind_and_hash() {
    for (name, kind) in [
        ("assembly", ElectionKind::Assembly),
        ("dail", ElectionKind::Dail),
        ("westminster", ElectionKind::Westminster),
    ] {
        let db = ElectionDatabase::from_str(name, None).expect("resolves");
        assert_eq!(db.get_kind(), kind);
        let database = db.get_database();
        let prefix = format!("{}_", name);
        assert!(database.starts_with(&prefix), "{}", database);
        let suffix = &database[prefix.len()..];
        assert_eq!(suffix.len(), 5);
        assert!(is_lower_hex(suffix));
    }
}

#[test]
fn from_parts_puts_the_name_together() {
    assert_eq!(
        ElectionDatabase::from_parts("dail", None, "f404b"),
        Some(ElectionDatabase::Dail("dail_f404b".to_string()))
    );
    assert_eq!(
        ElectionDatabase::from_parts("westminster", None, ""),
        Some(ElectionDatabase::Westminster("westminster_".to_string()))
    );
    assert_eq!(
        ElectionDatabase::from_parts("assembly", Some("results"), "f404b"),
        Some(ElectionDatabase::Assembly("results".to_string()))
    );
}

#[test]
fn new_and_getters_agree() {
    let db = ElectionDatabase::new(ElectionKind::Westminster, "w".to_string());
    assert_eq!(db, ElectionDatabase::Westminster("w".to_string()));
    assert_eq!(db.get_kind(), ElectionKind::Westminster);
    assert_eq!(db.get_database(), "w");
    assert_eq!(ElectionDatabase::new(ElectionKind::Dail, "d".to_string()).get_kind(), ElectionKind::Dail);
    assert_eq!(
        ElectionDatabase::new(ElectionKind::Assembly, "a".to_string()).get_kind(),
        ElectionKind::Assembly
    );
}

#[test]
fn epoch_from_writes_the_reading() {
    assert_eq!(epoch_from(Some(0)), Some("0".to_string()));
    assert_eq!(epoch_from(Some(1500000000)), Some("1500000000".to_string()));
    assert_eq!(epoch_from(Some(u64::MAX)), Some("18446744073709551615".to_string()));
}

#[test]
fn epoch_from_no_reading_is_no_text() {
    assert_eq!(epoch_from(None), None);
}

#[test]
fn mini_hash_from_hashes_the_reading() {
    assert_eq!(mini_hash_from(Some(0)), Some("b6589".to_string()));
    assert_eq!(mini_hash_from(Some(1500000000)), Some("2090b".to_string()));
    assert_eq!(mini_hash_from(Some(u64::MAX)), Some("23452".to_string()));
}

#[test]
fn mini_hash_from_no_reading_is_no_fingerprint() {
    assert_eq!(mini_hash_from(None), None);
}

#[test]
fn epoch_and_mini_hash_agree_with_their_readings() {
    let text = epoch().expect("the clock reads a time after 1970");
    let seconds: u64 = text.parse().unwrap();
    assert_eq!(epoch_from(Some(seconds)), Some(text));
    assert_eq!(mini_hash_from(Some(seconds)), Some(mini_hash_at(seconds)));
}

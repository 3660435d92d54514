use language_codes::{
    build_tables, codes_setter, collect_identifiers, CodeTable, CodeTables, GrammarErrorKind,
    Namespace, Variant,
};

fn variant(name: &str, annotations: &[&str]) -> Variant {
    Variant {
        name: name.to_string(),
        annotations: annotations.iter().map(|a| a.to_string()).collect(),
    }
}

fn tables_of(variants: &[Variant]) -> CodeTables {
    let variants: Vec<Variant> = variants
        .iter()
        .map(|v| Variant { name: v.name.clone(), annotations: v.annotations.clone() })
        .collect();
    build_tables(&collect_identifiers(&variants).unwrap())
}

fn languages() -> Vec<Variant> {
    vec![
        variant("English", &[r#"iso639_1 = "en", iso639_3 = "eng""#]),
        variant("French", &[r#"iso639_1 = "fr""#]),
        variant("Unknown", &[]),
    ]
}

fn get<'a>(t: &'a CodeTables, ns: Namespace, v: &str) -> Option<&'a str> {
    t.get_code(ns, v).map(|s| s.as_str())
}

fn from<'a>(t: &'a CodeTables, ns: Namespace, c: &str) -> Option<&'a str> {
    t.from_code(ns, c).map(|s| s.as_str())
}

#[test]
fn end_to_end_languages() {
    let t = tables_of(&languages());
    assert_eq!(get(&t, Namespace::Iso639_1, "English"), Some("en"));
    assert_eq!(get(&t, Namespace::Iso639_3, "English"), Some("eng"));
    assert_eq!(get(&t, Namespace::Nllb, "English"), None);
    assert_eq!(from(&t, Namespace::Iso639_1, "fr"), Some("French"));
    assert_eq!(from(&t, Namespace::Iso639_1, "xx"), None);
    assert_eq!(get(&t, Namespace::Iso639_1, "Unknown"), None);
}

#[test]
fn unique_code_round_trips() {
    let t = tables_of(&languages());
    for (ns, v) in [
        (Namespace::Iso639_1, "English"),
        (Namespace::Iso639_3, "English"),
        (Namespace::Iso639_1, "French"),
    ] {
        let code = get(&t, ns, v).unwrap();
        assert_eq!(from(&t, ns, code), Some(v));
    }
}

#[test]
fn unannotated_variant_has_no_code() {
    let t = tables_of(&languages());
    for ns in [Namespace::Iso639_1, Namespace::Iso639_3, Namespace::Nllb] {
        assert_eq!(get(&t, ns, "Unknown"), None);
    }
    assert_eq!(get(&t, Namespace::Iso639_3, "French"), None);
}

#[test]
fn lookup_is_exact() {
    let t = tables_of(&languages());
    assert_eq!(from(&t, Namespace::Iso639_1, "EN"), None);
    assert_eq!(from(&t, Namespace::Iso639_1, " en"), None);
    assert_eq!(from(&t, Namespace::Iso639_3, "en"), None);
    assert_eq!(from(&t, Namespace::Nllb, "en"), None);
    assert_eq!(get(&t, Namespace::Iso639_1, "english"), None);
}

#[test]
fn last_clause_wins_in_lookups() {
    let t = tables_of(&[variant("English", &[r#"iso639_1 = "en", iso639_1 = "EN""#])]);
    assert_eq!(get(&t, Namespace::Iso639_1, "English"), Some("EN"));
    assert_eq!(from(&t, Namespace::Iso639_1, "EN"), Some("English"));
    assert_eq!(from(&t, Namespace::Iso639_1, "en"), None);
}

#[test]
fn shared_code_goes_to_the_later_variant() {
    let t = tables_of(&[
        variant("First", &[r#"iso639_1 = "xx""#]),
        variant("Second", &[r#"iso639_1 = "xx""#]),
    ]);
    assert_eq!(from(&t, Namespace::Iso639_1, "xx"), Some("Second"));
    assert_eq!(get(&t, Namespace::Iso639_1, "First"), Some("xx"));
    assert_eq!(t.iso639_1_reverse.entries.len(), 1);
}

#[test]
fn only_first_annotation_is_read() {
    let t = tables_of(&[variant("German", &[r#"iso639_1 = "de""#, r#"iso639_1 = "ger""#])]);
    assert_eq!(get(&t, Namespace::Iso639_1, "German"), Some("de"));
    let t = tables_of(&[variant("German", &[r#"iso639_1 = "de""#, "bogus"])]);
    assert_eq!(get(&t, Namespace::Iso639_1, "German"), Some("de"));
}

#[test]
fn no_variants_give_empty_tables() {
    let t = tables_of(&[]);
    for ns in [Namespace::Iso639_1, Namespace::Iso639_3, Namespace::Nllb] {
        assert_eq!(get(&t, ns, "English"), None);
        assert_eq!(from(&t, ns, "en"), None);
    }
}

#[test]
fn no_annotations_give_empty_tables() {
    let t = tables_of(&[variant("English", &[]), variant("French", &[])]);
    for ns in [Namespace::Iso639_1, Namespace::Iso639_3, Namespace::Nllb] {
        assert_eq!(get(&t, ns, "English"), None);
        assert_eq!(from(&t, ns, ""), None);
    }
    let records = collect_identifiers(&vec![variant("English", &[])]).unwrap();
    assert!(records.is_empty());
}

#[test]
fn collection_fails_at_the_first_bad_annotation() {
    let variants = vec![
        variant("English", &[r#"iso639_1 = "en""#]),
        variant("Bad", &[r#"bogus = "x""#]),
        variant("Worse", &["="]),
    ];
    let err = collect_identifiers(&variants).unwrap_err();
    assert_eq!(err.variant, "Bad");
    assert_eq!(err.error.kind, GrammarErrorKind::UnknownKey);
    assert_eq!(err.error.token, "bogus");
    let err = codes_setter("Language", &variants).unwrap_err();
    assert_eq!(err.variant, "Bad");
}

#[test]
fn records_keep_declaration_order() {
    let records = collect_identifiers(&languages()).unwrap();
    let names: Vec<&str> = records.iter().map(|r| r.name.as_str()).collect();
    assert_eq!(names, vec!["English", "French"]);
    assert_eq!(records[0].ids.iso_639_3.as_deref(), Some("eng"));
}

#[test]
fn table_insert_overwrites_in_place() {
    let mut t = CodeTable::new();
    t.insert("a".to_string(), "1".to_string());
    t.insert("b".to_string(), "2".to_string());
    t.insert("a".to_string(), "3".to_string());
    assert_eq!(
        t.entries,
        vec![
            ("a".to_string(), "3".to_string()),
            ("b".to_string(), "2".to_string())
        ]
    );
    assert_eq!(t.lookup("a").map(|s| s.as_str()), Some("3"));
    assert_eq!(t.lookup("c"), None);
}

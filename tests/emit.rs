use language_codes::{codes_setter, from_helper, into_helper, CodeTable, Variant};

fn variant(name: &str, annotations: &[&str]) -> Variant {
    Variant {
        name: name.to_string(),
        annotations: annotations.iter().map(|a| a.to_string()).collect(),
    }
}

fn forward(name: &str, arms: &str) -> String {
    format!(
        "    pub fn {name}(&self) -> Option<&'static str> {{\n        match self {{\n{arms}            #[allow(unreachable_patterns)]\n            _ => None,\n        }}\n    }}\n"
    )
}

fn reverse(name: &str, arms: &str) -> String {
    format!(
        "    pub fn {name}(source: &str) -> Option<Self> {{\n        match source {{\n{arms}            _ => None,\n        }}\n    }}\n"
    )
}

#[test]
fn end_to_end_source_text() {
    let variants = vec![
        variant("English", &[r#"iso639_1 = "en", iso639_3 = "eng""#]),
        variant("French", &[r#"iso639_1 = "fr""#]),
        variant("Unknown", &[]),
    ];
    let text = codes_setter("Language", &variants).unwrap();
    let expected = format!(
        "impl Language {{\n{}{}{}{}{}{}}}\n",
        forward(
            "get_iso639_1",
            "            Self::English => Some(\"en\"),\n            Self::French => Some(\"fr\"),\n"
        ),
        forward("get_iso639_3", "            Self::English => Some(\"eng\"),\n"),
        forward("get_nllb", ""),
        reverse(
            "from_iso639_1",
            "            \"en\" => Some(Self::English),\n            \"fr\" => Some(Self::French),\n"
        ),
        reverse("from_iso639_3", "            \"eng\" => Some(Self::English),\n"),
        reverse("from_nllb", ""),
    );
    assert_eq!(text, expected);
}

#[test]
fn no_variants_still_give_six_lookups() {
    let text = codes_setter("Empty", &vec![]).unwrap();
    let expected = format!(
        "impl Empty {{\n{}{}{}{}{}{}}}\n",
        forward("get_iso639_1", ""),
        forward("get_iso639_3", ""),
        forward("get_nllb", ""),
        reverse("from_iso639_1", ""),
        reverse("from_iso639_3", ""),
        reverse("from_nllb", ""),
    );
    assert_eq!(text, expected);
}

#[test]
fn no_annotations_still_give_six_lookups() {
    let text = codes_setter("Language", &vec![variant("English", &[])]).unwrap();
    assert_eq!(text.matches("pub fn ").count(), 6);
    assert_eq!(text.matches("=> Some(").count(), 0);
}

#[test]
fn codes_are_rendered_as_string_literals() {
    let mut t = CodeTable::new();
    t.insert("Quoted".to_string(), "a\"b".to_string());
    let literals = vec!["\"a\\\"b\"".to_string()];
    assert_eq!(
        into_helper("get_nllb", &t, &literals),
        forward("get_nllb", "            Self::Quoted => Some(\"a\\\"b\"),\n")
    );
    let text = codes_setter("Language", &vec![variant("Quoted", &[r#"nllb = "a\"b""#])]).unwrap();
    assert!(text.contains(r#"Self::Quoted => Some("a\\\"b")"#));
    assert!(text.contains(r#""a\\\"b" => Some(Self::Quoted)"#));
}

#[test]
fn reverse_lookup_text_lists_each_code_once() {
    let mut t = CodeTable::new();
    t.insert("xx".to_string(), "First".to_string());
    t.insert("xx".to_string(), "Second".to_string());
    let literals = vec!["\"xx\"".to_string()];
    assert_eq!(
        from_helper("from_iso639_1", &t, &literals),
        reverse("from_iso639_1", "            \"xx\" => Some(Self::Second),\n")
    );
}

#[test]
fn last_clause_wins_in_source_text() {
    let text = codes_setter("Language", &vec![variant("English", &[r#"iso639_1 = "en", iso639_1 = "EN""#])]).unwrap();
    assert!(text.contains("Self::English => Some(\"EN\")"));
    assert!(!text.contains("\"en\""));
}

#[test]
fn plain_codes_are_spelled_as_themselves() {
    let text = codes_setter("Language", &vec![variant("Chinese", &[r#"nllb = "zho_Hans-x1""#])]).unwrap();
    assert!(text.contains("Self::Chinese => Some(\"zho_Hans-x1\")"));
    assert!(text.contains("\"zho_Hans-x1\" => Some(Self::Chinese)"));
}

#[test]
fn unusual_codes_are_written_so_they_read_back_verbatim() {
    // The code of `iso639_3` is kept verbatim: `é x` and two backslashes.
    let text = codes_setter(
        "Language",
        &vec![variant("Odd", &[r#"iso639_3 = "é x\\", nllb = "'q'""#])],
    )
    .unwrap();
    assert!(text.contains(r#"Self::Odd => Some("é x\\\\"),"#));
    assert!(text.contains(r#""é x\\\\" => Some(Self::Odd),"#));
    assert!(text.contains(r#"Self::Odd => Some("'q'"),"#));
}

use language_codes::grammar::chars_of;
use language_codes::{
    parse_clauses, GrammarErrorKind, LanguageIdentifier, LanguageIdentifiers, Namespace,
};

fn clause(id: &LanguageIdentifier) -> (Namespace, String) {
    match id {
        LanguageIdentifier::ISO639_1(c) => (Namespace::Iso639_1, c.clone()),
        LanguageIdentifier::ISO639_3(c) => (Namespace::Iso639_3, c.clone()),
        LanguageIdentifier::NLLB(c) => (Namespace::Nllb, c.clone()),
    }
}

#[test]
fn two_clauses_parse_in_order() {
    let ids = parse_clauses(r#"iso639_1 = "en", iso639_3 = "eng""#).unwrap();
    let got: Vec<(Namespace, String)> = ids.iter().map(clause).collect();
    assert_eq!(
        got,
        vec![
            (Namespace::Iso639_1, "en".to_string()),
            (Namespace::Iso639_3, "eng".to_string())
        ]
    );
}

#[test]
fn unknown_key_is_named() {
    let err = parse_clauses(r#"bogus = "x""#).unwrap_err();
    assert_eq!(err.kind, GrammarErrorKind::UnknownKey);
    assert_eq!(err.token, "bogus");
    assert_eq!(err.position, 0);
    assert_eq!(
        err.message(),
        "should be `iso639_1`, `iso639_3` or `nllb`, parsed: bogus"
    );
}

#[test]
fn keys_are_case_sensitive() {
    let err = parse_clauses(r#"ISO639_1 = "en""#).unwrap_err();
    assert_eq!(err.kind, GrammarErrorKind::UnknownKey);
    assert_eq!(err.token, "ISO639_1");
}

#[test]
fn empty_payload_has_no_clauses() {
    assert!(parse_clauses("").unwrap().is_empty());
    assert!(parse_clauses("  \n ").unwrap().is_empty());
}

#[test]
fn trailing_comma_is_accepted() {
    let ids = parse_clauses(r#"nllb = "eng_Latn","#).unwrap();
    let got: Vec<(Namespace, String)> = ids.iter().map(clause).collect();
    assert_eq!(got, vec![(Namespace::Nllb, "eng_Latn".to_string())]);
}

#[test]
fn literal_is_kept_verbatim() {
    let ids = parse_clauses(r#"iso639_1 = " a\"b ""#).unwrap();
    let got: Vec<(Namespace, String)> = ids.iter().map(clause).collect();
    assert_eq!(got, vec![(Namespace::Iso639_1, r#" a\"b "#.to_string())]);
}

#[test]
fn spaces_around_commas_are_accepted() {
    let ids = parse_clauses(r#"iso639_1 = "en" , nllb = "eng_Latn" ,"#).unwrap();
    assert_eq!(ids.len(), 2);
}

#[test]
fn missing_equals_is_reported() {
    let err = parse_clauses(r#"iso639_1 "en""#).unwrap_err();
    assert_eq!(err.kind, GrammarErrorKind::ExpectedEquals);
    assert_eq!(err.position, 9);
    assert_eq!(err.token, "\"");
    assert_eq!(err.message(), "expected `=`, found `\"`");
}

#[test]
fn missing_literal_is_reported() {
    let err = parse_clauses("iso639_1 = en").unwrap_err();
    assert_eq!(err.kind, GrammarErrorKind::ExpectedLiteral);
    assert_eq!(err.position, 11);
    assert_eq!(err.token, "e");
    let err = parse_clauses("iso639_1 =").unwrap_err();
    assert_eq!(err.kind, GrammarErrorKind::ExpectedLiteral);
    assert_eq!(err.token, "");
    assert_eq!(err.message(), "expected string literal, found end of input");
}

#[test]
fn unterminated_literal_is_reported() {
    let err = parse_clauses(r#"iso639_1 = "en"#).unwrap_err();
    assert_eq!(err.kind, GrammarErrorKind::UnterminatedLiteral);
    assert_eq!(err.position, 11);
}

#[test]
fn missing_comma_is_reported() {
    let err = parse_clauses(r#"iso639_1 = "en" iso639_3 = "eng""#).unwrap_err();
    assert_eq!(err.kind, GrammarErrorKind::ExpectedComma);
    assert_eq!(err.position, 16);
    assert_eq!(err.token, "i");
}

#[test]
fn missing_key_is_reported() {
    let err = parse_clauses(r#", iso639_1 = "en""#).unwrap_err();
    assert_eq!(err.kind, GrammarErrorKind::ExpectedKey);
    assert_eq!(err.position, 0);
    let err = parse_clauses(r#"iso639_1 = "en",, "#).unwrap_err();
    assert_eq!(err.kind, GrammarErrorKind::ExpectedKey);
    assert_eq!(err.position, 16);
    assert_eq!(err.message(), "expected identifier, found `,`");
}

#[test]
fn later_clause_of_a_namespace_wins() {
    let ids = LanguageIdentifiers::parse(r#"iso639_1 = "en", iso639_1 = "EN""#).unwrap();
    assert_eq!(ids.iso_639_1.as_deref(), Some("EN"));
    assert_eq!(ids.iso_639_3, None);
    assert_eq!(ids.nllb, None);
    assert_eq!(ids.get(Namespace::Iso639_1).map(|s| s.as_str()), Some("EN"));
}

#[test]
fn single_clause_reports_its_end() {
    let text = r#"  nllb = "fra_Latn" , x"#;
    let chars = chars_of(text);
    let (id, end) = LanguageIdentifier::parse(text, &chars, 2).unwrap();
    assert_eq!(clause(&id), (Namespace::Nllb, "fra_Latn".to_string()));
    assert_eq!(end, 19);
}

#[test]
fn namespace_keys() {
    assert_eq!(Namespace::Iso639_1.key(), "iso639_1");
    assert_eq!(Namespace::Iso639_3.key(), "iso639_3");
    assert_eq!(Namespace::Nllb.key(), "nllb");
}

#[test]
fn payload_printed_from_tokens_parses() {
    let tokens: proc_macro2::TokenStream = r#"iso639_1 = "en", iso639_3 = "eng","#.parse().unwrap();
    let ids = LanguageIdentifiers::parse(&tokens.to_string()).unwrap();
    assert_eq!(ids.iso_639_1.as_deref(), Some("en"));
    assert_eq!(ids.iso_639_3.as_deref(), Some("eng"));
    assert_eq!(ids.nllb, None);
}

#[test]
fn non_ascii_key_is_an_unknown_key() {
    let err = parse_clauses(r#"clé = "s""#).unwrap_err();
    assert_eq!(err.kind, GrammarErrorKind::UnknownKey);
    assert_eq!(err.token, "clé");
    assert_eq!(
        err.message(),
        "should be `iso639_1`, `iso639_3` or `nllb`, parsed: clé"
    );
}

#[test]
fn any_word_in_key_position_is_a_key() {
    let err = parse_clauses(r#"iso639_1 = "en", 639-1 = "en""#).unwrap_err();
    assert_eq!(err.kind, GrammarErrorKind::UnknownKey);
    assert_eq!(err.token, "639-1");
    assert_eq!(err.position, 17);
    let err = parse_clauses(r#"iso639_1= "en""#);
    assert!(err.is_ok());
}

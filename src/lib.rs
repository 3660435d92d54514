//! Lookup tables between languages and their codes in three code systems,
//! read from per-variant annotations and rendered as associated functions.
pub mod collect;
pub mod emit;
pub mod grammar;
pub mod laws;
pub mod tables;

pub use collect::{collect_identifiers, AnnotationError, Variant, VariantRecord};
pub use emit::{codes_setter, from_helper, into_helper, render_impl};
pub use grammar::{
    parse_clauses, GrammarError, GrammarErrorKind, LanguageIdentifier, LanguageIdentifiers,
    Namespace,
};
pub use tables::{build_tables, CodeTable, CodeTables};

//! Rendering the code tables as the source text of six associated functions.
use vstd::prelude::*;
use crate::collect::{collect_identifiers, collect_spec, variant_views, AnnotationError, RecordView, Variant};
use crate::grammar::Namespace;
use crate::tables::{build_tables, CodeTable, CodeTables, TableView};

verus! {

/// The value of a hexadecimal digit, or -1.
pub open spec fn hex_digit(c: char) -> int {
    if '0' <= c && c <= '9' {
        c as int - '0' as int
    } else if 'a' <= c && c <= 'f' {
        c as int - 'a' as int + 10
    } else if 'A' <= c && c <= 'F' {
        c as int - 'A' as int + 10
    } else {
        -1
    }
}

/// The end of the run of hexadecimal digits that starts at `i`.
pub open spec fn hex_end(s: Seq<char>, i: int) -> int
    decreases s.len() - i,
{
    if 0 <= i < s.len() && hex_digit(s[i]) >= 0 {
        hex_end(s, i + 1)
    } else {
        i
    }
}

/// The number that the hexadecimal digits `s[i..j]` write.
pub open spec fn hex_value(s: Seq<char>, i: int, j: int) -> int
    decreases j - i,
{
    if j <= i {
        0
    } else {
        hex_value(s, i, j - 1) * 16 + hex_digit(s[j - 1])
    }
}

pub open spec fn code_point(c: char) -> int {
    c as int
}

/// The character with code point `v`, if there is one.
pub open spec fn char_of(v: int) -> Option<char> {
    if exists|c: char| #[trigger] code_point(c) == v {
        Some(choose|c: char| #[trigger] code_point(c) == v)
    } else {
        None
    }
}

/// The character that a one-letter escape `\c` stands for.
pub open spec fn simple_escape(c: char) -> Option<char> {
    if c == 'n' {
        Some('\n')
    } else if c == 'r' {
        Some('\r')
    } else if c == 't' {
        Some('\t')
    } else if c == '\\' {
        Some('\\')
    } else if c == '0' {
        Some('\0')
    } else if c == '\'' {
        Some('\'')
    } else if c == '"' {
        Some('"')
    } else {
        None
    }
}

/// The escape that starts with the backslash at `i`: the character it stands
/// for and the position after it. Besides the one-letter escapes, `\xHH` up
/// to 0x7F and `\u{...}` with one to six hexadecimal digits.
pub open spec fn escape_at(s: Seq<char>, i: int) -> Option<(char, int)> {
    if i + 1 >= s.len() {
        None
    } else if simple_escape(s[i + 1]) is Some {
        Some((simple_escape(s[i + 1])->0, i + 2))
    } else if s[i + 1] == 'x' {
        if i + 3 < s.len() && hex_digit(s[i + 2]) >= 0 && hex_digit(s[i + 3]) >= 0 && hex_value(
            s,
            i + 2,
            i + 4,
        ) <= 0x7f {
            match char_of(hex_value(s, i + 2, i + 4)) {
                Some(c) => Some((c, i + 4)),
                None => None,
            }
        } else {
            None
        }
    } else if s[i + 1] == 'u' && i + 2 < s.len() && s[i + 2] == '{' {
        let e = hex_end(s, i + 3);
        if e < s.len() && s[e] == '}' && 1 <= e - (i + 3) <= 6 {
            match char_of(hex_value(s, i + 3, e)) {
                Some(c) => Some((c, e + 1)),
                None => None,
            }
        } else {
            None
        }
    } else {
        None
    }
}

proof fn lemma_hex_end(s: Seq<char>, i: int)
    ensures
        hex_end(s, i) >= i,
    decreases s.len() - i,
{
    if 0 <= i < s.len() && hex_digit(s[i]) >= 0 {
        lemma_hex_end(s, i + 1);
    }
}

proof fn lemma_escape_advances(s: Seq<char>, i: int)
    ensures
        escape_at(s, i) matches Some((_, j)) ==> j > i,
{
    lemma_hex_end(s, i + 3);
}

/// The characters that the body of a string literal from `i` on stands for:
/// each character as itself, but for escapes; an unescaped quote or a
/// malformed escape gives none.
pub open spec fn unescape(s: Seq<char>, i: int) -> Option<Seq<char>>
    decreases s.len() - i,
    via unescape_decreases
{
    if i < 0 || i >= s.len() {
        Some(Seq::empty())
    } else if s[i] == '"' {
        None
    } else if s[i] == '\\' {
        match escape_at(s, i) {
            Some((c, j)) => match unescape(s, j) {
                Some(rest) => Some(seq![c] + rest),
                None => None,
            },
            None => None,
        }
    } else {
        match unescape(s, i + 1) {
            Some(rest) => Some(seq![s[i]] + rest),
            None => None,
        }
    }
}

#[via_fn]
proof fn unescape_decreases(s: Seq<char>, i: int) {
    lemma_escape_advances(s, i);
}

/// The string that the source text `lit` of a string literal stands for.
pub open spec fn literal_value(lit: Seq<char>) -> Option<Seq<char>> {
    if lit.len() >= 2 && lit[0] == '"' && lit[lit.len() - 1] == '"' {
        unescape(lit.subrange(1, lit.len() - 1), 0)
    } else {
        None
    }
}

/// `lit` is the source text of a string literal whose value is `code`.
pub open spec fn spells_code(lit: Seq<char>, code: Seq<char>) -> bool {
    literal_value(lit) == Some(code)
}

/// Relies on `proc_macro2::Literal::string` and its `Display`: the source text
/// of a string literal whose value is `s`. Each character is written as
/// itself or as an escape of `char::escape_debug` (or `\0` / `\x00`), all of
/// which `literal_value` reads back; the exact choice of escapes may differ
/// inside and outside the compiler, so no more is stated.
#[verifier::external_body]
fn string_literal(s: &String) -> (r: String)
    ensures
        spells_code(r@, s@),
{
    proc_macro2::Literal::string(s.as_str()).to_string()
}

pub open spec fn string_views(v: Seq<String>) -> Seq<Seq<char>> {
    v.map_values(|s: String| s@)
}

/// The method name of the forward lookup of `ns`.
pub open spec fn getter_name(ns: Namespace) -> Seq<char> {
    "get_"@ + ns.key_spec()
}

/// The method name of the reverse lookup of `ns`.
pub open spec fn constructor_name(ns: Namespace) -> Seq<char> {
    "from_"@ + ns.key_spec()
}

pub open spec fn forward_arm(variant: Seq<char>, literal: Seq<char>) -> Seq<char> {
    "            Self::"@ + variant + " => Some("@ + literal + "),\n"@
}

pub open spec fn reverse_arm(literal: Seq<char>, variant: Seq<char>) -> Seq<char> {
    "            "@ + literal + " => Some(Self::"@ + variant + "),\n"@
}

/// The match arms of a forward table, the code of entry `i` spelled `lits[i]`.
pub open spec fn forward_arms(t: TableView, lits: Seq<Seq<char>>) -> Seq<char>
    decreases t.len(),
{
    if t.len() == 0 {
        Seq::empty()
    } else {
        forward_arms(t.drop_last(), lits) + forward_arm(t.last().0, lits[t.len() - 1])
    }
}

/// The match arms of a reverse table, the code of entry `i` spelled `lits[i]`.
pub open spec fn reverse_arms(t: TableView, lits: Seq<Seq<char>>) -> Seq<char>
    decreases t.len(),
{
    if t.len() == 0 {
        Seq::empty()
    } else {
        reverse_arms(t.drop_last(), lits) + reverse_arm(lits[t.len() - 1], t.last().1)
    }
}

pub open spec fn forward_method(name: Seq<char>, t: TableView, lits: Seq<Seq<char>>) -> Seq<char> {
    "    pub fn "@ + name + "(&self) -> Option<&'static str> {\n        match self {\n"@
        + forward_arms(t, lits)
        + "            #[allow(unreachable_patterns)]\n            _ => None,\n        }\n    }\n"@
}

pub open spec fn reverse_method(name: Seq<char>, t: TableView, lits: Seq<Seq<char>>) -> Seq<char> {
    "    pub fn "@ + name + "(source: &str) -> Option<Self> {\n        match source {\n"@
        + reverse_arms(t, lits) + "            _ => None,\n        }\n    }\n"@
}

/// The order in which the six methods are rendered.
pub open spec fn method_namespace(i: int) -> Namespace {
    if i % 3 == 0 {
        Namespace::Iso639_1
    } else if i % 3 == 1 {
        Namespace::Iso639_3
    } else {
        Namespace::Nllb
    }
}

/// The table behind method `i`: the three forward tables, then the three
/// reverse ones.
pub open spec fn method_table(tables: CodeTables, i: int) -> TableView {
    if i < 3 {
        tables.forward(method_namespace(i))
    } else {
        tables.reverse(method_namespace(i))
    }
}

pub open spec fn method_text(tables: CodeTables, i: int, lits: Seq<Seq<char>>) -> Seq<char> {
    if i < 3 {
        forward_method(getter_name(method_namespace(i)), method_table(tables, i), lits)
    } else {
        reverse_method(constructor_name(method_namespace(i)), method_table(tables, i), lits)
    }
}

/// The first `n` methods, the codes of method `i` spelled `lits[i]`.
pub open spec fn methods_text(tables: CodeTables, n: int, lits: Seq<Seq<Seq<char>>>) -> Seq<char>
    decreases n,
{
    if n <= 0 {
        Seq::empty()
    } else {
        methods_text(tables, n - 1, lits) + method_text(tables, n - 1, lits[n - 1])
    }
}

/// The `impl` block of the six lookups of `enum_name`.
pub open spec fn impl_text(enum_name: Seq<char>, tables: CodeTables, lits: Seq<Seq<Seq<char>>>) -> Seq<char> {
    "impl "@ + enum_name + " {\n"@ + methods_text(tables, 6, lits) + "}\n"@
}

/// The code of entry `j` of a table: its value in a forward table, its key in
/// a reverse one.
pub open spec fn entry_code(t: TableView, j: int, codes_are_keys: bool) -> Seq<char> {
    if codes_are_keys {
        t[j].0
    } else {
        t[j].1
    }
}

/// Spellings of the codes of one table, one for each entry.
pub open spec fn table_literals_fit(t: TableView, codes_are_keys: bool, lits: Seq<Seq<char>>) -> bool {
    &&& lits.len() == t.len()
    &&& forall|j: int| 0 <= j < t.len() ==> spells_code(#[trigger] lits[j], entry_code(t, j, codes_are_keys))
}

/// Spellings with one literal for each entry of each method's table.
pub open spec fn literals_fit(tables: CodeTables, lits: Seq<Seq<Seq<char>>>) -> bool {
    &&& lits.len() == 6
    &&& forall|i: int| 0 <= i < 6 ==> table_literals_fit(method_table(tables, i), i >= 3, #[trigger] lits[i])
}

/// The literal spelling of each code of a table: the value side of a forward
/// table, the key side of a reverse one.
fn code_literals(t: &CodeTable, codes_are_keys: bool) -> (r: Vec<String>)
    ensures
        table_literals_fit(t@, codes_are_keys, string_views(r@)),
{
    let mut r: Vec<String> = Vec::new();
    let mut i: usize = 0;
    while i < t.entries.len()
        invariant
            i <= t.entries.len(),
            r.len() == i,
            forall|j: int|
                0 <= j < i ==> spells_code(#[trigger] r@[j]@, entry_code(t@, j, codes_are_keys)),
        decreases t.entries.len() - i,
    {
        let entry = &t.entries[i];
        if codes_are_keys {
            r.push(string_literal(&entry.0));
        } else {
            r.push(string_literal(&entry.1));
        }
        i = i + 1;
    }
    r
}

/// Renders the forward lookup `name` of a table: `Some` of the code of each
/// listed variant, `None` for every other. `literals[j]` is the literal that
/// writes the code of entry `j`.
pub fn into_helper(name: &str, table: &CodeTable, literals: &Vec<String>) -> (r: String)
    requires
        table_literals_fit(table@, false, string_views(literals@)),
    ensures
        r@ == forward_method(name@, table@, string_views(literals@)),
{
    let ghost t = table@;
    let ghost lits = string_views(literals@);
    let mut out = String::from_str("    pub fn ");
    out.append(name);
    out.append("(&self) -> Option<&'static str> {\n        match self {\n");
    let ghost head = out@;
    let mut i: usize = 0;
    assert(t.take(0) =~= Seq::<(Seq<char>, Seq<char>)>::empty());
    assert(out@ =~= head + forward_arms(t.take(0), lits));
    while i < table.entries.len()
        invariant
            i <= table.entries.len(),
            t == table@,
            lits == string_views(literals@),
            literals.len() == t.len(),
            out@ == head + forward_arms(t.take(i as int), lits),
        decreases table.entries.len() - i,
    {
        assert(t.take(i + 1).drop_last() =~= t.take(i as int));
        let mut arm = String::from_str("            Self::");
        arm.append(table.entries[i].0.as_str());
        arm.append(" => Some(");
        arm.append(literals[i].as_str());
        arm.append("),\n");
        out.append(arm.as_str());
        assert(out@ =~= head + forward_arms(t.take(i + 1), lits));
        i = i + 1;
    }
    assert(t.take(i as int) =~= t);
    out.append("            #[allow(unreachable_patterns)]\n            _ => None,\n        }\n    }\n");
    out
}

/// Renders the reverse lookup `name` of a table: `Some` of the variant of each
/// listed code, matched exactly, `None` for every other string.
/// `literals[j]` is the literal that writes the code of entry `j`.
pub fn from_helper(name: &str, table: &CodeTable, literals: &Vec<String>) -> (r: String)
    requires
        table_literals_fit(table@, true, string_views(literals@)),
    ensures
        r@ == reverse_method(name@, table@, string_views(literals@)),
{
    let ghost t = table@;
    let ghost lits = string_views(literals@);
    let mut out = String::from_str("    pub fn ");
    out.append(name);
    out.append("(source: &str) -> Option<Self> {\n        match source {\n");
    let ghost head = out@;
    let mut i: usize = 0;
    assert(t.take(0) =~= Seq::<(Seq<char>, Seq<char>)>::empty());
    assert(out@ =~= head + reverse_arms(t.take(0), lits));
    while i < table.entries.len()
        invariant
            i <= table.entries.len(),
            t == table@,
            lits == string_views(literals@),
            literals.len() == t.len(),
            out@ == head + reverse_arms(t.take(i as int), lits),
        decreases table.entries.len() - i,
    {
        assert(t.take(i + 1).drop_last() =~= t.take(i as int));
        let mut arm = String::from_str("            ");
        arm.append(literals[i].as_str());
        arm.append(" => Some(Self::");
        arm.append(table.entries[i].1.as_str());
        arm.append("),\n");
        out.append(arm.as_str());
        assert(out@ =~= head + reverse_arms(t.take(i + 1), lits));
        i = i + 1;
    }
    assert(t.take(i as int) =~= t);
    out.append("            _ => None,\n        }\n    }\n");
    out
}

proof fn lemma_methods_text_prefix(
    tables: CodeTables,
    n: int,
    l1: Seq<Seq<Seq<char>>>,
    l2: Seq<Seq<Seq<char>>>,
)
    requires
        0 <= n <= l1.len(),
        n <= l2.len(),
        forall|j: int| 0 <= j < n ==> l1[j] == l2[j],
    ensures
        methods_text(tables, n, l1) == methods_text(tables, n, l2),
    decreases n,
{
    if n > 0 {
        lemma_methods_text_prefix(tables, n - 1, l1, l2);
    }
}

fn method_namespace_exec(i: usize) -> (r: Namespace)
    ensures
        r == method_namespace(i as int),
{
    if i % 3 == 0 {
        Namespace::Iso639_1
    } else if i % 3 == 1 {
        Namespace::Iso639_3
    } else {
        Namespace::Nllb
    }
}

fn render_method(tables: &CodeTables, i: usize) -> (r: String)
    requires
        i < 6,
    ensures
        exists|lits: Seq<Seq<char>>|
            table_literals_fit(method_table(*tables, i as int), i >= 3, lits) && r@
                == #[trigger] method_text(*tables, i as int, lits),
{
    let ns = method_namespace_exec(i);
    if i < 3 {
        let table = tables.forward_table(ns);
        let literals = code_literals(table, false);
        let mut name = String::from_str("get_");
        name.append(ns.key());
        let r = into_helper(name.as_str(), table, &literals);
        assert(r@ == method_text(*tables, i as int, string_views(literals@)));
        assert(table_literals_fit(method_table(*tables, i as int), i >= 3, string_views(literals@)));
        r
    } else {
        let table = tables.reverse_table(ns);
        let literals = code_literals(table, true);
        let mut name = String::from_str("from_");
        name.append(ns.key());
        let r = from_helper(name.as_str(), table, &literals);
        assert(r@ == method_text(*tables, i as int, string_views(literals@)));
        assert(table_literals_fit(method_table(*tables, i as int), i >= 3, string_views(literals@)));
        r
    }
}

/// Renders the `impl` block of `enum_name` that holds the six lookups of the
/// tables: forward ones first, each namespace in a fixed order.
pub fn render_impl(enum_name: &str, tables: &CodeTables) -> (r: String)
    ensures
        exists|lits: Seq<Seq<Seq<char>>>|
            literals_fit(*tables, lits) && r@ == #[trigger] impl_text(enum_name@, *tables, lits),
{
    let mut out = String::from_str("impl ");
    out.append(enum_name);
    out.append(" {\n");
    let ghost head = out@;
    let ghost mut lits: Seq<Seq<Seq<char>>> = Seq::empty();
    let mut i: usize = 0;
    while i < 6
        invariant
            i <= 6,
            lits.len() == i,
            forall|j: int| 0 <= j < i ==> table_literals_fit(method_table(*tables, j), j >= 3, #[trigger] lits[j]),
            out@ == head + methods_text(*tables, i as int, lits),
        decreases 6 - i,
    {
        let method = render_method(tables, i);
        let ghost l = choose|l: Seq<Seq<char>>|
            table_literals_fit(method_table(*tables, i as int), i >= 3, l) && method@
                == #[trigger] method_text(*tables, i as int, l);
        let ghost before = lits;
        proof {
            lits = lits.push(l);
            lemma_methods_text_prefix(*tables, i as int, before, lits);
        }
        out.append(method.as_str());
        assert(out@ =~= head + methods_text(*tables, i + 1, lits));
        i = i + 1;
    }
    out.append("}\n");
    assert(out@ =~= impl_text(enum_name@, *tables, lits));
    assert(literals_fit(*tables, lits));
    out
}

/// Reads the annotations of the declared variants of the enum `enum_name` and
/// renders its six lookups; fails with the first malformed annotation.
pub fn codes_setter(enum_name: &str, variants: &Vec<Variant>) -> (r: Result<String, AnnotationError>)
    ensures
        match r {
            Ok(text) => collect_spec(variant_views(variants@)) matches Ok(recs) && exists|
                tables: CodeTables,
                lits: Seq<Seq<Seq<char>>>,
            |
                tables.built_from(recs) && literals_fit(tables, lits) && text@ == #[trigger] impl_text(
                    enum_name@,
                    tables,
                    lits,
                ),
            Err(e) => collect_spec(variant_views(variants@)) == Err::<Seq<RecordView>, _>(e@),
        },
{
    let records = match collect_identifiers(variants) {
        Ok(records) => records,
        Err(e) => {
            return Err(e);
        },
    };
    let tables = build_tables(&records);
    let text = render_impl(enum_name, &tables);
    Ok(text)
}

} // verus!

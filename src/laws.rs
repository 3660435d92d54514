//! What the lookups built from a list of declared variants answer.
use vstd::prelude::*;
use crate::collect::{collect_spec, AnnotationErrorView, RecordView, VariantView};
use crate::grammar::{code_in, codes_of, last_code, parse_spec, Namespace};
use crate::emit::{literal_value, literals_fit, method_table, spells_code, table_literals_fit};
use crate::tables::{forward_spec, key_index, lemma_get_put, reverse_spec, table_get, CodeTables};

verus! {

/// The code a declared variant carries in `ns`: read from its first
/// annotation, absent where it has none.
pub open spec fn declared_code(v: VariantView, ns: Namespace) -> Option<Seq<char>> {
    if v.1.len() == 0 {
        None
    } else {
        match parse_spec(v.1[0]) {
            Ok(vals) => last_code(vals, ns),
            Err(_) => None,
        }
    }
}

/// No two declared variants share a name, as in any enum.
pub open spec fn distinct_names(vs: Seq<VariantView>) -> bool {
    forall|i: int, j: int| 0 <= i < vs.len() && 0 <= j < vs.len() && i != j ==> vs[i].0 != vs[j].0
}

proof fn lemma_code_of_codes(vals: Seq<(Namespace, Seq<char>)>, ns: Namespace)
    ensures
        code_in(codes_of(vals), ns) == last_code(vals, ns),
{
}

/// The forward and reverse tables of `ns` against the declared codes.
proof fn lemma_tables_of_variants(vs: Seq<VariantView>, recs: Seq<RecordView>, ns: Namespace)
    requires
        collect_spec(vs) == Ok::<_, AnnotationErrorView>(recs),
        distinct_names(vs),
    ensures
        forall|i: int|
            0 <= i < vs.len() ==> table_get(forward_spec(recs, ns), #[trigger] vs[i].0) == declared_code(vs[i], ns),
        forall|n: Seq<char>|
            (forall|i: int| 0 <= i < vs.len() ==> vs[i].0 != n) ==> #[trigger] table_get(forward_spec(recs, ns), n) is None,
        forall|c: Seq<char>|
            #[trigger] table_get(reverse_spec(recs, ns), c) is Some ==> exists|i: int|
                0 <= i < vs.len() && vs[i].0 == table_get(reverse_spec(recs, ns), c)->0
                    && #[trigger] declared_code(vs[i], ns) == Some(c),
        forall|i: int|
            0 <= i < vs.len() && #[trigger] declared_code(vs[i], ns) is Some ==> table_get(
                reverse_spec(recs, ns),
                declared_code(vs[i], ns)->0,
            ) is Some,
    decreases vs.len(),
{
    if vs.len() == 0 {
        return;
    }
    let vs0 = vs.drop_last();
    let v = vs.last();
    let last = vs.len() - 1;
    assert forall|i: int, j: int| 0 <= i < vs0.len() && 0 <= j < vs0.len() && i != j implies vs0[i].0 != vs0[j].0 by {
        assert(vs0[i] == vs[i] && vs0[j] == vs[j]);
    }
    let recs0 = collect_spec(vs0)->Ok_0;
    lemma_tables_of_variants(vs0, recs0, ns);
    assert forall|i: int| 0 <= i < vs0.len() implies vs[i] == vs0[i] && vs[i].0 != v.0 by {
        assert(vs[i] == vs0[i]);
    }
    let f0 = forward_spec(recs0, ns);
    let r0 = reverse_spec(recs0, ns);
    let f = forward_spec(recs, ns);
    let r = reverse_spec(recs, ns);
    let code = declared_code(v, ns);
    if v.1.len() == 0 {
        assert(recs == recs0);
    } else {
        let vals = parse_spec(v.1[0])->Ok_0;
        assert(recs == recs0.push((v.0, codes_of(vals))));
        assert(recs.drop_last() == recs0);
        lemma_code_of_codes(vals, ns);
    }
    assert(code is None ==> f == f0 && r == r0);
    assert forall|i: int| 0 <= i < vs.len() implies table_get(f, #[trigger] vs[i].0) == declared_code(vs[i], ns) by {
        if let Some(c) = code {
            lemma_get_put(f0, v.0, c, vs[i].0);
        }
    }
    assert forall|n: Seq<char>| (forall|i: int| 0 <= i < vs.len() ==> vs[i].0 != n) implies #[trigger] table_get(f, n) is None by {
        assert(vs[last].0 != n);
        if let Some(c) = code {
            lemma_get_put(f0, v.0, c, n);
        }
    }
    assert forall|c: Seq<char>| #[trigger] table_get(r, c) is Some implies exists|i: int|
        0 <= i < vs.len() && vs[i].0 == table_get(r, c)->0 && #[trigger] declared_code(vs[i], ns) == Some(c) by {
        let n = table_get(r, c)->0;
        if let Some(cv) = code {
            lemma_get_put(r0, cv, v.0, c);
            if c == cv {
                assert(vs[last].0 == n && declared_code(vs[last], ns) == Some(c));
            } else {
                let i = choose|i: int| 0 <= i < vs0.len() && vs0[i].0 == n && #[trigger] declared_code(vs0[i], ns) == Some(c);
                assert(vs[i] == vs0[i]);
            }
        } else {
            let i = choose|i: int| 0 <= i < vs0.len() && vs0[i].0 == n && #[trigger] declared_code(vs0[i], ns) == Some(c);
            assert(vs[i] == vs0[i]);
        }
    }
    assert forall|i: int| 0 <= i < vs.len() && #[trigger] declared_code(vs[i], ns) is Some implies table_get(r, declared_code(vs[i], ns)->0) is Some by {
        let ci = declared_code(vs[i], ns)->0;
        if let Some(cv) = code {
            lemma_get_put(r0, cv, v.0, ci);
        }
        if i < last {
            assert(vs[i] == vs0[i]);
        }
    }
}

/// A variant whose code in `ns` no other variant shares is found again from
/// that code: looking up its code and then the variant of that code gives it
/// back.
pub proof fn lemma_code_round_trip(vs: Seq<VariantView>, recs: Seq<RecordView>, ns: Namespace, i: int, c: Seq<char>)
    requires
        collect_spec(vs) == Ok::<_, AnnotationErrorView>(recs),
        distinct_names(vs),
        0 <= i < vs.len(),
        declared_code(vs[i], ns) == Some(c),
        forall|j: int| 0 <= j < vs.len() && j != i ==> declared_code(vs[j], ns) != Some(c),
    ensures
        table_get(forward_spec(recs, ns), vs[i].0) == Some(c),
        table_get(reverse_spec(recs, ns), c) == Some(vs[i].0),
{
    lemma_tables_of_variants(vs, recs, ns);
    assert(declared_code(vs[i], ns) is Some);
    let n = table_get(reverse_spec(recs, ns), c)->0;
    assert(table_get(reverse_spec(recs, ns), c) is Some);
    let j = choose|j: int| 0 <= j < vs.len() && vs[j].0 == n && #[trigger] declared_code(vs[j], ns) == Some(c);
    assert(j == i);
}

/// A variant without a clause of `ns`, or without any annotation, has no code
/// in `ns`.
pub proof fn lemma_missing_code(vs: Seq<VariantView>, recs: Seq<RecordView>, ns: Namespace, i: int)
    requires
        collect_spec(vs) == Ok::<_, AnnotationErrorView>(recs),
        distinct_names(vs),
        0 <= i < vs.len(),
        declared_code(vs[i], ns) is None,
    ensures
        table_get(forward_spec(recs, ns), vs[i].0) is None,
{
    lemma_tables_of_variants(vs, recs, ns);
}

/// A string that is no variant's code in `ns` gives no variant.
pub proof fn lemma_unknown_code(vs: Seq<VariantView>, recs: Seq<RecordView>, ns: Namespace, s: Seq<char>)
    requires
        collect_spec(vs) == Ok::<_, AnnotationErrorView>(recs),
        distinct_names(vs),
        forall|i: int| 0 <= i < vs.len() ==> declared_code(vs[i], ns) != Some(s),
    ensures
        table_get(reverse_spec(recs, ns), s) is None,
{
    lemma_tables_of_variants(vs, recs, ns);
    if let Some(n) = table_get(reverse_spec(recs, ns), s) {
        assert(table_get(reverse_spec(recs, ns), s) is Some);
        let j = choose|j: int| 0 <= j < vs.len() && vs[j].0 == n && #[trigger] declared_code(vs[j], ns) == Some(s);
        assert(declared_code(vs[j], ns) != Some(s));
    }
}

/// With no variant annotated (no variant at all included), collection
/// succeeds with no record and every lookup answers absent.
pub proof fn lemma_no_annotations(vs: Seq<VariantView>, ns: Namespace, key: Seq<char>)
    requires
        forall|i: int| 0 <= i < vs.len() ==> #[trigger] vs[i].1.len() == 0,
    ensures
        collect_spec(vs) == Ok::<_, AnnotationErrorView>(
            Seq::<RecordView>::empty(),
        ),
        table_get(forward_spec(Seq::empty(), ns), key) is None,
        table_get(reverse_spec(Seq::empty(), ns), key) is None,
    decreases vs.len(),
{
    if vs.len() > 0 {
        let vs0 = vs.drop_last();
        assert forall|i: int| 0 <= i < vs0.len() implies #[trigger] vs0[i].1.len() == 0 by {
            assert(vs0[i] == vs[i]);
        }
        lemma_no_annotations(vs0, ns, key);
        assert(vs.last().1.len() == 0);
    }
}

/// The position of the forward method of `ns` among the six rendered ones;
/// its reverse method stands three places later.
pub open spec fn getter_index(ns: Namespace) -> int {
    match ns {
        Namespace::Iso639_1 => 0,
        Namespace::Iso639_3 => 1,
        Namespace::Nllb => 2,
    }
}

/// The arm that the rendered forward method of `ns` takes for the variant
/// named `v`: the first that names it, or -1 for the closing `_ => None`.
pub open spec fn forward_arm_taken(tables: CodeTables, ns: Namespace, v: Seq<char>) -> int {
    key_index(tables.forward(ns), v)
}

/// The first of the literals `lits` whose value is `s`, or -1.
pub open spec fn first_spelling(lits: Seq<Seq<char>>, s: Seq<char>) -> int
    decreases lits.len(),
{
    if lits.len() == 0 {
        -1
    } else {
        let i = first_spelling(lits.drop_last(), s);
        if i >= 0 {
            i
        } else if literal_value(lits.last()) == Some(s) {
            lits.len() - 1
        } else {
            -1
        }
    }
}

/// The arm that the rendered reverse method of `ns` takes for the string `s`:
/// the first whose literal stands for `s`, or -1 for the closing `_ => None`.
pub open spec fn reverse_arm_taken(lits: Seq<Seq<Seq<char>>>, ns: Namespace, s: Seq<char>) -> int {
    first_spelling(lits[getter_index(ns) + 3], s)
}

/// Where each literal spells its entry's code, the first literal standing for
/// `s` is the first entry with code `s`.
proof fn lemma_first_spelling(t: crate::tables::TableView, lits: Seq<Seq<char>>, s: Seq<char>)
    requires
        table_literals_fit(t, true, lits),
    ensures
        first_spelling(lits, s) == key_index(t, s),
    decreases t.len(),
{
    if t.len() > 0 {
        let t0 = t.drop_last();
        let l0 = lits.drop_last();
        assert forall|j: int| 0 <= j < t0.len() implies spells_code(#[trigger] l0[j], crate::emit::entry_code(t0, j, true)) by {
            assert(l0[j] == lits[j] && t0[j] == t[j]);
            assert(spells_code(lits[j], crate::emit::entry_code(t, j, true)));
        }
        lemma_first_spelling(t0, l0, s);
        assert(spells_code(lits[t.len() - 1], crate::emit::entry_code(t, t.len() - 1, true)));
    }
}

proof fn lemma_method_tables(tables: CodeTables, ns: Namespace)
    ensures
        method_table(tables, getter_index(ns)) == tables.forward(ns),
        method_table(tables, getter_index(ns) + 3) == tables.reverse(ns),
{
}

/// In the rendered lookups, a variant whose code `c` in `ns` no other variant
/// shares is answered by the getter with a literal that stands for `c`
/// verbatim, and the constructor takes the string `c` back to that variant.
pub proof fn lemma_rendered_round_trip(
    vs: Seq<VariantView>,
    recs: Seq<RecordView>,
    tables: CodeTables,
    lits: Seq<Seq<Seq<char>>>,
    ns: Namespace,
    i: int,
    c: Seq<char>,
)
    requires
        collect_spec(vs) == Ok::<_, AnnotationErrorView>(recs),
        distinct_names(vs),
        tables.built_from(recs),
        literals_fit(tables, lits),
        0 <= i < vs.len(),
        declared_code(vs[i], ns) == Some(c),
        forall|j: int| 0 <= j < vs.len() && j != i ==> declared_code(vs[j], ns) != Some(c),
    ensures
        forward_arm_taken(tables, ns, vs[i].0) >= 0,
        tables.forward(ns)[forward_arm_taken(tables, ns, vs[i].0)].1 == c,
        spells_code(lits[getter_index(ns)][forward_arm_taken(tables, ns, vs[i].0)], c),
        reverse_arm_taken(lits, ns, c) >= 0,
        tables.reverse(ns)[reverse_arm_taken(lits, ns, c)].1 == vs[i].0,
{
    lemma_code_round_trip(vs, recs, ns, i, c);
    lemma_method_tables(tables, ns);
    assert(tables.forward(ns) == forward_spec(recs, ns) && tables.reverse(ns) == reverse_spec(recs, ns));
    crate::tables::lemma_key_index(tables.forward(ns), vs[i].0);
    crate::tables::lemma_key_index(tables.reverse(ns), c);
    assert(crate::emit::table_literals_fit(method_table(tables, getter_index(ns)), false, lits[getter_index(ns)]));
    assert(crate::emit::table_literals_fit(method_table(tables, getter_index(ns) + 3), true, lits[getter_index(ns) + 3]));
    lemma_first_spelling(tables.reverse(ns), lits[getter_index(ns) + 3], c);
}

/// In the rendered getter of `ns`, a variant without a code in `ns` reaches
/// the closing `_ => None`.
pub proof fn lemma_rendered_missing_code(
    vs: Seq<VariantView>,
    recs: Seq<RecordView>,
    tables: CodeTables,
    ns: Namespace,
    i: int,
)
    requires
        collect_spec(vs) == Ok::<_, AnnotationErrorView>(recs),
        distinct_names(vs),
        tables.built_from(recs),
        0 <= i < vs.len(),
        declared_code(vs[i], ns) is None,
    ensures
        forward_arm_taken(tables, ns, vs[i].0) == -1,
{
    lemma_missing_code(vs, recs, ns, i);
    lemma_method_tables(tables, ns);
    assert(tables.forward(ns) == forward_spec(recs, ns) && tables.reverse(ns) == reverse_spec(recs, ns));
    crate::tables::lemma_key_index(tables.forward(ns), vs[i].0);
}

/// In the rendered constructor of `ns`, a string that is no variant's code
/// matches no literal and reaches the closing `_ => None`.
pub proof fn lemma_rendered_unknown_code(
    vs: Seq<VariantView>,
    recs: Seq<RecordView>,
    tables: CodeTables,
    lits: Seq<Seq<Seq<char>>>,
    ns: Namespace,
    s: Seq<char>,
)
    requires
        collect_spec(vs) == Ok::<_, AnnotationErrorView>(recs),
        distinct_names(vs),
        tables.built_from(recs),
        literals_fit(tables, lits),
        forall|i: int| 0 <= i < vs.len() ==> declared_code(vs[i], ns) != Some(s),
    ensures
        reverse_arm_taken(lits, ns, s) == -1,
{
    lemma_unknown_code(vs, recs, ns, s);
    lemma_method_tables(tables, ns);
    assert(tables.forward(ns) == forward_spec(recs, ns) && tables.reverse(ns) == reverse_spec(recs, ns));
    crate::tables::lemma_key_index(tables.reverse(ns), s);
    assert(table_literals_fit(method_table(tables, getter_index(ns) + 3), true, lits[getter_index(ns) + 3]));
    lemma_first_spelling(tables.reverse(ns), lits[getter_index(ns) + 3], s);
}

/// In the rendered lookups, every code `c` a variant carries in `ns` is
/// answered by the getter with a literal that stands for `c` verbatim, and the
/// constructor takes the string `c` to a variant whose code it is, never to
/// `None`, even where several variants share it.
pub proof fn lemma_rendered_code(
    vs: Seq<VariantView>,
    recs: Seq<RecordView>,
    tables: CodeTables,
    lits: Seq<Seq<Seq<char>>>,
    ns: Namespace,
    i: int,
    c: Seq<char>,
)
    requires
        collect_spec(vs) == Ok::<_, AnnotationErrorView>(recs),
        distinct_names(vs),
        tables.built_from(recs),
        literals_fit(tables, lits),
        0 <= i < vs.len(),
        declared_code(vs[i], ns) == Some(c),
    ensures
        forward_arm_taken(tables, ns, vs[i].0) >= 0,
        spells_code(lits[getter_index(ns)][forward_arm_taken(tables, ns, vs[i].0)], c),
        reverse_arm_taken(lits, ns, c) >= 0,
        exists|j: int|
            0 <= j < vs.len() && vs[j].0 == tables.reverse(ns)[reverse_arm_taken(lits, ns, c)].1
                && #[trigger] declared_code(vs[j], ns) == Some(c),
{
    lemma_tables_of_variants(vs, recs, ns);
    lemma_method_tables(tables, ns);
    assert(tables.forward(ns) == forward_spec(recs, ns) && tables.reverse(ns) == reverse_spec(recs, ns));
    assert(declared_code(vs[i], ns) is Some);
    crate::tables::lemma_key_index(tables.forward(ns), vs[i].0);
    crate::tables::lemma_key_index(tables.reverse(ns), c);
    assert(table_literals_fit(method_table(tables, getter_index(ns)), false, lits[getter_index(ns)]));
    assert(table_literals_fit(method_table(tables, getter_index(ns) + 3), true, lits[getter_index(ns) + 3]));
    lemma_first_spelling(tables.reverse(ns), lits[getter_index(ns) + 3], c);
    assert(table_get(reverse_spec(recs, ns), c) is Some);
}

} // verus!

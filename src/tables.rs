//! The six code tables: for each namespace, variant name to code and code to
//! variant name.
use vstd::prelude::*;
use crate::collect::{record_views, RecordView, VariantRecord};
use crate::grammar::{code_in, Namespace};

verus! {

pub type TableView = Seq<(Seq<char>, Seq<char>)>;

/// The index of the first entry with key `k`, or -1 where there is none.
pub open spec fn key_index(t: TableView, k: Seq<char>) -> int
    decreases t.len(),
{
    if t.len() == 0 {
        -1
    } else {
        let i = key_index(t.drop_last(), k);
        if i >= 0 {
            i
        } else if t.last().0 == k {
            t.len() - 1
        } else {
            -1
        }
    }
}

/// The value the table holds for key `k`.
pub open spec fn table_get(t: TableView, k: Seq<char>) -> Option<Seq<char>> {
    let i = key_index(t, k);
    if i >= 0 {
        Some(t[i].1)
    } else {
        None
    }
}

/// The table with `k` mapped to `v`: the entry of `k` is overwritten in place,
/// or a new entry is appended.
pub open spec fn table_put(t: TableView, k: Seq<char>, v: Seq<char>) -> TableView {
    let i = key_index(t, k);
    if i >= 0 {
        t.update(i, (k, v))
    } else {
        t.push((k, v))
    }
}

/// The forward table of `ns`: each record with a code in `ns`, from its name
/// to that code, inserted in order.
pub open spec fn forward_spec(recs: Seq<RecordView>, ns: Namespace) -> TableView
    decreases recs.len(),
{
    if recs.len() == 0 {
        Seq::empty()
    } else {
        let t = forward_spec(recs.drop_last(), ns);
        match code_in(recs.last().1, ns) {
            Some(c) => table_put(t, recs.last().0, c),
            None => t,
        }
    }
}

/// The reverse table of `ns`: each record with a code in `ns`, from that code
/// to its name, inserted in order, so that a later variant with the same code
/// takes it over.
pub open spec fn reverse_spec(recs: Seq<RecordView>, ns: Namespace) -> TableView
    decreases recs.len(),
{
    if recs.len() == 0 {
        Seq::empty()
    } else {
        let t = reverse_spec(recs.drop_last(), ns);
        match code_in(recs.last().1, ns) {
            Some(c) => table_put(t, c, recs.last().0),
            None => t,
        }
    }
}

pub proof fn lemma_key_index(t: TableView, k: Seq<char>)
    ensures
        -1 <= key_index(t, k) < t.len(),
        key_index(t, k) >= 0 ==> t[key_index(t, k)].0 == k,
        forall|j: int| 0 <= j < t.len() && (key_index(t, k) < 0 || j < key_index(t, k)) ==> t[j].0 != k,
    decreases t.len(),
{
    if t.len() > 0 {
        let d = t.drop_last();
        lemma_key_index(d, k);
        assert forall|j: int|
            0 <= j < t.len() && (key_index(t, k) < 0 || j < key_index(t, k)) implies t[j].0 != k by {
            if j < d.len() {
                assert(t[j] == d[j]);
            }
        }
    }
}

/// Reading a key just put gives the value put; other keys are untouched.
pub proof fn lemma_get_put(t: TableView, k: Seq<char>, v: Seq<char>, k2: Seq<char>)
    ensures
        table_get(table_put(t, k, v), k2) == if k2 == k {
            Some(v)
        } else {
            table_get(t, k2)
        },
{
    let u = table_put(t, k, v);
    lemma_key_index(t, k);
    lemma_key_index(t, k2);
    lemma_key_index(u, k2);
    let i = key_index(t, k2);
    let iu = key_index(u, k2);
    if iu >= 0 {
        assert(!(i >= 0 && i < iu) || u[i].0 != k2);
    }
    if i >= 0 {
        assert(!(iu < 0 || i < iu) || u[i].0 != k2);
    }
}

/// A table of codes: an association list with at most one entry looked up per
/// key, the first.
#[derive(Debug)]
pub struct CodeTable {
    pub entries: Vec<(String, String)>,
}

impl View for CodeTable {
    type V = TableView;

    open spec fn view(&self) -> TableView {
        self.entries@.map_values(|e: (String, String)| (e.0@, e.1@))
    }
}

impl CodeTable {
    pub fn new() -> (r: Self)
        ensures
            r@ == Seq::<(Seq<char>, Seq<char>)>::empty(),
    {
        let r = CodeTable { entries: Vec::new() };
        assert(r@ =~= Seq::<(Seq<char>, Seq<char>)>::empty());
        r
    }

    fn index_of(&self, key: &String) -> (r: Option<usize>)
        ensures
            match r {
                Some(i) => i < self.entries.len() && key_index(self@, key@) == i as int,
                None => key_index(self@, key@) == -1,
            },
    {
        proof {
            lemma_key_index(self@, key@);
        }
        let mut i: usize = 0;
        while i < self.entries.len()
            invariant
                i <= self.entries.len(),
                forall|j: int| 0 <= j < i ==> self@[j].0 != key@,
                -1 <= key_index(self@, key@) < self@.len(),
                key_index(self@, key@) >= 0 ==> self@[key_index(self@, key@)].0 == key@,
                forall|j: int|
                    0 <= j < self@.len() && (key_index(self@, key@) < 0 || j < key_index(
                        self@,
                        key@,
                    )) ==> self@[j].0 != key@,
            decreases self.entries.len() - i,
        {
            if self.entries[i].0 == *key {
                assert(self@[i as int].0 == key@);
                return Some(i);
            }
            assert(self@[i as int].0 != key@);
            i = i + 1;
        }
        None
    }

    /// Maps `key` to `value`, overwriting the value of an existing entry.
    pub fn insert(&mut self, key: String, value: String)
        ensures
            final(self)@ == table_put(old(self)@, key@, value@),
    {
        match self.index_of(&key) {
            Some(i) => {
                self.entries.set(i, (key, value));
            },
            None => {
                self.entries.push((key, value));
            },
        }
        assert(self@ =~= table_put(old(self)@, key@, value@));
    }

    /// The value of `key`, matched exactly.
    pub fn lookup(&self, key: &str) -> (r: Option<&String>)
        ensures
            match r {
                Some(v) => table_get(self@, key@) == Some(v@),
                None => table_get(self@, key@) is None,
            },
    {
        let key = String::from_str(key);
        match self.index_of(&key) {
            Some(i) => Some(&self.entries[i].1),
            None => None,
        }
    }
}

/// The forward and reverse table of every namespace.
#[derive(Debug)]
pub struct CodeTables {
    pub iso639_1_forward: CodeTable,
    pub iso639_3_forward: CodeTable,
    pub nllb_forward: CodeTable,
    pub iso639_1_reverse: CodeTable,
    pub iso639_3_reverse: CodeTable,
    pub nllb_reverse: CodeTable,
}

impl CodeTables {
    pub open spec fn forward(self, ns: Namespace) -> TableView {
        match ns {
            Namespace::Iso639_1 => self.iso639_1_forward@,
            Namespace::Iso639_3 => self.iso639_3_forward@,
            Namespace::Nllb => self.nllb_forward@,
        }
    }

    pub open spec fn reverse(self, ns: Namespace) -> TableView {
        match ns {
            Namespace::Iso639_1 => self.iso639_1_reverse@,
            Namespace::Iso639_3 => self.iso639_3_reverse@,
            Namespace::Nllb => self.nllb_reverse@,
        }
    }

    /// The tables that a list of records gives.
    pub open spec fn built_from(self, recs: Seq<RecordView>) -> bool {
        forall|ns: Namespace|
            self.forward(ns) == forward_spec(recs, ns) && #[trigger] self.reverse(ns)
                == reverse_spec(recs, ns)
    }

    pub fn forward_table(&self, ns: Namespace) -> (r: &CodeTable)
        ensures
            r@ == self.forward(ns),
    {
        match ns {
            Namespace::Iso639_1 => &self.iso639_1_forward,
            Namespace::Iso639_3 => &self.iso639_3_forward,
            Namespace::Nllb => &self.nllb_forward,
        }
    }

    pub fn reverse_table(&self, ns: Namespace) -> (r: &CodeTable)
        ensures
            r@ == self.reverse(ns),
    {
        match ns {
            Namespace::Iso639_1 => &self.iso639_1_reverse,
            Namespace::Iso639_3 => &self.iso639_3_reverse,
            Namespace::Nllb => &self.nllb_reverse,
        }
    }

    /// The code of the variant named `variant` in namespace `ns`.
    pub fn get_code(&self, ns: Namespace, variant: &str) -> (r: Option<&String>)
        ensures
            match r {
                Some(c) => table_get(self.forward(ns), variant@) == Some(c@),
                None => table_get(self.forward(ns), variant@) is None,
            },
    {
        self.forward_table(ns).lookup(variant)
    }

    /// The name of the variant whose code in namespace `ns` is exactly `code`.
    pub fn from_code(&self, ns: Namespace, code: &str) -> (r: Option<&String>)
        ensures
            match r {
                Some(v) => table_get(self.reverse(ns), code@) == Some(v@),
                None => table_get(self.reverse(ns), code@) is None,
            },
    {
        self.reverse_table(ns).lookup(code)
    }
}

fn build_pair(records: &Vec<VariantRecord>, ns: Namespace) -> (r: (CodeTable, CodeTable))
    ensures
        r.0@ == forward_spec(record_views(records@), ns),
        r.1@ == reverse_spec(record_views(records@), ns),
{
    let ghost recs = record_views(records@);
    let mut forward = CodeTable::new();
    let mut reverse = CodeTable::new();
    let mut i: usize = 0;
    assert(recs.take(0) =~= Seq::<RecordView>::empty());
    while i < records.len()
        invariant
            i <= records.len(),
            recs == record_views(records@),
            forward@ == forward_spec(recs.take(i as int), ns),
            reverse@ == reverse_spec(recs.take(i as int), ns),
        decreases records.len() - i,
    {
        assert(recs.take(i + 1).drop_last() =~= recs.take(i as int));
        let rec = &records[i];
        match rec.ids.get(ns) {
            Some(code) => {
                forward.insert(rec.name.clone(), code.clone());
                reverse.insert(code.clone(), rec.name.clone());
            },
            None => {},
        }
        i = i + 1;
    }
    assert(recs.take(i as int) =~= recs);
    (forward, reverse)
}

/// Builds the six tables from the records, in record order.
pub fn build_tables(records: &Vec<VariantRecord>) -> (r: CodeTables)
    ensures
        r.built_from(record_views(records@)),
{
    let (iso639_1_forward, iso639_1_reverse) = build_pair(records, Namespace::Iso639_1);
    let (iso639_3_forward, iso639_3_reverse) = build_pair(records, Namespace::Iso639_3);
    let (nllb_forward, nllb_reverse) = build_pair(records, Namespace::Nllb);
    CodeTables {
        iso639_1_forward,
        iso639_3_forward,
        nllb_forward,
        iso639_1_reverse,
        iso639_3_reverse,
        nllb_reverse,
    }
}

} // verus!

//! Folding each declared variant's first annotation into a record of codes.
use vstd::prelude::*;
use crate::grammar::{
    codes_of, parse_spec, CodesView, GrammarError, GrammarErrorView, LanguageIdentifiers,
};

verus! {

/// A declared variant: its name and the annotation payloads attached to it,
/// in source order.
#[derive(Debug)]
pub struct Variant {
    pub name: String,
    pub annotations: Vec<String>,
}

pub type VariantView = (Seq<char>, Seq<Seq<char>>);

impl View for Variant {
    type V = VariantView;

    open spec fn view(&self) -> VariantView {
        (self.name@, self.annotations@.map_values(|a: String| a@))
    }
}

/// The codes of one annotated variant.
#[derive(Debug)]
pub struct VariantRecord {
    pub name: String,
    pub ids: LanguageIdentifiers,
}

pub type RecordView = (Seq<char>, CodesView);

impl View for VariantRecord {
    type V = RecordView;

    open spec fn view(&self) -> RecordView {
        (self.name@, self.ids@)
    }
}

/// A malformed annotation, attributed to the variant that carries it.
#[derive(Debug)]
pub struct AnnotationError {
    pub variant: String,
    pub error: GrammarError,
}

pub type AnnotationErrorView = (Seq<char>, GrammarErrorView);

impl View for AnnotationError {
    type V = AnnotationErrorView;

    open spec fn view(&self) -> AnnotationErrorView {
        (self.variant@, self.error@)
    }
}

pub open spec fn variant_views(vs: Seq<Variant>) -> Seq<VariantView> {
    vs.map_values(|v: Variant| v@)
}

pub open spec fn record_views(rs: Seq<VariantRecord>) -> Seq<RecordView> {
    rs.map_values(|r: VariantRecord| r@)
}

/// The records of the annotated variants, in declaration order, each read from
/// the variant's first annotation; or the first malformed annotation met.
pub open spec fn collect_spec(vs: Seq<VariantView>) -> Result<Seq<RecordView>, AnnotationErrorView>
    decreases vs.len(),
{
    if vs.len() == 0 {
        Ok(Seq::empty())
    } else {
        match collect_spec(vs.drop_last()) {
            Err(e) => Err(e),
            Ok(recs) => {
                let v = vs.last();
                if v.1.len() == 0 {
                    Ok(recs)
                } else {
                    match parse_spec(v.1[0]) {
                        Err(e) => Err((v.0, e)),
                        Ok(vals) => Ok(recs.push((v.0, codes_of(vals)))),
                    }
                }
            },
        }
    }
}

/// Once a prefix of the variants fails, the whole list fails the same way.
proof fn lemma_collect_failure_persists(vs: Seq<VariantView>, n: int)
    requires
        0 <= n <= vs.len(),
        collect_spec(vs.take(n)) is Err,
    ensures
        collect_spec(vs) == collect_spec(vs.take(n)),
    decreases vs.len() - n,
{
    if n < vs.len() {
        assert(vs.take(n + 1).drop_last() =~= vs.take(n));
        lemma_collect_failure_persists(vs, n + 1);
    } else {
        assert(vs.take(n) =~= vs);
    }
}

/// Reads the first annotation of every annotated variant. Fails, with the
/// variant named, at the first annotation that is malformed.
pub fn collect_identifiers(variants: &Vec<Variant>) -> (r: Result<Vec<VariantRecord>, AnnotationError>)
    ensures
        match r {
            Ok(recs) => collect_spec(variant_views(variants@)) == Ok::<_, AnnotationErrorView>(
                record_views(recs@),
            ),
            Err(e) => collect_spec(variant_views(variants@)) == Err::<Seq<RecordView>, _>(e@),
        },
{
    let ghost vs = variant_views(variants@);
    let mut out: Vec<VariantRecord> = Vec::new();
    let mut i: usize = 0;
    assert(vs.take(0) =~= Seq::<VariantView>::empty());
    assert(record_views(out@) =~= Seq::<RecordView>::empty());
    while i < variants.len()
        invariant
            i <= variants.len(),
            vs == variant_views(variants@),
            collect_spec(vs.take(i as int)) == Ok::<_, AnnotationErrorView>(record_views(out@)),
        decreases variants.len() - i,
    {
        assert(vs.take(i + 1).drop_last() =~= vs.take(i as int));
        let v = &variants[i];
        if v.annotations.len() > 0 {
            match LanguageIdentifiers::parse(v.annotations[0].as_str()) {
                Ok(ids) => {
                    let ghost before = record_views(out@);
                    out.push(VariantRecord { name: v.name.clone(), ids });
                    assert(record_views(out@) =~= before.push(out@.last()@));
                },
                Err(error) => {
                    let e = AnnotationError { variant: v.name.clone(), error };
                    proof {
                        lemma_collect_failure_persists(vs, i + 1);
                    }
                    return Err(e);
                },
            }
        }
        i = i + 1;
    }
    assert(vs.take(i as int) =~= vs);
    Ok(out)
}

} // verus!

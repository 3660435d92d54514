//! The annotation grammar: a comma-terminated list of `key = "literal"` clauses.
use vstd::prelude::*;

verus! {

/// One of the three code systems a language can be identified in.
#[allow(non_camel_case_types)]
#[derive(Clone, Copy, Debug, PartialEq, Eq, Structural)]
pub enum Namespace {
    Iso639_1,
    Iso639_3,
    Nllb,
}

impl Namespace {
    /// The key that introduces a clause of this namespace.
    pub open spec fn key_spec(self) -> Seq<char> {
        match self {
            Namespace::Iso639_1 => "iso639_1"@,
            Namespace::Iso639_3 => "iso639_3"@,
            Namespace::Nllb => "nllb"@,
        }
    }

    pub fn key(&self) -> (r: &'static str)
        ensures
            r@ == self.key_spec(),
    {
        match self {
            Namespace::Iso639_1 => "iso639_1",
            Namespace::Iso639_3 => "iso639_3",
            Namespace::Nllb => "nllb",
        }
    }
}

/// The namespace whose key is exactly `key`, if any.
pub open spec fn namespace_of(key: Seq<char>) -> Option<Namespace> {
    if key == Namespace::Iso639_1.key_spec() {
        Some(Namespace::Iso639_1)
    } else if key == Namespace::Iso639_3.key_spec() {
        Some(Namespace::Iso639_3)
    } else if key == Namespace::Nllb.key_spec() {
        Some(Namespace::Nllb)
    } else {
        None
    }
}

/// One parsed clause: a code tagged with its namespace.
#[allow(non_camel_case_types, clippy::upper_case_acronyms)]
#[derive(Debug)]
pub enum LanguageIdentifier {
    ISO639_1(String),
    ISO639_3(String),
    NLLB(String),
}

impl View for LanguageIdentifier {
    type V = (Namespace, Seq<char>);

    open spec fn view(&self) -> (Namespace, Seq<char>) {
        match self {
            LanguageIdentifier::ISO639_1(c) => (Namespace::Iso639_1, c@),
            LanguageIdentifier::ISO639_3(c) => (Namespace::Iso639_3, c@),
            LanguageIdentifier::NLLB(c) => (Namespace::Nllb, c@),
        }
    }
}

/// What went wrong in a malformed annotation.
#[derive(Clone, Copy, Debug, PartialEq, Eq, Structural)]
pub enum GrammarErrorKind {
    ExpectedKey,
    ExpectedEquals,
    ExpectedLiteral,
    UnterminatedLiteral,
    ExpectedComma,
    UnknownKey,
}

/// A malformed annotation: the kind of fault, the character offset where it
/// was found, and the offending token (empty at the end of the input).
#[derive(Debug)]
pub struct GrammarError {
    pub kind: GrammarErrorKind,
    pub position: usize,
    pub token: String,
}

pub type GrammarErrorView = (GrammarErrorKind, int, Seq<char>);

impl View for GrammarError {
    type V = GrammarErrorView;

    open spec fn view(&self) -> GrammarErrorView {
        (self.kind, self.position as int, self.token@)
    }
}

pub open spec fn is_space(c: char) -> bool {
    c == ' ' || c == '\t' || c == '\n' || c == '\r'
}

/// A character of a key: anything but whitespace and the grammar's own
/// punctuation, so that every word in key position is read as a key whole.
pub open spec fn is_key_char(c: char) -> bool {
    !is_space(c) && c != '=' && c != '"' && c != ','
}

/// The first position at or after `i` that does not hold whitespace.
pub open spec fn skip_space(s: Seq<char>, i: int) -> int
    decreases s.len() - i,
{
    if 0 <= i < s.len() && is_space(s[i]) {
        skip_space(s, i + 1)
    } else {
        i
    }
}

/// The end of the run of key characters that starts at `i`.
pub open spec fn key_end(s: Seq<char>, i: int) -> int
    decreases s.len() - i,
{
    if 0 <= i < s.len() && is_key_char(s[i]) {
        key_end(s, i + 1)
    } else {
        i
    }
}

/// Inside a string literal at `i`: the position of its closing quote, a
/// backslash skipping the character after it.
pub open spec fn closing_quote(s: Seq<char>, i: int) -> Option<int>
    decreases s.len() + 1 - i,
{
    if i < 0 || i >= s.len() {
        None
    } else if s[i] == '"' {
        Some(i)
    } else if s[i] == '\\' {
        closing_quote(s, i + 2)
    } else {
        closing_quote(s, i + 1)
    }
}

/// The one-character token at `i`, or nothing at the end of the input.
pub open spec fn token_at(s: Seq<char>, i: int) -> Seq<char> {
    if 0 <= i < s.len() {
        s.subrange(i, i + 1)
    } else {
        Seq::empty()
    }
}

/// The clause that starts at `i`, and the position just after it.
pub open spec fn clause_spec(s: Seq<char>, i: int) -> Result<((Namespace, Seq<char>), int), GrammarErrorView> {
    if !(0 <= i < s.len() && is_key_char(s[i])) {
        Err((GrammarErrorKind::ExpectedKey, i, token_at(s, i)))
    } else {
        let ke = key_end(s, i);
        let e = skip_space(s, ke);
        if !(e < s.len() && s[e] == '=') {
            Err((GrammarErrorKind::ExpectedEquals, e, token_at(s, e)))
        } else {
            let q = skip_space(s, e + 1);
            if !(q < s.len() && s[q] == '"') {
                Err((GrammarErrorKind::ExpectedLiteral, q, token_at(s, q)))
            } else {
                match closing_quote(s, q + 1) {
                    None => Err((GrammarErrorKind::UnterminatedLiteral, q, token_at(s, q))),
                    Some(c) => {
                        let key = s.subrange(i, ke);
                        match namespace_of(key) {
                            None => Err((GrammarErrorKind::UnknownKey, i, key)),
                            Some(ns) => Ok(((ns, s.subrange(q + 1, c)), c + 1)),
                        }
                    },
                }
            }
        }
    }
}

/// The clauses from position `i` to the end, each but the last followed by a
/// comma, the last optionally so.
pub open spec fn clauses_from(s: Seq<char>, i: int) -> Result<Seq<(Namespace, Seq<char>)>, GrammarErrorView>
    decreases s.len() - i,
    via clauses_from_decreases
{
    let p = skip_space(s, i);
    if p < 0 || p >= s.len() {
        Ok(Seq::empty())
    } else {
        match clause_spec(s, p) {
            Err(e) => Err(e),
            Ok((v, j)) => {
                let k = skip_space(s, j);
                if k >= s.len() {
                    Ok(seq![v])
                } else if s[k] == ',' {
                    match clauses_from(s, k + 1) {
                        Ok(rest) => Ok(seq![v] + rest),
                        Err(e) => Err(e),
                    }
                } else {
                    Err((GrammarErrorKind::ExpectedComma, k, token_at(s, k)))
                }
            },
        }
    }
}

#[via_fn]
proof fn clauses_from_decreases(s: Seq<char>, i: int) {
    let p = skip_space(s, i);
    lemma_skip_space(s, i);
    if 0 <= p < s.len() {
        lemma_clause_advances(s, p);
        if let Ok((v, j)) = clause_spec(s, p) {
            lemma_skip_space(s, j);
        }
    }
}

/// The clauses of a whole annotation payload, in order.
pub open spec fn parse_spec(s: Seq<char>) -> Result<Seq<(Namespace, Seq<char>)>, GrammarErrorView> {
    clauses_from(s, 0)
}

pub proof fn lemma_skip_space(s: Seq<char>, i: int)
    ensures
        skip_space(s, i) >= i,
        0 <= i <= s.len() ==> skip_space(s, i) <= s.len(),
        0 <= skip_space(s, i) < s.len() ==> !is_space(s[skip_space(s, i)]),
    decreases s.len() - i,
{
    if 0 <= i < s.len() && is_space(s[i]) {
        lemma_skip_space(s, i + 1);
    }
}

pub proof fn lemma_key_end(s: Seq<char>, i: int)
    ensures
        key_end(s, i) >= i,
        0 <= i <= s.len() ==> key_end(s, i) <= s.len(),
    decreases s.len() - i,
{
    if 0 <= i < s.len() && is_key_char(s[i]) {
        lemma_key_end(s, i + 1);
    }
}

pub proof fn lemma_closing_quote(s: Seq<char>, i: int)
    ensures
        closing_quote(s, i) matches Some(c) ==> i <= c < s.len() && s[c] == '"',
    decreases s.len() + 1 - i,
{
    if 0 <= i < s.len() && s[i] != '"' {
        if s[i] == '\\' {
            lemma_closing_quote(s, i + 2);
        } else {
            lemma_closing_quote(s, i + 1);
        }
    }
}

pub proof fn lemma_clause_advances(s: Seq<char>, i: int)
    ensures
        clause_spec(s, i) matches Ok((_, j)) ==> i < j <= s.len(),
{
    if 0 <= i < s.len() && is_key_char(s[i]) {
        let ke = key_end(s, i);
        lemma_key_end(s, i);
        lemma_skip_space(s, ke);
        let e = skip_space(s, ke);
        if e < s.len() {
            lemma_skip_space(s, e + 1);
            let q = skip_space(s, e + 1);
            lemma_closing_quote(s, q + 1);
        }
    }
}

/// The code of the last clause of namespace `ns`: a later clause overrides an
/// earlier one.
pub open spec fn last_code(vals: Seq<(Namespace, Seq<char>)>, ns: Namespace) -> Option<Seq<char>>
    decreases vals.len(),
{
    if vals.len() == 0 {
        None
    } else if vals.last().0 == ns {
        Some(vals.last().1)
    } else {
        last_code(vals.drop_last(), ns)
    }
}

pub type CodesView = (Option<Seq<char>>, Option<Seq<char>>, Option<Seq<char>>);

/// The codes that a sequence of clauses leaves for each namespace.
pub open spec fn codes_of(vals: Seq<(Namespace, Seq<char>)>) -> CodesView {
    (
        last_code(vals, Namespace::Iso639_1),
        last_code(vals, Namespace::Iso639_3),
        last_code(vals, Namespace::Nllb),
    )
}

pub open spec fn code_in(codes: CodesView, ns: Namespace) -> Option<Seq<char>> {
    match ns {
        Namespace::Iso639_1 => codes.0,
        Namespace::Iso639_3 => codes.1,
        Namespace::Nllb => codes.2,
    }
}

pub open spec fn opt_view(o: Option<String>) -> Option<Seq<char>> {
    match o {
        Some(s) => Some(s@),
        None => None,
    }
}

/// The codes of one variant, at most one per namespace.
#[derive(Debug)]
pub struct LanguageIdentifiers {
    pub iso_639_1: Option<String>,
    pub iso_639_3: Option<String>,
    pub nllb: Option<String>,
}

impl View for LanguageIdentifiers {
    type V = CodesView;

    open spec fn view(&self) -> CodesView {
        (opt_view(self.iso_639_1), opt_view(self.iso_639_3), opt_view(self.nllb))
    }
}

fn is_space_char(c: char) -> (r: bool)
    ensures
        r == is_space(c),
{
    c == ' ' || c == '\t' || c == '\n' || c == '\r'
}

fn is_key_char_exec(c: char) -> (r: bool)
    ensures
        r == is_key_char(c),
{
    !is_space_char(c) && c != '=' && c != '"' && c != ','
}

/// The characters of `text`, one by one.
pub fn chars_of(text: &str) -> (r: Vec<char>)
    ensures
        r@ == text@,
{
    let mut r: Vec<char> = Vec::new();
    for c in it: text.chars()
        invariant
            it.seq() == text@,
            r@ == text@.take(it.index() as int),
    {
        r.push(c);
        assert(r@ =~= text@.take(it.index() + 1));
    }
    assert(r@ =~= text@);
    r
}

fn skip_space_exec(s: &Vec<char>, i: usize) -> (r: usize)
    requires
        i <= s.len(),
    ensures
        r == skip_space(s@, i as int),
        i <= r <= s.len(),
{
    let mut j = i;
    while j < s.len() && is_space_char(s[j])
        invariant
            i <= j <= s.len(),
            skip_space(s@, j as int) == skip_space(s@, i as int),
        decreases s.len() - j,
    {
        j = j + 1;
    }
    j
}

fn key_end_exec(s: &Vec<char>, i: usize) -> (r: usize)
    requires
        i <= s.len(),
    ensures
        r == key_end(s@, i as int),
        i <= r <= s.len(),
{
    let mut j = i;
    while j < s.len() && is_key_char_exec(s[j])
        invariant
            i <= j <= s.len(),
            key_end(s@, j as int) == key_end(s@, i as int),
        decreases s.len() - j,
    {
        j = j + 1;
    }
    j
}

fn closing_quote_exec(s: &Vec<char>, from: usize) -> (r: Option<usize>)
    requires
        from <= s.len(),
    ensures
        match r {
            Some(c) => closing_quote(s@, from as int) == Some(c as int),
            None => closing_quote(s@, from as int) is None,
        },
{
    let mut j = from;
    while j < s.len()
        invariant
            from <= j <= s.len(),
            closing_quote(s@, j as int) == closing_quote(s@, from as int),
        decreases s.len() - j,
    {
        if s[j] == '"' {
            return Some(j);
        } else if s[j] == '\\' {
            if j + 1 >= s.len() {
                assert(closing_quote(s@, j + 2) is None);
                return None;
            }
            j = j + 2;
        } else {
            j = j + 1;
        }
    }
    None
}

/// Whether the characters `s[from..to]` spell `key` exactly.
fn spells(s: &Vec<char>, from: usize, to: usize, key: &str) -> (r: bool)
    requires
        from <= to <= s.len(),
    ensures
        r == (s@.subrange(from as int, to as int) == key@),
{
    let n = key.unicode_len();
    if to - from != n {
        assert(s@.subrange(from as int, to as int).len() != key@.len());
        return false;
    }
    let mut k: usize = 0;
    while k < n
        invariant
            k <= n,
            n == key@.len(),
            to - from == n,
            from <= to <= s.len(),
            forall|m: int| 0 <= m < k ==> s@[from + m] == key@[m],
        decreases n - k,
    {
        if s[from + k] != key.get_char(k) {
            assert(s@.subrange(from as int, to as int)[k as int] != key@[k as int]);
            return false;
        }
        k = k + 1;
    }
    assert(s@.subrange(from as int, to as int) =~= key@);
    true
}

fn namespace_of_exec(s: &Vec<char>, from: usize, to: usize) -> (r: Option<Namespace>)
    requires
        from <= to <= s.len(),
    ensures
        r == namespace_of(s@.subrange(from as int, to as int)),
{
    if spells(s, from, to, Namespace::Iso639_1.key()) {
        Some(Namespace::Iso639_1)
    } else if spells(s, from, to, Namespace::Iso639_3.key()) {
        Some(Namespace::Iso639_3)
    } else if spells(s, from, to, Namespace::Nllb.key()) {
        Some(Namespace::Nllb)
    } else {
        None
    }
}

/// The text of `s[from..to]`.
fn text_between(text: &str, s: &Vec<char>, from: usize, to: usize) -> (r: String)
    requires
        s@ == text@,
        from <= to <= s.len(),
    ensures
        r@ == s@.subrange(from as int, to as int),
{
    String::from_str(text.substring_char(from, to))
}

fn token_exec(text: &str, s: &Vec<char>, i: usize) -> (r: String)
    requires
        s@ == text@,
    ensures
        r@ == token_at(s@, i as int),
{
    if i < s.len() {
        text_between(text, s, i, i + 1)
    } else {
        String::new()
    }
}

fn fault(text: &str, s: &Vec<char>, kind: GrammarErrorKind, at: usize) -> (r: GrammarError)
    requires
        s@ == text@,
    ensures
        r@ == (kind, at as int, token_at(s@, at as int)),
{
    GrammarError { kind, position: at, token: token_exec(text, s, at) }
}

impl LanguageIdentifier {
    /// Parses the clause `key = "literal"` that starts at `at`, returning it
    /// and the position just after its closing quote.
    pub fn parse(text: &str, s: &Vec<char>, at: usize) -> (r: Result<(LanguageIdentifier, usize), GrammarError>)
        requires
            s@ == text@,
            at <= s.len(),
        ensures
            match r {
                Ok((id, k)) => clause_spec(s@, at as int) == Ok::<_, GrammarErrorView>((id@, k as int)),
                Err(e) => clause_spec(s@, at as int) == Err::<((Namespace, Seq<char>), int), _>(e@),
            },
    {
        if !(at < s.len() && is_key_char_exec(s[at])) {
            return Err(fault(text, s, GrammarErrorKind::ExpectedKey, at));
        }
        let ke = key_end_exec(s, at);
        let e = skip_space_exec(s, ke);
        if !(e < s.len() && s[e] == '=') {
            return Err(fault(text, s, GrammarErrorKind::ExpectedEquals, e));
        }
        let q = skip_space_exec(s, e + 1);
        if !(q < s.len() && s[q] == '"') {
            return Err(fault(text, s, GrammarErrorKind::ExpectedLiteral, q));
        }
        let c = match closing_quote_exec(s, q + 1) {
            None => {
                return Err(fault(text, s, GrammarErrorKind::UnterminatedLiteral, q));
            },
            Some(c) => c,
        };
        proof {
            lemma_closing_quote(s@, q + 1);
        }
        let code = text_between(text, s, q + 1, c);
        match namespace_of_exec(s, at, ke) {
            None => Err(GrammarError {
                kind: GrammarErrorKind::UnknownKey,
                position: at,
                token: text_between(text, s, at, ke),
            }),
            Some(Namespace::Iso639_1) => Ok((LanguageIdentifier::ISO639_1(code), c + 1)),
            Some(Namespace::Iso639_3) => Ok((LanguageIdentifier::ISO639_3(code), c + 1)),
            Some(Namespace::Nllb) => Ok((LanguageIdentifier::NLLB(code), c + 1)),
        }
    }
}

pub open spec fn views_of(ids: Seq<LanguageIdentifier>) -> Seq<(Namespace, Seq<char>)> {
    ids.map_values(|x: LanguageIdentifier| x@)
}

/// Parses a whole annotation payload into its clauses, in order.
pub fn parse_clauses(text: &str) -> (r: Result<Vec<LanguageIdentifier>, GrammarError>)
    ensures
        match r {
            Ok(v) => parse_spec(text@) == Ok::<_, GrammarErrorView>(views_of(v@)),
            Err(e) => parse_spec(text@) == Err::<Seq<(Namespace, Seq<char>)>, _>(e@),
        },
{
    let s = chars_of(text);
    let mut out: Vec<LanguageIdentifier> = Vec::new();
    let mut i: usize = 0;
    loop
        invariant
            s@ == text@,
            i <= s.len(),
            clauses_from(s@, 0) == (match clauses_from(s@, i as int) {
                Ok(rest) => Ok(views_of(out@) + rest),
                Err(e) => Err(e),
            }),
        decreases s.len() - i,
    {
        let p = skip_space_exec(&s, i);
        if p >= s.len() {
            assert(views_of(out@) + Seq::empty() =~= views_of(out@));
            return Ok(out);
        }
        let (id, j) = match LanguageIdentifier::parse(text, &s, p) {
            Ok(found) => found,
            Err(e) => {
                return Err(e);
            },
        };
        proof {
            lemma_clause_advances(s@, p as int);
        }
        let ghost v = id@;
        let k = skip_space_exec(&s, j);
        if k >= s.len() {
            let ghost before = views_of(out@);
            out.push(id);
            assert(views_of(out@) =~= before + seq![v]);
            return Ok(out);
        } else if s[k] == ',' {
            let ghost before = views_of(out@);
            out.push(id);
            assert(views_of(out@) =~= before.push(v));
            proof {
                match clauses_from(s@, k + 1) {
                    Ok(rest) => {
                        assert(before + (seq![v] + rest) =~= before.push(v) + rest);
                    },
                    Err(_) => {},
                }
            }
            i = k + 1;
        } else {
            return Err(fault(text, &s, GrammarErrorKind::ExpectedComma, k));
        }
    }
}

impl LanguageIdentifiers {
    pub fn new() -> (r: Self)
        ensures
            r@ == (None::<Seq<char>>, None::<Seq<char>>, None::<Seq<char>>),
    {
        LanguageIdentifiers { iso_639_1: None, iso_639_3: None, nllb: None }
    }

    /// The code this variant has in namespace `ns`.
    pub fn get(&self, ns: Namespace) -> (r: Option<&String>)
        ensures
            match r {
                Some(c) => code_in(self@, ns) == Some(c@),
                None => code_in(self@, ns) is None,
            },
    {
        match ns {
            Namespace::Iso639_1 => self.iso_639_1.as_ref(),
            Namespace::Iso639_3 => self.iso_639_3.as_ref(),
            Namespace::Nllb => self.nllb.as_ref(),
        }
    }

    /// Folds clauses left to right; a later clause of a namespace overrides
    /// an earlier one.
    pub fn fold(ids: &Vec<LanguageIdentifier>) -> (r: Self)
        ensures
            r@ == codes_of(views_of(ids@)),
    {
        let mut r = LanguageIdentifiers::new();
        let mut i: usize = 0;
        while i < ids.len()
            invariant
                i <= ids.len(),
                r@ == codes_of(views_of(ids@).take(i as int)),
            decreases ids.len() - i,
        {
            let ghost vals = views_of(ids@);
            assert(vals.take(i + 1).drop_last() =~= vals.take(i as int));
            match &ids[i] {
                LanguageIdentifier::ISO639_1(c) => r.iso_639_1 = Some(c.clone()),
                LanguageIdentifier::ISO639_3(c) => r.iso_639_3 = Some(c.clone()),
                LanguageIdentifier::NLLB(c) => r.nllb = Some(c.clone()),
            }
            i = i + 1;
        }
        assert(views_of(ids@).take(i as int) =~= views_of(ids@));
        r
    }

    /// Parses one annotation payload and folds its clauses.
    pub fn parse(text: &str) -> (r: Result<Self, GrammarError>)
        ensures
            match r {
                Ok(ids) => parse_spec(text@) matches Ok(vals) && ids@ == codes_of(vals),
                Err(e) => parse_spec(text@) == Err::<Seq<(Namespace, Seq<char>)>, _>(e@),
            },
    {
        match parse_clauses(text) {
            Ok(ids) => Ok(LanguageIdentifiers::fold(&ids)),
            Err(e) => Err(e),
        }
    }
}

pub open spec fn expectation(kind: GrammarErrorKind) -> Seq<char> {
    match kind {
        GrammarErrorKind::ExpectedKey => "expected identifier"@,
        GrammarErrorKind::ExpectedEquals => "expected `=`"@,
        GrammarErrorKind::ExpectedLiteral => "expected string literal"@,
        GrammarErrorKind::UnterminatedLiteral => "unterminated string literal"@,
        GrammarErrorKind::ExpectedComma => "expected `,`"@,
        GrammarErrorKind::UnknownKey => "should be `iso639_1`, `iso639_3` or `nllb`, parsed: "@,
    }
}

/// The diagnostic text of an error.
pub open spec fn message_of(e: GrammarErrorView) -> Seq<char> {
    if e.0 == GrammarErrorKind::UnknownKey {
        expectation(e.0) + e.2
    } else if e.2.len() == 0 {
        expectation(e.0) + ", found end of input"@
    } else {
        expectation(e.0) + ", found `"@ + e.2 + "`"@
    }
}

impl GrammarError {
    fn expectation(&self) -> (r: &'static str)
        ensures
            r@ == expectation(self.kind),
    {
        match self.kind {
            GrammarErrorKind::ExpectedKey => "expected identifier",
            GrammarErrorKind::ExpectedEquals => "expected `=`",
            GrammarErrorKind::ExpectedLiteral => "expected string literal",
            GrammarErrorKind::UnterminatedLiteral => "unterminated string literal",
            GrammarErrorKind::ExpectedComma => "expected `,`",
            GrammarErrorKind::UnknownKey => "should be `iso639_1`, `iso639_3` or `nllb`, parsed: ",
        }
    }

    /// The diagnostic text: what was expected and the token found instead.
    pub fn message(&self) -> (r: String)
        ensures
            r@ == message_of(self@),
    {
        let mut m = String::from_str(self.expectation());
        if self.kind == GrammarErrorKind::UnknownKey {
            m.append(self.token.as_str());
        } else if self.token.as_str().unicode_len() == 0 {
            m.append(", found end of input");
        } else {
            m.append(", found `");
            m.append(self.token.as_str());
            m.append("`");
        }
        m
    }
}

} // verus!

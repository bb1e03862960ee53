//! Compiling pattern texts into matchers, and merging a group's own patterns
//! with the global ones.

use vstd::prelude::*;

use crate::config::Specific;

verus! {

#[verifier::external_type_specification]
#[verifier::external_body]
pub struct ExRegex(regex::Regex);

#[verifier::external_type_specification]
#[verifier::external_body]
pub struct ExRegexError(regex::Error);

/// Whether `regex::Regex::new` accepts `pattern`.
pub uninterp spec fn compiles(pattern: Seq<char>) -> bool;

/// Whether the regex compiled from `pattern` matches somewhere in `haystack`.
pub uninterp spec fn regex_matches(pattern: Seq<char>, haystack: Seq<char>) -> bool;

/// A compiled matcher together with the text it was compiled from.
///
/// The fields are private: a value is made only by `compile`, which builds the
/// regex from exactly the kept text, or copied by `duplicate`.
pub struct CompiledPattern {
    source: String,
    regex: regex::Regex,
}

impl View for CompiledPattern {
    type V = Seq<char>;

    closed spec fn view(&self) -> Seq<char> {
        self.source@
    }
}

/// A pattern text that did not compile, with the compiler's message.
pub struct CompileWarning {
    pub pattern: String,
    pub message: String,
}

/// The texts of a sequence of strings.
pub open spec fn texts(v: Seq<String>) -> Seq<Seq<char>> {
    v.map_values(|s: String| s@)
}

/// The source texts of a sequence of compiled patterns.
pub open spec fn sources(v: Seq<CompiledPattern>) -> Seq<Seq<char>> {
    v.map_values(|p: CompiledPattern| p@)
}

/// The pattern texts of a sequence of warnings.
pub open spec fn warned(v: Seq<CompileWarning>) -> Seq<Seq<char>> {
    v.map_values(|w: CompileWarning| w.pattern@)
}

/// The texts of `v` that compile, in their order.
pub open spec fn valid_patterns(v: Seq<Seq<char>>) -> Seq<Seq<char>>
    decreases v.len(),
{
    if v.len() == 0 {
        Seq::empty()
    } else if compiles(v.last()) {
        valid_patterns(v.drop_last()).push(v.last())
    } else {
        valid_patterns(v.drop_last())
    }
}

/// The texts of `v` that do not compile, in their order.
pub open spec fn invalid_patterns(v: Seq<Seq<char>>) -> Seq<Seq<char>>
    decreases v.len(),
{
    if v.len() == 0 {
        Seq::empty()
    } else if compiles(v.last()) {
        invalid_patterns(v.drop_last())
    } else {
        invalid_patterns(v.drop_last()).push(v.last())
    }
}

/// Relies on regex::Regex::new: whether it succeeds depends on the pattern text
/// alone; on success the regex is kept beside that text.
#[verifier::external_body]
fn compile(s: &String) -> (r: Result<CompiledPattern, regex::Error>)
    ensures
        r is Ok <==> compiles(s@),
        r matches Ok(p) ==> p@ == s@,
{
    match regex::Regex::new(s.as_str()) {
        Ok(regex) => Ok(CompiledPattern { source: s.clone(), regex }),
        Err(e) => Err(e),
    }
}

/// Relies on regex::Error's `Display` impl for the compiler's message.
#[verifier::external_body]
fn error_message(e: &regex::Error) -> String {
    e.to_string()
}

/// Relies on regex::Regex's `Clone`: the copy is the same compiled regex.
#[verifier::external_body]
fn copy_regex(r: &regex::Regex) -> regex::Regex {
    r.clone()
}

/// Relies on regex::Regex::is_match: true if and only if the regex matches
/// anywhere in `line`.
#[verifier::external_body]
fn regex_is_match(p: &CompiledPattern, line: &str) -> (r: bool)
    ensures
        r == regex_matches(p@, line@),
{
    p.regex.is_match(line)
}

impl CompiledPattern {
    /// The text this pattern was compiled from.
    pub fn source(&self) -> (r: &String)
        ensures
            r@ == self@,
    {
        &self.source
    }

    /// Whether the pattern matches anywhere in `line`.
    pub fn is_match(&self, line: &str) -> (r: bool)
        ensures
            r == regex_matches(self@, line@),
    {
        regex_is_match(self, line)
    }

    /// A copy of this pattern, compiled from the same text.
    pub fn duplicate(&self) -> (r: CompiledPattern)
        ensures
            r@ == self@,
    {
        CompiledPattern { source: self.source.clone(), regex: copy_regex(&self.regex) }
    }
}

/// Compiles each text on its own. The ones that compile come back in their
/// order; each one that does not yields a warning, also in order, and does not
/// affect the others.
pub fn make_patterns(v: &Vec<String>) -> (r: (Vec<CompiledPattern>, Vec<CompileWarning>))
    ensures
        sources(r.0@) == valid_patterns(texts(v@)),
        warned(r.1@) == invalid_patterns(texts(v@)),
{
    let mut regexes: Vec<CompiledPattern> = Vec::new();
    let mut warnings: Vec<CompileWarning> = Vec::new();
    let mut i: usize = 0;
    while i < v.len()
        invariant
            i <= v@.len(),
            sources(regexes@) == valid_patterns(texts(v@.take(i as int))),
            warned(warnings@) == invalid_patterns(texts(v@.take(i as int))),
        decreases v@.len() - i,
    {
        let ghost before = texts(v@.take(i as int));
        let ghost after = texts(v@.take(i + 1));
        assert(after.drop_last() =~= before);
        assert(after.last() == v@[i as int]@);
        match compile(&v[i]) {
            Ok(p) => {
                regexes.push(p);
                assert(sources(regexes@) =~= valid_patterns(after));
            },
            Err(e) => {
                let message = error_message(&e);
                warnings.push(CompileWarning { pattern: v[i].clone(), message });
                assert(warned(warnings@) =~= invalid_patterns(after));
            },
        }
        i = i + 1;
    }
    assert(v@.take(v@.len() as int) =~= v@);
    (regexes, warnings)
}

/// A group's effective patterns: its own compiled patterns, then copies of the
/// global ones, in that order.
pub fn effective_patterns(
    own: Vec<CompiledPattern>,
    global: &Vec<CompiledPattern>,
) -> (r: Vec<CompiledPattern>)
    ensures
        sources(r@) == sources(own@) + sources(global@),
{
    let mut out = own;
    let ghost start = sources(out@);
    let mut i: usize = 0;
    while i < global.len()
        invariant
            i <= global@.len(),
            sources(out@) == start + sources(global@.take(i as int)),
        decreases global@.len() - i,
    {
        let ghost prev = out@;
        out.push(global[i].duplicate());
        assert(sources(out@) =~= sources(prev).push(global@[i as int]@));
        assert(sources(global@.take(i + 1)) =~= sources(global@.take(i as int)).push(global@[i as int]@));
        assert(sources(out@) =~= start + sources(global@.take(i + 1)));
        i = i + 1;
    }
    assert(global@.take(global@.len() as int) =~= global@);
    out
}


/// Compiles a group's own patterns and puts them before copies of the already
/// compiled global ones; the group's texts that do not compile come back as
/// warnings.
pub fn resolve_patterns(
    group: &Specific,
    global: &Vec<CompiledPattern>,
) -> (r: (Vec<CompiledPattern>, Vec<CompileWarning>))
    ensures
        sources(r.0@) == valid_patterns(texts(group.patterns@)) + sources(global@),
        warned(r.1@) == invalid_patterns(texts(group.patterns@)),
{
    let (own, warnings) = make_patterns(&group.patterns);
    (effective_patterns(own, global), warnings)
}

/// Compiling keeps exactly the texts that compile, in their order, and warns
/// once for each of the others: nothing is lost, added or reordered.
pub proof fn lemma_pattern_isolation(v: Seq<Seq<char>>)
    ensures
        valid_patterns(v) == v.filter(|p: Seq<char>| compiles(p)),
        invalid_patterns(v) == v.filter(|p: Seq<char>| !compiles(p)),
        valid_patterns(v).len() + invalid_patterns(v).len() == v.len(),
    decreases v.len(),
{
    reveal(Seq::filter);
    if v.len() > 0 {
        lemma_pattern_isolation(v.drop_last());
    }
}

} // verus!

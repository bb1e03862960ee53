//! Checking the lines of one file against a list of compiled patterns.

use vstd::prelude::*;

use crate::pattern::{regex_matches, sources, texts, CompiledPattern};
use crate::text::{contains_marker, has_substring};

verus! {

/// A line that matched a pattern and carried no overrule marker.
pub struct Violation {
    /// 1-based position of the line in its file.
    pub line_number: usize,
    /// The line as read, without its line ending.
    pub line: String,
    /// The text of the pattern that matched.
    pub pattern: String,
    /// The file the line belongs to.
    pub file_path: String,
}

/// The mathematical value of a `Violation`.
pub struct ViolationView {
    pub line_number: nat,
    pub line: Seq<char>,
    pub pattern: Seq<char>,
    pub file_path: Seq<char>,
}

impl View for Violation {
    type V = ViolationView;

    open spec fn view(&self) -> ViolationView {
        ViolationView {
            line_number: self.line_number as nat,
            line: self.line@,
            pattern: self.pattern@,
            file_path: self.file_path@,
        }
    }
}

/// What a file's scan reports.
#[derive(Clone, Copy, PartialEq, Eq, Structural, Debug)]
pub enum MatchPolicy {
    /// Every matching, non-exempt (line, pattern) pair of the file.
    AccumulateAll,
    /// Only the first of those; the scan of the file stops there.
    FailFast,
}

pub open spec fn views(v: Seq<Violation>) -> Seq<ViolationView> {
    v.map_values(|x: Violation| x@)
}

/// A line holding the overrule marker is exempt from every pattern.
pub open spec fn exempt(line: Seq<char>, overrule: Seq<char>) -> bool {
    has_substring(line, overrule)
}

/// The violations of one line, numbered `number`, against `pats` in order.
pub open spec fn line_violations(
    path: Seq<char>,
    number: nat,
    line: Seq<char>,
    pats: Seq<Seq<char>>,
    overrule: Seq<char>,
) -> Seq<ViolationView>
    decreases pats.len(),
{
    if pats.len() == 0 || exempt(line, overrule) {
        Seq::empty()
    } else {
        let rest = line_violations(path, number, line, pats.drop_last(), overrule);
        if regex_matches(pats.last(), line) {
            rest.push(
                ViolationView { line_number: number, line, pattern: pats.last(), file_path: path },
            )
        } else {
            rest
        }
    }
}

/// The violations of a whole file: line by line, and within a line pattern by
/// pattern.
pub open spec fn file_violations(
    path: Seq<char>,
    lines: Seq<Seq<char>>,
    pats: Seq<Seq<char>>,
    overrule: Seq<char>,
) -> Seq<ViolationView>
    decreases lines.len(),
{
    if lines.len() == 0 {
        Seq::empty()
    } else {
        file_violations(path, lines.drop_last(), pats, overrule) + line_violations(
            path,
            lines.len(),
            lines.last(),
            pats,
            overrule,
        )
    }
}

/// What a policy keeps of the complete list of violations.
pub open spec fn kept(policy: MatchPolicy, all: Seq<ViolationView>) -> Seq<ViolationView> {
    match policy {
        MatchPolicy::AccumulateAll => all,
        MatchPolicy::FailFast => if all.len() == 0 {
            all
        } else {
            all.take(1)
        },
    }
}

pub open spec fn is_prefix(a: Seq<ViolationView>, b: Seq<ViolationView>) -> bool {
    a.len() <= b.len() && b.take(a.len() as int) == a
}

proof fn lemma_line_prefix(
    path: Seq<char>,
    number: nat,
    line: Seq<char>,
    pats: Seq<Seq<char>>,
    overrule: Seq<char>,
    j: int,
)
    requires
        0 <= j <= pats.len(),
    ensures
        is_prefix(
            line_violations(path, number, line, pats.take(j), overrule),
            line_violations(path, number, line, pats, overrule),
        ),
    decreases pats.len(),
{
    let a = line_violations(path, number, line, pats.take(j), overrule);
    let b = line_violations(path, number, line, pats, overrule);
    if j == pats.len() {
        assert(pats.take(j) =~= pats);
        assert(b.take(b.len() as int) =~= b);
    } else {
        assert(pats.take(j) =~= pats.drop_last().take(j));
        lemma_line_prefix(path, number, line, pats.drop_last(), overrule, j);
        let m = line_violations(path, number, line, pats.drop_last(), overrule);
        if exempt(line, overrule) {
            assert(b.take(0) =~= b.take(0));
        } else {
            assert(b.take(a.len() as int) =~= m.take(a.len() as int));
        }
    }
}

proof fn lemma_file_prefix(
    path: Seq<char>,
    lines: Seq<Seq<char>>,
    pats: Seq<Seq<char>>,
    overrule: Seq<char>,
    i: int,
)
    requires
        0 <= i <= lines.len(),
    ensures
        is_prefix(
            file_violations(path, lines.take(i), pats, overrule),
            file_violations(path, lines, pats, overrule),
        ),
    decreases lines.len(),
{
    let a = file_violations(path, lines.take(i), pats, overrule);
    let b = file_violations(path, lines, pats, overrule);
    if i == lines.len() {
        assert(lines.take(i) =~= lines);
        assert(b.take(b.len() as int) =~= b);
    } else {
        assert(lines.take(i) =~= lines.drop_last().take(i));
        lemma_file_prefix(path, lines.drop_last(), pats, overrule, i);
        let m = file_violations(path, lines.drop_last(), pats, overrule);
        assert(b.take(a.len() as int) =~= m.take(a.len() as int));
    }
}

/// The patterns of `pats` that match `line`, in order.
pub open spec fn matching(pats: Seq<Seq<char>>, line: Seq<char>) -> Seq<Seq<char>> {
    pats.filter(|p: Seq<char>| regex_matches(p, line))
}

/// How many violations a line owes: none when exempt, else one per matching
/// pattern.
pub open spec fn owed(line: Seq<char>, pats: Seq<Seq<char>>, overrule: Seq<char>) -> nat {
    if exempt(line, overrule) {
        0
    } else {
        matching(pats, line).len()
    }
}

/// The sum of `owed` over the lines.
pub open spec fn total_owed(lines: Seq<Seq<char>>, pats: Seq<Seq<char>>, overrule: Seq<char>) -> nat
    decreases lines.len(),
{
    if lines.len() == 0 {
        0
    } else {
        total_owed(lines.drop_last(), pats, overrule) + owed(lines.last(), pats, overrule)
    }
}

proof fn lemma_line_facts(
    path: Seq<char>,
    number: nat,
    line: Seq<char>,
    pats: Seq<Seq<char>>,
    overrule: Seq<char>,
)
    ensures
        line_violations(path, number, line, pats, overrule).len() == owed(line, pats, overrule),
        forall|k: int|
            0 <= k < line_violations(path, number, line, pats, overrule).len() ==> {
                let v = #[trigger] line_violations(path, number, line, pats, overrule)[k];
                &&& v.line_number == number
                &&& v.line == line
                &&& v.file_path == path
                &&& !exempt(v.line, overrule)
                &&& regex_matches(v.pattern, v.line)
                &&& pats.contains(v.pattern)
            },
    decreases pats.len(),
{
    reveal(Seq::filter);
    let lv = line_violations(path, number, line, pats, overrule);
    if pats.len() == 0 {
    } else if exempt(line, overrule) {
    } else {
        lemma_line_facts(path, number, line, pats.drop_last(), overrule);
        let rest = line_violations(path, number, line, pats.drop_last(), overrule);
        assert forall|k: int| 0 <= k < lv.len() implies pats.contains(#[trigger] lv[k].pattern) by {
            if k < rest.len() {
                let q = rest[k].pattern;
                let w = choose|w: int| 0 <= w < pats.drop_last().len() && pats.drop_last()[w] == q;
                assert(pats[w] == q);
            } else {
                assert(pats[pats.len() - 1] == lv[k].pattern);
            }
        }
    }
}

proof fn lemma_file_facts(
    path: Seq<char>,
    lines: Seq<Seq<char>>,
    pats: Seq<Seq<char>>,
    overrule: Seq<char>,
)
    ensures
        file_violations(path, lines, pats, overrule).len() == total_owed(lines, pats, overrule),
        forall|k: int|
            0 <= k < file_violations(path, lines, pats, overrule).len() ==> {
                let v = #[trigger] file_violations(path, lines, pats, overrule)[k];
                &&& 1 <= v.line_number <= lines.len()
                &&& v.line == lines[v.line_number - 1]
                &&& v.file_path == path
                &&& !exempt(v.line, overrule)
                &&& regex_matches(v.pattern, v.line)
                &&& pats.contains(v.pattern)
            },
        forall|k1: int, k2: int|
            0 <= k1 < k2 < file_violations(path, lines, pats, overrule).len() ==> (
            #[trigger] file_violations(path, lines, pats, overrule)[k1]).line_number
                <= (#[trigger] file_violations(path, lines, pats, overrule)[k2]).line_number,
    decreases lines.len(),
{
    if lines.len() > 0 {
        let fv = file_violations(path, lines, pats, overrule);
        let dl = lines.drop_last();
        lemma_file_facts(path, dl, pats, overrule);
        lemma_line_facts(path, lines.len(), lines.last(), pats, overrule);
        let head = file_violations(path, dl, pats, overrule);
        let tail = line_violations(path, lines.len(), lines.last(), pats, overrule);
        assert forall|k: int| 0 <= k < fv.len() implies {
            let v = #[trigger] fv[k];
            &&& 1 <= v.line_number <= lines.len()
            &&& v.line == lines[v.line_number - 1]
            &&& v.file_path == path
            &&& !exempt(v.line, overrule)
            &&& regex_matches(v.pattern, v.line)
            &&& pats.contains(v.pattern)
        } by {
            if k < head.len() {
                assert(fv[k] == head[k]);
                assert(dl[head[k].line_number - 1] == lines[head[k].line_number - 1]);
            } else {
                assert(fv[k] == tail[k - head.len()]);
            }
        }
        assert forall|k1: int, k2: int| 0 <= k1 < k2 < fv.len() implies (#[trigger] fv[k1]).line_number
            <= (#[trigger] fv[k2]).line_number by {
            if k2 < head.len() {
                assert(fv[k1] == head[k1]);
                assert(fv[k2] == head[k2]);
            } else if k1 < head.len() {
                assert(fv[k1] == head[k1]);
                assert(fv[k2] == tail[k2 - head.len()]);
            } else {
                assert(fv[k1] == tail[k1 - head.len()]);
                assert(fv[k2] == tail[k2 - head.len()]);
            }
        }
    }
}

/// A line that holds the overrule marker gives no violation, whatever patterns
/// it matches: no reported line holds the marker, and the violations of a
/// marked line are none.
pub proof fn lemma_overrule_exempts(
    path: Seq<char>,
    lines: Seq<Seq<char>>,
    pats: Seq<Seq<char>>,
    overrule: Seq<char>,
)
    ensures
        forall|k: int|
            0 <= k < file_violations(path, lines, pats, overrule).len() ==> !has_substring(
                (#[trigger] file_violations(path, lines, pats, overrule)[k]).line,
                overrule,
            ),
        forall|n: nat, line: Seq<char>|
            has_substring(line, overrule) ==> (#[trigger] line_violations(
                path,
                n,
                line,
                pats,
                overrule,
            )).len() == 0,
{
    lemma_file_facts(path, lines, pats, overrule);
}

/// In a file scanned completely there is exactly one violation per pair of a
/// non-exempt line and a pattern that matches it, and each violation names
/// such a pair.
pub proof fn lemma_completeness(
    path: Seq<char>,
    lines: Seq<Seq<char>>,
    pats: Seq<Seq<char>>,
    overrule: Seq<char>,
)
    ensures
        file_violations(path, lines, pats, overrule).len() == total_owed(lines, pats, overrule),
        forall|k: int|
            0 <= k < file_violations(path, lines, pats, overrule).len() ==> {
                let v = #[trigger] file_violations(path, lines, pats, overrule)[k];
                &&& !exempt(v.line, overrule)
                &&& regex_matches(v.pattern, v.line)
                &&& pats.contains(v.pattern)
                &&& v.file_path == path
            },
{
    lemma_file_facts(path, lines, pats, overrule);
}

/// Line numbers start at 1, count every line of the file, name the very line
/// that was reported, and never decrease along the list of violations.
pub proof fn lemma_line_numbering(
    path: Seq<char>,
    lines: Seq<Seq<char>>,
    pats: Seq<Seq<char>>,
    overrule: Seq<char>,
)
    ensures
        forall|k: int|
            0 <= k < file_violations(path, lines, pats, overrule).len() ==> {
                let v = #[trigger] file_violations(path, lines, pats, overrule)[k];
                &&& 1 <= v.line_number <= lines.len()
                &&& v.line == lines[v.line_number - 1]
            },
        forall|k1: int, k2: int|
            0 <= k1 < k2 < file_violations(path, lines, pats, overrule).len() ==> (
            #[trigger] file_violations(path, lines, pats, overrule)[k1]).line_number
                <= (#[trigger] file_violations(path, lines, pats, overrule)[k2]).line_number,
{
    lemma_file_facts(path, lines, pats, overrule);
}

/// Checks the lines of the file at `path` against `patterns`, in order. A line
/// holding `overrule` is skipped whole; otherwise each pattern that matches it
/// gives one violation. Under `FailFast` the scan stops at the first violation.
pub fn check_file(
    path: &String,
    lines: &Vec<String>,
    patterns: &Vec<CompiledPattern>,
    overrule: &str,
    policy: MatchPolicy,
) -> (r: Vec<Violation>)
    ensures
        views(r@) == kept(policy, file_violations(path@, texts(lines@), sources(patterns@), overrule@)),
{
    let ghost pats = sources(patterns@);
    let ghost all = file_violations(path@, texts(lines@), pats, overrule@);
    let mut results: Vec<Violation> = Vec::new();
    let mut i: usize = 0;
    while i < lines.len()
        invariant
            i <= lines@.len(),
            pats == sources(patterns@),
            all == file_violations(path@, texts(lines@), pats, overrule@),
            views(results@) == file_violations(path@, texts(lines@.take(i as int)), pats, overrule@),
            policy == MatchPolicy::FailFast ==> results@.len() == 0,
        decreases lines@.len() - i,
    {
        let ghost done = texts(lines@.take(i as int));
        let ghost upto = texts(lines@.take(i + 1));
        assert(upto.drop_last() =~= done);
        assert(upto.last() == lines@[i as int]@);
        let line = &lines[i];
        let line_number: usize = i + 1;
        if !contains_marker(line.as_str(), overrule) {
            let mut j: usize = 0;
            while j < patterns.len()
                invariant
                    i < lines@.len(),
                    line == &lines@[i as int],
                    line_number == i + 1,
                    j <= patterns@.len(),
                    !exempt(line@, overrule@),
                    pats == sources(patterns@),
                    all == file_violations(path@, texts(lines@), pats, overrule@),
                    done == texts(lines@.take(i as int)),
                    upto == texts(lines@.take(i + 1)),
                    upto.drop_last() == done,
                    upto.last() == line@,
                    views(results@) == file_violations(path@, done, pats, overrule@)
                        + line_violations(
                        path@,
                        line_number as nat,
                        line@,
                        pats.take(j as int),
                        overrule@,
                    ),
                    policy == MatchPolicy::FailFast ==> results@.len() == 0,
                decreases patterns@.len() - j,
            {
                let ghost before = results@;
                let ghost step = pats.take(j + 1);
                assert(step.drop_last() =~= pats.take(j as int));
                assert(step.last() == patterns@[j as int]@);
                if patterns[j].is_match(line.as_str()) {
                    let v = Violation {
                        line_number,
                        line: line.clone(),
                        pattern: patterns[j].source().clone(),
                        file_path: path.clone(),
                    };
                    results.push(v);
                    assert(views(results@) =~= views(before).push(v@));
                    if policy == MatchPolicy::FailFast {
                        proof {
                            lemma_line_prefix(path@, line_number as nat, line@, pats, overrule@, j + 1);
                            lemma_file_prefix(path@, texts(lines@), pats, overrule@, i + 1);
                            assert(texts(lines@).take(i + 1) =~= upto);
                            assert(views(results@) =~= line_violations(path@, line_number as nat, line@, step, overrule@));
                            assert(all.take(1) =~= views(results@));
                        }
                        return results;
                    }
                }
                assert(views(results@) =~= file_violations(path@, done, pats, overrule@)
                    + line_violations(path@, line_number as nat, line@, step, overrule@));
                j = j + 1;
            }
            assert(pats.take(j as int) =~= pats);
        }
        assert(views(results@) =~= file_violations(path@, upto, pats, overrule@));
        i = i + 1;
    }
    assert(lines@.take(i as int) =~= lines@);
    results
}

} // verus!

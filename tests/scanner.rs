use prohibit::config::Specific;
use prohibit::pattern::{effective_patterns, make_patterns, resolve_patterns, CompiledPattern};
use prohibit::report::{verdict, EntryKind, GroupScan};
use prohibit::scan::{check_file, MatchPolicy, Violation};
use prohibit::text::{contains_marker, split_lines};

fn strings(v: &[&str]) -> Vec<String> {
    v.iter().map(|s| s.to_string()).collect()
}

fn compiled(v: &[&str]) -> Vec<CompiledPattern> {
    let (patterns, warnings) = make_patterns(&strings(v));
    assert!(warnings.is_empty());
    patterns
}

fn sources(v: &[CompiledPattern]) -> Vec<String> {
    v.iter().map(|p| p.source().clone()).collect()
}

fn scan(path: &str, lines: &[&str], patterns: &[&str], overrule: &str) -> Vec<Violation> {
    check_file(
        &path.to_string(),
        &strings(lines),
        &compiled(patterns),
        overrule,
        MatchPolicy::AccumulateAll,
    )
}

#[test]
fn compiling_keeps_valid_patterns_in_order() {
    let (patterns, warnings) = make_patterns(&strings(&["a+", "(bad", "b[0-9]", "[z", "c"]));
    assert_eq!(sources(&patterns), strings(&["a+", "b[0-9]", "c"]));
    assert_eq!(warnings.len(), 2);
    assert_eq!(warnings[0].pattern, "(bad");
    assert_eq!(warnings[1].pattern, "[z");
    assert!(!warnings[0].message.is_empty());
}

#[test]
fn malformed_pattern_gives_warning_and_no_matcher() {
    let (patterns, warnings) = make_patterns(&strings(&["(unclosed"]));
    assert!(patterns.is_empty());
    assert_eq!(warnings.len(), 1);
    assert_eq!(warnings[0].pattern, "(unclosed");
    let found = check_file(
        &"./src/a.txt".to_string(),
        &strings(&["(unclosed", "anything"]),
        &patterns,
        "NOLINT",
        MatchPolicy::AccumulateAll,
    );
    assert!(found.is_empty());
}

#[test]
fn empty_pattern_list_compiles_to_nothing() {
    let (patterns, warnings) = make_patterns(&Vec::new());
    assert!(patterns.is_empty());
    assert!(warnings.is_empty());
}

#[test]
fn group_patterns_come_before_global_ones() {
    let global = compiled(&["TODO", "FIXME"]);
    let own = compiled(&["sk_live_[0-9a-zA-Z]+"]);
    let merged = effective_patterns(own, &global);
    assert_eq!(sources(&merged), strings(&["sk_live_[0-9a-zA-Z]+", "TODO", "FIXME"]));
}

#[test]
fn resolving_keeps_duplicates_and_reports_bad_group_patterns() {
    let global = compiled(&["TODO"]);
    let group = Specific { targets: strings(&["./src"]), patterns: strings(&["TODO", "(x"]) };
    let (merged, warnings) = resolve_patterns(&group, &global);
    assert_eq!(sources(&merged), strings(&["TODO", "TODO"]));
    assert_eq!(warnings.len(), 1);
    assert_eq!(warnings[0].pattern, "(x");
}

#[test]
fn duplicate_keeps_source_and_matching() {
    let p = &compiled(&["ab+c"])[0];
    let q = p.duplicate();
    assert_eq!(q.source(), "ab+c");
    assert!(q.is_match("xxabbbcxx"));
    assert!(!q.is_match("ac"));
}

#[test]
fn marker_is_a_literal_substring() {
    assert!(contains_marker("// TODO fix this NOLINT", "NOLINT"));
    assert!(contains_marker("NOLINT", "NOLINT"));
    assert!(!contains_marker("// TODO fix this NOLIN", "NOLINT"));
    assert!(!contains_marker("", "NOLINT"));
    assert!(contains_marker("anything", ""));
    assert!(!contains_marker("a.c", "a?c"));
    assert!(contains_marker("x a?c y", "a?c"));
    assert!(contains_marker("héllo wörld", "wö"));
}

#[test]
fn splitting_follows_line_endings() {
    assert_eq!(split_lines("a\nb\r\nc"), strings(&["a", "b", "c"]));
    assert_eq!(split_lines("a\n"), strings(&["a"]));
    assert_eq!(split_lines(""), Vec::<String>::new());
    assert_eq!(split_lines("\n\n"), strings(&["", ""]));
    assert_eq!(split_lines("a\r"), strings(&["a\r"]));
    assert_eq!(split_lines("a\r\r\n"), strings(&["a\r"]));
    assert_eq!(split_lines("x\ry\n"), strings(&["x\ry"]));
}

#[test]
fn clean_pass() {
    let found = scan("./src/a.txt", &["fn main() {", "}"], &["TODO"], "NOLINT");
    assert!(found.is_empty());
    let mut group = GroupScan::new();
    group.record_file(found);
    assert!(group.passed());
    assert!(verdict(&vec![group.passed()]));
}

#[test]
fn global_violation() {
    let lines = ["line one", "line two", "// TODO fix this", "line four"];
    let found = scan("./src/a.txt", &lines, &["TODO"], "NOLINT");
    assert_eq!(found.len(), 1);
    assert_eq!(found[0].pattern, "TODO");
    assert_eq!(found[0].file_path, "./src/a.txt");
    assert_eq!(found[0].line_number, 3);
    assert_eq!(found[0].line, "// TODO fix this");
    let mut group = GroupScan::new();
    group.record_file(found);
    assert!(!group.passed());
    assert!(!verdict(&vec![group.passed()]));
}

#[test]
fn overruled_line() {
    let lines = ["line one", "line two", "// TODO fix this NOLINT"];
    let found = scan("./src/a.txt", &lines, &["TODO", "fix"], "NOLINT");
    assert!(found.is_empty());
    let mut group = GroupScan::new();
    group.record_file(found);
    assert!(verdict(&vec![group.passed()]));
}

#[test]
fn group_local_pattern_stays_in_its_group() {
    let global = compiled(&["TODO"]);
    let secrets = Specific { targets: strings(&["./secrets"]), patterns: strings(&["sk_live_[0-9a-zA-Z]+"]) };
    let src = Specific { targets: strings(&["./src"]), patterns: Vec::new() };
    let (secret_patterns, _) = resolve_patterns(&secrets, &global);
    let (src_patterns, _) = resolve_patterns(&src, &global);
    let content = strings(&["key = sk_live_abc123"]);
    let in_src = check_file(&"./src/k.txt".to_string(), &content, &src_patterns, "NOLINT", MatchPolicy::AccumulateAll);
    assert!(in_src.is_empty());
    let in_secrets =
        check_file(&"./secrets/k.txt".to_string(), &content, &secret_patterns, "NOLINT", MatchPolicy::AccumulateAll);
    assert_eq!(in_secrets.len(), 1);
    assert_eq!(in_secrets[0].pattern, "sk_live_[0-9a-zA-Z]+");
}

#[test]
fn every_matching_pair_is_reported() {
    let lines = ["TODO FIXME", "nothing", "FIXME", "TODO FIXME NOLINT", "TODO"];
    let found = scan("f", &lines, &["TODO", "FIXME", "O F"], "NOLINT");
    let got: Vec<(usize, String)> = found.iter().map(|v| (v.line_number, v.pattern.clone())).collect();
    assert_eq!(
        got,
        vec![
            (1, "TODO".to_string()),
            (1, "FIXME".to_string()),
            (1, "O F".to_string()),
            (3, "FIXME".to_string()),
            (5, "TODO".to_string()),
        ]
    );
}

#[test]
fn line_numbers_count_every_line() {
    let lines = ["", "x", "", "", "bad"];
    let found = scan("f", &lines, &["bad"], "NOLINT");
    assert_eq!(found.len(), 1);
    assert_eq!(found[0].line_number, 5);
    assert_eq!(found[0].line, "bad");
}

#[test]
fn fail_fast_stops_at_first_violation() {
    let lines = strings(&["ok", "TODO a", "TODO b"]);
    let found = check_file(&"f".to_string(), &lines, &compiled(&["b", "TODO"]), "NOLINT", MatchPolicy::FailFast);
    assert_eq!(found.len(), 1);
    assert_eq!(found[0].line_number, 2);
    assert_eq!(found[0].pattern, "TODO");
    let none = check_file(&"f".to_string(), &strings(&["ok"]), &compiled(&["TODO"]), "NOLINT", MatchPolicy::FailFast);
    assert!(none.is_empty());
}

#[test]
fn empty_file_has_no_violations() {
    assert!(scan("f", &[], &["."], "NOLINT").is_empty());
}

#[test]
fn empty_marker_exempts_every_line() {
    assert!(scan("f", &["TODO"], &["TODO"], "").is_empty());
}

#[test]
fn only_regular_files_are_scanned() {
    assert!(EntryKind::RegularFile.is_scanned());
    assert!(!EntryKind::Directory.is_scanned());
    assert!(!EntryKind::Symlink.is_scanned());
    assert!(!EntryKind::Unknown.is_scanned());
}

#[test]
fn walk_error_fails_only_its_group() {
    let mut a = GroupScan::new();
    let b = GroupScan::new();
    a.record_walk_error();
    assert!(!a.passed());
    assert!(a.violations.is_empty());
    assert!(b.passed());
    assert!(!verdict(&vec![a.passed(), b.passed()]));
    assert!(verdict(&vec![b.passed(), true]));
}

#[test]
fn violations_accumulate_per_group() {
    let mut a = GroupScan::new();
    a.record_file(scan("x", &["TODO"], &["TODO"], "NOLINT"));
    a.record_file(scan("y", &["TODO", "TODO"], &["TODO"], "NOLINT"));
    assert_eq!(a.violations.len(), 3);
    assert_eq!(a.violations[2].file_path, "y");
    let b = GroupScan::new();
    assert!(b.violations.is_empty());
    assert!(verdict(&vec![]));
}

#[test]
fn split_then_scan_numbers_physical_lines() {
    let lines = split_lines("a\r\n\r\n// TODO here\n");
    let found = check_file(&"f".to_string(), &lines, &compiled(&["TODO"]), "NOLINT", MatchPolicy::AccumulateAll);
    assert_eq!(found.len(), 1);
    assert_eq!(found[0].line_number, 3);
    assert_eq!(found[0].line, "// TODO here");
}

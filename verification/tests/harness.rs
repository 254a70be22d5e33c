use nixfmt_rules::harness::CaseOutcome;
use nixfmt_rules::harness::TestCase;
use nixfmt_rules::harness::check_case;
use nixfmt_rules::harness::collect_from_comments;
use nixfmt_rules::harness::good_name_of;
use nixfmt_rules::harness::trim_str;
use nixfmt_rules::reformat_string;
use nixfmt_rules::rules::rules_doc;

/// Run one extracted case through the whole pipeline.
fn run_case(case: &TestCase) {
    let name = case.name.as_deref().unwrap_or("");
    let actual = reformat_string(&case.before);
    assert_eq!(
        actual, case.after,
        "assertion failed({}): wrong formatting of {:?}",
        name, case.before
    );
    let second = reformat_string(&actual);
    assert_eq!(
        actual, second,
        "assertion failed({}): formatting is not idempotent for {:?}",
        name, case.before
    );
}

#[test]
fn test_inline_tests() {
    let tests = collect_from_comments(rules_doc());
    assert!(tests.len() > 0, "the rule table embeds no test cases");
    for case in &tests {
        run_case(case);
    }
}

#[test]
fn inline_extraction_finds_every_case() {
    let tests = collect_from_comments(rules_doc());
    assert_eq!(tests.len(), 10);
    assert_eq!(tests[0].before, "{ a=92; }");
    assert_eq!(tests[0].after, "{ a = 92; }");
    assert_eq!(tests[9].before, "{foo = 92;}");
    assert_eq!(tests[9].after, "{ foo = 92; }");
}

#[test]
fn try_from_splits_at_first_arrow() {
    let case = TestCase::try_from("  a=1   =>   a = 1  ").unwrap();
    assert_eq!(case.before, "a=1");
    assert_eq!(case.after, "a = 1");
    assert!(case.name.is_none());
}

#[test]
fn try_from_without_arrow() {
    assert!(TestCase::try_from("no marker in this line").is_none());
}

#[test]
fn collect_skips_lines_without_markers() {
    let text = "plain line\n// x => y\nlast // a==b => a == b\nnothing\n";
    let cases = collect_from_comments(text);
    assert_eq!(cases.len(), 2);
    assert_eq!(cases[0].before, "x");
    assert_eq!(cases[0].after, "y");
    assert_eq!(cases[1].before, "a==b");
    assert_eq!(cases[1].after, "a == b");
}

#[test]
fn collect_from_empty_text() {
    let cases = collect_from_comments("");
    assert_eq!(cases.len(), 0);
}

#[test]
fn trim_removes_blanks_at_both_ends() {
    assert_eq!(trim_str("  \t x y \t "), "x y");
    assert_eq!(trim_str(""), "");
    assert_eq!(trim_str("   "), "");
}

#[test]
fn check_case_passes_a_correct_case() {
    assert_eq!(check_case("{ a=92; }", "{ a = 92; }"), CaseOutcome::Pass);
}

#[test]
fn check_case_reports_a_wrong_expectation() {
    assert_eq!(check_case("{ a=92; }", "{a=92;}"), CaseOutcome::WrongFormat);
}

#[test]
fn good_name_pairs_fixture_files() {
    assert_eq!(good_name_of("simple.bad.nix").unwrap(), "simple.good.nix");
    assert!(good_name_of("simple.good.nix").is_none());
    assert!(good_name_of("simple.nix").is_none());
    assert!(good_name_of("short").is_none());
}

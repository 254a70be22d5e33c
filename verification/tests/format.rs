use nixfmt_rules::reformat_string;

/// Run one case through the whole pipeline: the output must match, and a
/// second pass must leave it unchanged.
fn check(before: &str, after: &str) {
    let actual = reformat_string(before);
    assert_eq!(actual, after, "wrong formatting of {:?}", before);
    let second = reformat_string(&actual);
    assert_eq!(actual, second, "formatting of {:?} is not idempotent", before);
}

#[test]
fn smoke() {
    check("{ foo = 1;\nbar = 2; }", "{\n  foo = 1;\n  bar = 2;\n}");
}

#[test]
fn space_inserted_around_assignment() {
    check("{ a=92; }", "{ a = 92; }");
}

#[test]
fn space_before_terminator_removed() {
    check("{ a = 92 ; }", "{ a = 92; }");
}

#[test]
fn guarded_no_space_after_literal_block() {
    check("{ a = { b = 1; } ; }", "{ a = { b = 1; }; }");
}

#[test]
fn equality_operator_normalized() {
    check("a==  b", "a == b");
}

#[test]
fn concatenation_operator_normalized() {
    check("a++  b", "a ++ b");
}

#[test]
fn index_path_dots_collapse() {
    check("foo . bar . baz", "foo.bar.baz");
}

#[test]
fn lambda_colon_no_space() {
    check("{} : 92", "{}: 92");
}

#[test]
fn list_single_line_padded() {
    check("[1 2 3]", "[ 1 2 3 ]");
}

#[test]
fn set_single_line_padded() {
    check("{foo = 92;}", "{ foo = 92; }");
}

#[test]
fn multiline_list_keeps_breaks_and_indents() {
    check("[1\n2 3]", "[\n  1\n  2 3\n]");
}

#[test]
fn blank_lines_collapse_to_one() {
    check("{ foo = 1;\n\n\n\nbar = 2; }", "{\n  foo = 1;\n\n  bar = 2;\n}");
}

#[test]
fn newline_before_semicolon_preserved_without_guard() {
    check("{ a = 92\n; }", "{\n  a = 92\n  ;\n}");
}

#[test]
fn let_bindings_indent_like_set_entries() {
    check("let\na = 1;\nin\na", "let\n  a = 1;\nin\na");
}

#[test]
fn nested_sets_indent_per_level() {
    check(
        "{ a = { b = 1;\nc = 2; }; }",
        "{\n  a = {\n    b = 1;\n    c = 2;\n  };\n}",
    );
}

#[test]
fn determinism_repeated_calls() {
    let input = "{ a=1;\nb = [1 2]; }";
    let first = reformat_string(input);
    let second = reformat_string(input);
    assert_eq!(first, second);
}

#[test]
fn unparsed_garbage_comes_back() {
    let input = "@@@@";
    let out = reformat_string(input);
    let again = reformat_string(&out);
    assert_eq!(out, again);
}

#[test]
fn empty_input() {
    check("", "");
}

#[test]
fn comment_inside_set_indented() {
    check("{ a = 1;\n# note\nb = 2; }", "{\n  a = 1;\n  # note\n  b = 2;\n}");
}

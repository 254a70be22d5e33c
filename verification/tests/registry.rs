use nixfmt_rules::indentation::IndentDsl;
use nixfmt_rules::kinds::Kind;
use nixfmt_rules::kinds::NodeKind;
use nixfmt_rules::kinds::TokenKind;
use nixfmt_rules::rules::after_literal;
use nixfmt_rules::rules::indentation;
use nixfmt_rules::rules::spacing;
use nixfmt_rules::spacing::SpaceValue;
use nixfmt_rules::tree::Element;
use nixfmt_rules::tree::SyntaxTree;

fn tok(parent: usize, kind: TokenKind, text: &str) -> Element {
    Element::Token { parent, kind, text: text.to_string(), leading: String::new() }
}

fn node(parent: usize, kind: NodeKind) -> Element {
    Element::Node { parent, kind }
}

/// `{ a = { ... } ; }` as an arena: the terminator's previous sibling is a
/// set literal.
fn entry_with_literal_value() -> SyntaxTree {
    SyntaxTree {
        elems: vec![
            node(0, NodeKind::Root),
            node(0, NodeKind::SetEntry),
            tok(1, TokenKind::Other, "a"),
            tok(1, TokenKind::Assign, "="),
            node(1, NodeKind::SetLit),
            tok(4, TokenKind::OpenBrace, "{"),
            tok(4, TokenKind::CloseBrace, "}"),
            tok(1, TokenKind::Semicolon, ";"),
        ],
        trailing: String::new(),
    }
}

/// `a = 92 ;` as an arena: the terminator's previous sibling is a plain
/// value.
fn entry_with_plain_value() -> SyntaxTree {
    SyntaxTree {
        elems: vec![
            node(0, NodeKind::Root),
            node(0, NodeKind::SetEntry),
            tok(1, TokenKind::Other, "a"),
            tok(1, TokenKind::Assign, "="),
            node(1, NodeKind::Value),
            tok(4, TokenKind::Other, "92"),
            tok(1, TokenKind::Semicolon, ";"),
        ],
        trailing: String::new(),
    }
}

#[test]
fn guarded_directive_wins_when_guard_holds() {
    let dsl = spacing();
    let t = entry_with_literal_value();
    // The gap in front of the terminator (element 7): the guard fires.
    assert_eq!(dsl.resolve(&t, 7), Some(SpaceValue::NoSpace));
}

#[test]
fn unguarded_directive_wins_when_guard_fails() {
    let dsl = spacing();
    let t = entry_with_plain_value();
    assert_eq!(dsl.resolve(&t, 6), Some(SpaceValue::NoSpaceOrNewline));
}

#[test]
fn assignment_resolves_on_both_sides() {
    let dsl = spacing();
    let t = entry_with_plain_value();
    // Before '=' (element 3) and after it (gap in front of element 5).
    assert_eq!(dsl.resolve(&t, 3), Some(SpaceValue::SingleSpace));
    assert_eq!(dsl.resolve(&t, 5), Some(SpaceValue::SingleSpace));
}

#[test]
fn unmatched_gap_resolves_to_nothing() {
    let dsl = spacing();
    let t = entry_with_plain_value();
    // The gap in front of the first token has no directive.
    assert_eq!(dsl.resolve(&t, 2), None);
}

#[test]
fn after_literal_guard() {
    let lit = entry_with_literal_value();
    assert!(after_literal(&lit, 7));
    let plain = entry_with_plain_value();
    assert!(!after_literal(&plain, 6));
}

#[test]
fn entries_indent_one_level_under_a_set() {
    let idsl = indentation();
    let t = SyntaxTree {
        elems: vec![
            node(0, NodeKind::Root),
            node(0, NodeKind::SetLit),
            tok(1, TokenKind::OpenBrace, "{"),
            node(1, NodeKind::SetEntry),
            tok(3, TokenKind::Other, "a"),
            tok(1, TokenKind::Comment, "# note"),
            tok(1, TokenKind::CloseBrace, "}"),
        ],
        trailing: String::new(),
    };
    assert_eq!(idsl.indent_level_of(&t, 1), 0);
    assert_eq!(idsl.indent_level_of(&t, 3), 1);
    // A token inside the entry inherits the entry's level.
    assert_eq!(idsl.indent_level_of(&t, 4), 1);
    // A comment beside the entries is indented with them.
    assert_eq!(idsl.indent_level_of(&t, 5), 1);
    // The closing brace is not.
    assert_eq!(idsl.indent_level_of(&t, 6), 0);
}

#[test]
fn list_elements_indent_under_a_list() {
    let idsl = indentation();
    let t = SyntaxTree {
        elems: vec![
            node(0, NodeKind::Root),
            node(0, NodeKind::List),
            tok(1, TokenKind::OpenBracket, "["),
            node(1, NodeKind::Value),
            tok(3, TokenKind::Other, "1"),
            tok(1, TokenKind::CloseBracket, "]"),
        ],
        trailing: String::new(),
    };
    assert_eq!(idsl.indent_level_of(&t, 3), 1);
    assert_eq!(idsl.indent_level_of(&t, 5), 0);
}

#[test]
fn sibling_kind_queries() {
    let t = entry_with_plain_value();
    // Inside the entry: "a" (2), "=" (3), value node (4), ";" (6).
    assert_eq!(t.prev_sibling_kind(3), Some(Kind::Token(TokenKind::Other)));
    assert_eq!(t.next_sibling_kind(3), Some(Kind::Node(NodeKind::Value)));
    assert_eq!(t.prev_sibling_kind(2), None);
    assert_eq!(t.next_sibling_kind(6), None);
}

#[test]
fn empty_registry_resolves_nothing() {
    let dsl = nixfmt_rules::spacing::SpacingDsl { rules: Vec::new() };
    let t = entry_with_plain_value();
    assert_eq!(dsl.resolve(&t, 3), None);
    let idsl = IndentDsl { rules: Vec::new() };
    assert_eq!(idsl.indent_level_of(&t, 5), 0);
}

//! The grammar-specific rule set: the concrete spacing and indentation
//! directives for the target grammar.  This table is the product
//! specification; changing the formatting behaviour means editing this
//! table, never the registry logic.
use vstd::prelude::*;

use crate::kinds::Kind;
use crate::kinds::NodeKind;
use crate::kinds::TokenKind;
use crate::indentation::IndentDsl;
use crate::indentation::IndentRuleV;
use crate::spacing::GuardKind;
use crate::spacing::RuleV;
use crate::spacing::SpaceLoc;
use crate::spacing::SpaceValue;
use crate::spacing::SpacingDsl;
use crate::spacing::guard_holds;
use crate::spacing::eval_guard;
use crate::tree::SyntaxTree;

verus! {

/// One directive with a one-kind container filter.
pub open spec fn srule(
    k: NodeKind,
    tk: TokenKind,
    loc: SpaceLoc,
    guard: Option<GuardKind>,
    value: SpaceValue,
) -> RuleV {
    RuleV { inside: seq![k], token: tk, loc, guard, value }
}

/// The spacing directives of the target grammar, in registration order.
/// An `Around` registration is written out as its `Before` and `After`
/// halves.
pub open spec fn spacing_rules() -> Seq<RuleV> {
    seq![
        srule(
            NodeKind::SetEntry,
            TokenKind::Assign,
            SpaceLoc::Before,
            None,
            SpaceValue::SingleSpace,
        ),
        srule(
            NodeKind::SetEntry,
            TokenKind::Assign,
            SpaceLoc::After,
            None,
            SpaceValue::SingleSpace,
        ),
        srule(
            NodeKind::SetEntry,
            TokenKind::Semicolon,
            SpaceLoc::Before,
            None,
            SpaceValue::NoSpaceOrNewline,
        ),
        srule(
            NodeKind::SetEntry,
            TokenKind::Semicolon,
            SpaceLoc::Before,
            Some(GuardKind::AfterLiteral),
            SpaceValue::NoSpace,
        ),
        srule(
            NodeKind::Operation,
            TokenKind::Equal,
            SpaceLoc::Before,
            None,
            SpaceValue::SingleSpace,
        ),
        srule(
            NodeKind::Operation,
            TokenKind::Equal,
            SpaceLoc::After,
            None,
            SpaceValue::SingleSpace,
        ),
        srule(
            NodeKind::Operation,
            TokenKind::Concat,
            SpaceLoc::After,
            None,
            SpaceValue::SingleSpace,
        ),
        srule(
            NodeKind::Operation,
            TokenKind::Concat,
            SpaceLoc::Before,
            None,
            SpaceValue::SingleSpaceOrNewline,
        ),
        srule(NodeKind::IndexSet, TokenKind::Dot, SpaceLoc::Before, None, SpaceValue::NoSpace),
        srule(NodeKind::IndexSet, TokenKind::Dot, SpaceLoc::After, None, SpaceValue::NoSpace),
        srule(NodeKind::Lambda, TokenKind::Colon, SpaceLoc::Before, None, SpaceValue::NoSpace),
        srule(
            NodeKind::List,
            TokenKind::OpenBracket,
            SpaceLoc::After,
            None,
            SpaceValue::SingleSpaceOrNewline,
        ),
        srule(
            NodeKind::List,
            TokenKind::CloseBracket,
            SpaceLoc::Before,
            None,
            SpaceValue::SingleSpaceOrNewline,
        ),
        srule(
            NodeKind::SetLit,
            TokenKind::OpenBrace,
            SpaceLoc::After,
            None,
            SpaceValue::SingleSpaceOrNewline,
        ),
        srule(
            NodeKind::SetLit,
            TokenKind::CloseBrace,
            SpaceLoc::Before,
            None,
            SpaceValue::SingleSpaceOrNewline,
        ),
    ]
}

/// The node kinds whose direct entry children are indented: set literals
/// and `let` bindings.
pub open spec fn entry_owner_kinds() -> Seq<NodeKind> {
    seq![NodeKind::SetLit, NodeKind::LetIn]
}

/// The element kinds indented as direct children of a list literal.
pub open spec fn list_element_kinds() -> Seq<Kind> {
    seq![
        Kind::Node(NodeKind::Value),
        Kind::Node(NodeKind::List),
        Kind::Node(NodeKind::SetLit),
        Kind::Node(NodeKind::IndexSet),
        Kind::Node(NodeKind::Lambda),
        Kind::Node(NodeKind::Str),
        Kind::Node(NodeKind::Paren),
        Kind::Node(NodeKind::Ident),
    ]
}

/// The indentation directives of the target grammar: list elements under a
/// list, entries under a set or `let`, and comments attached beside either.
pub open spec fn indent_rules() -> Seq<IndentRuleV> {
    seq![
        IndentRuleV { owners: seq![NodeKind::List], childs: list_element_kinds() },
        IndentRuleV {
            owners: entry_owner_kinds(),
            childs: seq![Kind::Node(NodeKind::SetEntry)],
        },
        IndentRuleV { owners: seq![NodeKind::List], childs: seq![Kind::Token(TokenKind::Comment)] },
        IndentRuleV {
            owners: entry_owner_kinds(),
            childs: seq![Kind::Token(TokenKind::Comment)],
        },
    ]
}

fn one_kind(k: NodeKind) -> (r: Vec<NodeKind>)
    ensures
        r@ == seq![k],
{
    let mut v: Vec<NodeKind> = Vec::new();
    v.push(k);
    proof {
        assert(v@ =~= seq![k]);
    }
    v
}

fn entry_owners() -> (r: Vec<NodeKind>)
    ensures
        r@ == entry_owner_kinds(),
{
    let mut v: Vec<NodeKind> = Vec::new();
    v.push(NodeKind::SetLit);
    v.push(NodeKind::LetIn);
    proof {
        assert(v@ =~= entry_owner_kinds());
    }
    v
}

fn one_elem_kind(k: Kind) -> (r: Vec<Kind>)
    ensures
        r@ == seq![k],
{
    let mut v: Vec<Kind> = Vec::new();
    v.push(k);
    proof {
        assert(v@ =~= seq![k]);
    }
    v
}

fn list_elements() -> (r: Vec<Kind>)
    ensures
        r@ == list_element_kinds(),
{
    let mut v: Vec<Kind> = Vec::new();
    v.push(Kind::Node(NodeKind::Value));
    v.push(Kind::Node(NodeKind::List));
    v.push(Kind::Node(NodeKind::SetLit));
    v.push(Kind::Node(NodeKind::IndexSet));
    v.push(Kind::Node(NodeKind::Lambda));
    v.push(Kind::Node(NodeKind::Str));
    v.push(Kind::Node(NodeKind::Paren));
    v.push(Kind::Node(NodeKind::Ident));
    proof {
        assert(v@ =~= list_element_kinds());
    }
    v
}

/// The spacing rule table of the target grammar; the examples in
/// [`rules_doc`] document each group of directives.
pub fn spacing() -> (r: SpacingDsl)
    ensures
        r@ == spacing_rules(),
{
    let mut dsl = SpacingDsl { rules: Vec::new() };
    dsl.add(
        one_kind(NodeKind::SetEntry),
        TokenKind::Assign,
        SpaceLoc::Before,
        None,
        SpaceValue::SingleSpace,
    );
    dsl.add(
        one_kind(NodeKind::SetEntry),
        TokenKind::Assign,
        SpaceLoc::After,
        None,
        SpaceValue::SingleSpace,
    );
    dsl.add(
        one_kind(NodeKind::SetEntry),
        TokenKind::Semicolon,
        SpaceLoc::Before,
        None,
        SpaceValue::NoSpaceOrNewline,
    );
    dsl.add(
        one_kind(NodeKind::SetEntry),
        TokenKind::Semicolon,
        SpaceLoc::Before,
        Some(GuardKind::AfterLiteral),
        SpaceValue::NoSpace,
    );
    dsl.add(
        one_kind(NodeKind::Operation),
        TokenKind::Equal,
        SpaceLoc::Before,
        None,
        SpaceValue::SingleSpace,
    );
    dsl.add(
        one_kind(NodeKind::Operation),
        TokenKind::Equal,
        SpaceLoc::After,
        None,
        SpaceValue::SingleSpace,
    );
    dsl.add(
        one_kind(NodeKind::Operation),
        TokenKind::Concat,
        SpaceLoc::After,
        None,
        SpaceValue::SingleSpace,
    );
    dsl.add(
        one_kind(NodeKind::Operation),
        TokenKind::Concat,
        SpaceLoc::Before,
        None,
        SpaceValue::SingleSpaceOrNewline,
    );
    dsl.add(
        one_kind(NodeKind::IndexSet),
        TokenKind::Dot,
        SpaceLoc::Before,
        None,
        SpaceValue::NoSpace,
    );
    dsl.add(
        one_kind(NodeKind::IndexSet),
        TokenKind::Dot,
        SpaceLoc::After,
        None,
        SpaceValue::NoSpace,
    );
    dsl.add(
        one_kind(NodeKind::Lambda),
        TokenKind::Colon,
        SpaceLoc::Before,
        None,
        SpaceValue::NoSpace,
    );
    dsl.add(
        one_kind(NodeKind::List),
        TokenKind::OpenBracket,
        SpaceLoc::After,
        None,
        SpaceValue::SingleSpaceOrNewline,
    );
    dsl.add(
        one_kind(NodeKind::List),
        TokenKind::CloseBracket,
        SpaceLoc::Before,
        None,
        SpaceValue::SingleSpaceOrNewline,
    );
    dsl.add(
        one_kind(NodeKind::SetLit),
        TokenKind::OpenBrace,
        SpaceLoc::After,
        None,
        SpaceValue::SingleSpaceOrNewline,
    );
    dsl.add(
        one_kind(NodeKind::SetLit),
        TokenKind::CloseBrace,
        SpaceLoc::Before,
        None,
        SpaceValue::SingleSpaceOrNewline,
    );
    proof {
        assert(dsl@ =~= spacing_rules());
    }
    dsl
}

/// The indentation rule table of the target grammar.
pub fn indentation() -> (r: IndentDsl)
    ensures
        r@ == indent_rules(),
{
    let mut dsl = IndentDsl { rules: Vec::new() };
    dsl.add(one_kind(NodeKind::List), list_elements());
    dsl.add(entry_owners(), one_elem_kind(Kind::Node(NodeKind::SetEntry)));
    dsl.add(one_kind(NodeKind::List), one_elem_kind(Kind::Token(TokenKind::Comment)));
    dsl.add(entry_owners(), one_elem_kind(Kind::Token(TokenKind::Comment)));
    proof {
        assert(dsl@ =~= indent_rules());
    }
    dsl
}

/// The grammar's built-in guard: does the previous sibling of the element
/// at `e` close a set or list literal?
pub fn after_literal(t: &SyntaxTree, e: usize) -> (r: bool)
    ensures
        r == guard_holds(t@, GuardKind::AfterLiteral, e as int),
{
    eval_guard(t, GuardKind::AfterLiteral, e)
}

/// Documentation of the rule table.  Every line holding a comment marker
/// followed by `input => expected` doubles as a test case that the harness
/// extracts and runs through the whole pipeline.
pub fn rules_doc() -> (r: &'static str)
    ensures
        r@ == rules_doc_text(),
{
    "set entry, around '=', single space       // { a=92; } => { a = 92; }\nset entry, before ';', none or newline    // { a = 92 ; } => { a = 92; }\nset entry, ';' after a literal, none      // { a = { b = 1; } ; } => { a = { b = 1; }; }\noperation, around '==', single space      // a==  b => a == b\noperation, after '++', single space       // a++  b => a ++ b\noperation, before '++', space or newline  // a  ++ b => a ++ b\nindex expression, around '.', none        // foo . bar . baz => foo.bar.baz\nlambda, before ':', none                  // {} : 92 => {}: 92\nlist, inside brackets, space or newline   // [1 2 3] => [ 1 2 3 ]\nset, inside braces, space or newline      // {foo = 92;} => { foo = 92; }\n"
}

/// The text of [`rules_doc`].
pub open spec fn rules_doc_text() -> Seq<char> {
    "set entry, around '=', single space       // { a=92; } => { a = 92; }\nset entry, before ';', none or newline    // { a = 92 ; } => { a = 92; }\nset entry, ';' after a literal, none      // { a = { b = 1; } ; } => { a = { b = 1; }; }\noperation, around '==', single space      // a==  b => a == b\noperation, after '++', single space       // a++  b => a ++ b\noperation, before '++', space or newline  // a  ++ b => a ++ b\nindex expression, around '.', none        // foo . bar . baz => foo.bar.baz\nlambda, before ':', none                  // {} : 92 => {}: 92\nlist, inside brackets, space or newline   // [1 2 3] => [ 1 2 3 ]\nset, inside braces, space or newline      // {foo = 92;} => { foo = 92; }\n"@
}

} // verus!

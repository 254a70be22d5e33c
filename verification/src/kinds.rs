//! Closed enumerations of grammar node kinds and lexical token kinds.
//!
//! Both sets are fixed at build time; every predicate and filter in the rule
//! registries matches exhaustively over them, so adding a grammar construct
//! forces every consumer to be revisited.
use vstd::prelude::*;

verus! {

/// Tag of a grammar production (a node of the concrete syntax tree).
#[derive(Clone, Copy, PartialEq, Eq, Structural, Debug)]
pub enum NodeKind {
    /// The whole source file.
    Root,
    /// A set literal, `{ a = 1; }`.
    SetLit,
    /// One binding inside a set or a `let`, `a = 1;`.
    SetEntry,
    /// A binary operation, `a ++ b`.
    Operation,
    /// An index expression, `foo.bar.baz`.
    IndexSet,
    /// A function literal, `x: x`.
    Lambda,
    /// A list literal, `[ 1 2 3 ]`.
    List,
    /// A `let ... in` binding group.
    LetIn,
    /// A scalar literal value.
    Value,
    /// A string literal.
    Str,
    /// A parenthesised expression.
    Paren,
    /// An identifier.
    Ident,
    /// Any production the rule set does not distinguish.
    Other,
}

/// Tag of a lexical token (a leaf of the concrete syntax tree).
#[derive(Clone, Copy, PartialEq, Eq, Structural, Debug)]
pub enum TokenKind {
    /// `=`
    Assign,
    /// `;`
    Semicolon,
    /// `==`
    Equal,
    /// `++`
    Concat,
    /// `.`
    Dot,
    /// `:`
    Colon,
    /// `[`
    OpenBracket,
    /// `]`
    CloseBracket,
    /// `{`
    OpenBrace,
    /// `}`
    CloseBrace,
    /// A comment.
    Comment,
    /// Whitespace trivia; folded into the gaps before it ever reaches a
    /// built tree.
    Whitespace,
    /// Any token the rule set does not distinguish.
    Other,
}

/// The kind of a syntax element: either a node or a token.
#[derive(Clone, Copy, PartialEq, Eq, Structural, Debug)]
pub enum Kind {
    Node(NodeKind),
    Token(TokenKind),
}

} // verus!

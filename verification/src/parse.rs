//! The boundary to the external parser.
//!
//! The parser collaborator turns raw source text into a concrete syntax
//! tree.  It is consumed here as a flat preorder event list of plain values
//! (parent index, element kind, token text); folding that list into the
//! library's arena — absorbing whitespace trivia into the gap in front of
//! the next token — and checking well-formedness are ordinary verified code.
use vstd::prelude::*;

use crate::kinds::Kind;
use crate::kinds::NodeKind;
use crate::kinds::TokenKind;
use crate::tree::Element;
use crate::tree::ElemV;
use crate::tree::SyntaxTree;
use crate::tree::TreeV;

verus! {

#[verifier::external_type_specification]
#[verifier::external_body]
pub struct ExSyntaxKind(rnix::SyntaxKind);


/// One element of the parser's flat preorder event list: its parent's
/// position in the list, its kind, and (for tokens) its text.
pub struct RawElem {
    pub parent: usize,
    pub kind: Kind,
    pub text: String,
}

/// Mathematical model of one event.
pub ghost struct RawV {
    pub parent: int,
    pub kind: Kind,
    pub text: Seq<char>,
}

impl View for RawElem {
    type V = RawV;

    open spec fn view(&self) -> RawV {
        RawV { parent: self.parent as int, kind: self.kind, text: self.text@ }
    }
}

pub open spec fn raw_views(r: Seq<RawElem>) -> Seq<RawV> {
    Seq::new(r.len(), |i: int| r[i]@)
}

/// The preorder event list the external parser produces for a given input
/// text; the list depends on the input text alone.
pub uninterp spec fn parsed_elems(s: Seq<char>) -> Seq<RawV>;

/// Relies on rnix's syntax kind tags: each grammar production the rule set
/// distinguishes is mapped to the library's node kind, all others to
/// `Other`.
#[verifier::external_body]
fn node_kind_from(k: rnix::SyntaxKind) -> NodeKind {
    match k {
        rnix::SyntaxKind::NODE_ROOT => NodeKind::Root,
        rnix::SyntaxKind::NODE_ATTR_SET => NodeKind::SetLit,
        rnix::SyntaxKind::NODE_ATTRPATH_VALUE => NodeKind::SetEntry,
        rnix::SyntaxKind::NODE_BIN_OP => NodeKind::Operation,
        rnix::SyntaxKind::NODE_SELECT => NodeKind::IndexSet,
        rnix::SyntaxKind::NODE_LAMBDA => NodeKind::Lambda,
        rnix::SyntaxKind::NODE_LIST => NodeKind::List,
        rnix::SyntaxKind::NODE_LET_IN => NodeKind::LetIn,
        rnix::SyntaxKind::NODE_LITERAL => NodeKind::Value,
        rnix::SyntaxKind::NODE_STRING => NodeKind::Str,
        rnix::SyntaxKind::NODE_PAREN => NodeKind::Paren,
        rnix::SyntaxKind::NODE_IDENT => NodeKind::Ident,
        _ => NodeKind::Other,
    }
}

/// Relies on rnix's syntax kind tags: each lexical symbol the rule set
/// distinguishes is mapped to the library's token kind, all others to
/// `Other`; whitespace trivia keeps its own kind so that folding can absorb
/// it.
#[verifier::external_body]
fn token_kind_from(k: rnix::SyntaxKind) -> TokenKind {
    match k {
        rnix::SyntaxKind::TOKEN_ASSIGN => TokenKind::Assign,
        rnix::SyntaxKind::TOKEN_SEMICOLON => TokenKind::Semicolon,
        rnix::SyntaxKind::TOKEN_EQUAL => TokenKind::Equal,
        rnix::SyntaxKind::TOKEN_CONCAT => TokenKind::Concat,
        rnix::SyntaxKind::TOKEN_DOT => TokenKind::Dot,
        rnix::SyntaxKind::TOKEN_COLON => TokenKind::Colon,
        rnix::SyntaxKind::TOKEN_L_BRACK => TokenKind::OpenBracket,
        rnix::SyntaxKind::TOKEN_R_BRACK => TokenKind::CloseBracket,
        rnix::SyntaxKind::TOKEN_L_BRACE => TokenKind::OpenBrace,
        rnix::SyntaxKind::TOKEN_R_BRACE => TokenKind::CloseBrace,
        rnix::SyntaxKind::TOKEN_COMMENT => TokenKind::Comment,
        rnix::SyntaxKind::TOKEN_WHITESPACE => TokenKind::Whitespace,
        _ => TokenKind::Other,
    }
}

/// Relies on the two kind mappings above: appends one event with the given
/// parent, kind and text.
#[verifier::external_body]
fn raw_push(out: &mut Vec<RawElem>, parent: usize, is_node: bool, k: rnix::SyntaxKind, text: &str)
    ensures
        final(out)@.len() == old(out)@.len() + 1,
{
    let kind = if is_node { Kind::Node(node_kind_from(k)) } else { Kind::Token(token_kind_from(k)) };
    out.push(RawElem { parent, kind, text: text.to_string() });
}

/// Relies on rnix::Root::parse and rowan's child traversal: the concrete
/// syntax tree of the input, with all whitespace and comments kept as
/// trivia, is handed out as a flat preorder event list; the tree, and so
/// the list, is a function of the input text alone.
#[verifier::external_body]
fn parse_raw(text: &str) -> (r: Vec<RawElem>)
    ensures
        raw_views(r@) == parsed_elems(text@),
{
    let mut out: Vec<RawElem> = Vec::new();
    let mut work = vec![(rnix::SyntaxElement::from(rnix::Root::parse(text).syntax()), 0usize)];
    while let Some((el, parent)) = work.pop() {
        let idx = out.len();
        match &el {
            rnix::NodeOrToken::Node(n) => raw_push(&mut out, parent, true, n.kind(), ""),
            rnix::NodeOrToken::Token(t) => raw_push(&mut out, parent, false, t.kind(), t.text()),
        }
        if let Some(n) = el.as_node() {
            let kids: Vec<rnix::SyntaxElement> = n.children_with_tokens().collect();
            for c in kids.into_iter().rev() { work.push((c, idx)); }
        }
    }
    out
}

/// Is the event a kept element (everything but whitespace trivia)?
pub open spec fn kept(e: RawV) -> bool {
    e.kind != Kind::Token(TokenKind::Whitespace)
}

/// Number of kept events among the first `p`.
pub open spec fn remap(raw: Seq<RawV>, p: int) -> int
    decreases p,
{
    if p <= 0 || p > raw.len() {
        0
    } else {
        remap(raw, p - 1) + if kept(raw[p - 1]) {
            1int
        } else {
            0int
        }
    }
}

/// The arena position of event `j`'s parent: events point backwards, and a
/// backwards parent reference is renumbered by dropping the whitespace
/// events before it; anything else falls back to the root.
pub open spec fn remapped_parent(raw: Seq<RawV>, j: int) -> int {
    if 0 <= raw[j].parent < j {
        remap(raw, raw[j].parent)
    } else {
        0
    }
}

/// Fold the event list into an arena, whitespace trivia accumulating into
/// the gap (`leading`) of the next kept token; whitespace after the last
/// token becomes the tree's trailing text.
pub open spec fn fold_from(raw: Seq<RawV>, j: int, pending: Seq<char>, elems: Seq<ElemV>) -> TreeV
    decreases raw.len() - j,
{
    if j < 0 || j >= raw.len() {
        TreeV { elems, trailing: pending }
    } else {
        let e = raw[j];
        match e.kind {
            Kind::Token(TokenKind::Whitespace) => fold_from(raw, j + 1, pending + e.text, elems),
            Kind::Token(k) => fold_from(
                raw,
                j + 1,
                Seq::empty(),
                elems.push(
                    ElemV::Token {
                        parent: remapped_parent(raw, j),
                        kind: k,
                        text: e.text,
                        leading: pending,
                    },
                ),
            ),
            Kind::Node(k) => fold_from(
                raw,
                j + 1,
                pending,
                elems.push(ElemV::Node { parent: remapped_parent(raw, j), kind: k }),
            ),
        }
    }
}

pub open spec fn fold_spec(raw: Seq<RawV>) -> TreeV {
    fold_from(raw, 0, Seq::empty(), Seq::empty())
}

/// The tree the whole front end yields for an input text.
pub open spec fn parsed_tree(s: Seq<char>) -> TreeV {
    fold_spec(parsed_elems(s))
}

/// Fold an event list into an arena.
pub fn fold_raw(raw: &Vec<RawElem>) -> (r: SyntaxTree)
    ensures
        r@ == fold_spec(raw_views(raw@)),
{
    let ghost rv = raw_views(raw@);
    let n = raw.len();
    let mut elems: Vec<Element> = Vec::new();
    let mut pending = String::new();
    let mut remaps: Vec<usize> = Vec::new();
    let mut j: usize = 0;
    proof {
        assert(Seq::new(elems@.len(), |i: int| elems@[i]@) =~= Seq::<ElemV>::empty());
        assert(pending@ =~= Seq::<char>::empty());
    }
    while j < n
        invariant
            n == raw@.len(),
            rv == raw_views(raw@),
            rv.len() == n,
            0 <= j <= n,
            remaps@.len() == j,
            forall|m: int| 0 <= m < j ==> remaps@[m] as int == remap(rv, m),
            elems@.len() == remap(rv, j as int),
            fold_from(rv, j as int, pending@, Seq::new(elems@.len(), |i: int| elems@[i]@))
                == fold_spec(rv),
        decreases n - j,
    {
        let ghost ev = rv[j as int];
        let ghost pend0 = pending@;
        let ghost es0 = Seq::new(elems@.len(), |i: int| elems@[i]@);
        proof {
            assert(rv[j as int] == raw@[j as int]@);
        }
        remaps.push(elems.len());
        let e = &raw[j];
        match &e.kind {
            Kind::Token(TokenKind::Whitespace) => {
                pending.append(e.text.as_str());
                proof {
                    assert(pending@ == pend0 + ev.text);
                    assert(Seq::new(elems@.len(), |i: int| elems@[i]@) =~= es0);
                    assert(fold_from(rv, j as int, pend0, es0) == fold_from(
                        rv,
                        j as int + 1,
                        pend0 + ev.text,
                        es0,
                    ));
                }
            },
            Kind::Token(k) => {
                let par: usize = if e.parent < j {
                    remaps[e.parent]
                } else {
                    0
                };
                let text = e.text.clone();
                let leading = pending;
                pending = String::new();
                let ne = Element::Token { parent: par, kind: *k, text, leading };
                elems.push(ne);
                proof {
                    assert(ev.kind == Kind::Token(*k) && *k != TokenKind::Whitespace);
                    assert(par as int == remapped_parent(rv, j as int));
                    let pushed = ElemV::Token {
                        parent: remapped_parent(rv, j as int),
                        kind: *k,
                        text: ev.text,
                        leading: pend0,
                    };
                    assert(elems@[elems@.len() - 1]@ == pushed);
                    assert(Seq::new(elems@.len(), |i: int| elems@[i]@) =~= es0.push(pushed));
                    assert(fold_from(rv, j as int, pend0, es0) == fold_from(
                        rv,
                        j as int + 1,
                        Seq::<char>::empty(),
                        es0.push(pushed),
                    ));
                    assert(pending@ =~= Seq::<char>::empty());
                }
            },
            Kind::Node(k) => {
                let par: usize = if e.parent < j {
                    remaps[e.parent]
                } else {
                    0
                };
                let ne = Element::Node { parent: par, kind: *k };
                elems.push(ne);
                proof {
                    assert(ev.kind == Kind::Node(*k));
                    assert(par as int == remapped_parent(rv, j as int));
                    let pushed = ElemV::Node { parent: remapped_parent(rv, j as int), kind: *k };
                    assert(elems@[elems@.len() - 1]@ == pushed);
                    assert(Seq::new(elems@.len(), |i: int| elems@[i]@) =~= es0.push(pushed));
                    assert(fold_from(rv, j as int, pend0, es0) == fold_from(
                        rv,
                        j as int + 1,
                        pend0,
                        es0.push(pushed),
                    ));
                }
            },
        }
        j = j + 1;
    }
    let out = SyntaxTree { elems, trailing: pending };
    proof {
        assert(out@.elems =~= Seq::new(out.elems@.len(), |i: int| out.elems@[i]@));
        assert(out@ =~= fold_spec(rv));
    }
    out
}

/// Check the arena's well-formedness.
pub fn check_wf(t: &SyntaxTree) -> (r: bool)
    ensures
        r == t@.wf(),
{
    let n = t.elems.len();
    if n == 0 {
        return false;
    }
    if !t.is_node_at(0) {
        return false;
    }
    if t.parent_at(0) != 0 {
        return false;
    }
    let mut i: usize = 1;
    while i < n
        invariant
            n == t@.len(),
            1 <= i <= n,
            t@.is_node(0),
            t@.parent_of(0) == 0,
            forall|m: int|
                1 <= m < i ==> 0 <= #[trigger] t@.parent_of(m) < m && t@.is_node(t@.parent_of(m)),
        decreases n - i,
    {
        let p = t.parent_at(i);
        if p >= i {
            return false;
        }
        if !t.is_node_at(p) {
            return false;
        }
        i = i + 1;
    }
    true
}

/// Parse input text into a well-formed syntax tree; `None` where the
/// parser's event list does not fold into one.
pub fn parse(text: &str) -> (r: Option<SyntaxTree>)
    ensures
        match r {
            Some(t) => t@ == parsed_tree(text@) && t@.wf(),
            None => !parsed_tree(text@).wf(),
        },
{
    let raw = parse_raw(text);
    let t = fold_raw(&raw);
    if check_wf(&t) {
        Some(t)
    } else {
        None
    }
}

} // verus!

//! The concrete syntax tree that formatting decisions are made over, and the
//! read-only structural queries of the context predicate layer.
//!
//! The tree is stored as a flat arena in preorder: every element names its
//! parent by index, and a parent always stands before its children.  Tokens
//! carry their own text and the whitespace (`leading`) of the gap that
//! precedes them; nodes carry no text.  Whitespace is therefore not an
//! element of the tree, which keeps the structure of a tree unchanged when
//! only whitespace is rewritten.
use vstd::prelude::*;

use crate::kinds::Kind;
use crate::kinds::NodeKind;
use crate::kinds::TokenKind;

verus! {

/// One element of the arena: an inner node or a token leaf.
#[derive(Clone, Debug)]
pub enum Element {
    Node { parent: usize, kind: NodeKind },
    Token { parent: usize, kind: TokenKind, text: String, leading: String },
}

/// Mathematical model of one element.
pub ghost enum ElemV {
    Node { parent: int, kind: NodeKind },
    Token { parent: int, kind: TokenKind, text: Seq<char>, leading: Seq<char> },
}

impl View for Element {
    type V = ElemV;

    open spec fn view(&self) -> ElemV {
        match self {
            Element::Node { parent, kind } => ElemV::Node { parent: *parent as int, kind: *kind },
            Element::Token { parent, kind, text, leading } => (ElemV::Token {
                parent: *parent as int,
                kind: *kind,
                text: text@,
                leading: leading@,
            }),
        }
    }
}

/// A whole syntax tree: the arena, and the whitespace that follows the last
/// token of the file.
#[derive(Clone, Debug)]
pub struct SyntaxTree {
    pub elems: Vec<Element>,
    pub trailing: String,
}

/// Mathematical model of a whole tree.
#[verifier::ext_equal]
pub ghost struct TreeV {
    pub elems: Seq<ElemV>,
    pub trailing: Seq<char>,
}

impl View for SyntaxTree {
    type V = TreeV;

    open spec fn view(&self) -> TreeV {
        TreeV { elems: Seq::new(self.elems@.len(), |i: int| self.elems@[i]@), trailing: self.trailing@ }
    }
}

/// True if the sequence contains a line break.
pub open spec fn has_newline(s: Seq<char>) -> bool {
    exists|j: int| 0 <= j < s.len() && s[j] == '\n'
}

/// Number of line breaks in the sequence.
pub open spec fn newline_count(s: Seq<char>) -> int
    decreases s.len(),
{
    if s.len() == 0 {
        0
    } else {
        newline_count(s.drop_last()) + if s.last() == '\n' { 1int } else { 0int }
    }
}

impl TreeV {
    pub open spec fn len(self) -> int {
        self.elems.len() as int
    }

    pub open spec fn valid(self, i: int) -> bool {
        0 <= i < self.len()
    }

    pub open spec fn is_node(self, i: int) -> bool {
        self.valid(i) && self.elems[i] is Node
    }

    pub open spec fn is_tok(self, i: int) -> bool {
        self.valid(i) && self.elems[i] is Token
    }

    /// Parent index of an element; total, with 0 outside the arena.
    pub open spec fn parent_of(self, i: int) -> int {
        if self.valid(i) {
            match self.elems[i] {
                ElemV::Node { parent, .. } => parent,
                ElemV::Token { parent, .. } => parent,
            }
        } else {
            0
        }
    }

    pub open spec fn kind_of(self, i: int) -> Kind {
        if self.valid(i) {
            match self.elems[i] {
                ElemV::Node { kind, .. } => Kind::Node(kind),
                ElemV::Token { kind, .. } => Kind::Token(kind),
            }
        } else {
            Kind::Node(NodeKind::Other)
        }
    }

    /// Node kind of an element, `Other` where it is not a node.
    pub open spec fn node_kind_of(self, i: int) -> NodeKind {
        match self.kind_of(i) {
            Kind::Node(k) => k,
            Kind::Token(_) => NodeKind::Other,
        }
    }

    /// Token kind of an element, `Other` where it is not a token.
    pub open spec fn tok_kind_of(self, i: int) -> TokenKind {
        match self.kind_of(i) {
            Kind::Token(k) => k,
            Kind::Node(_) => TokenKind::Other,
        }
    }

    pub open spec fn text_of(self, i: int) -> Seq<char> {
        if self.valid(i) {
            match self.elems[i] {
                ElemV::Token { text, .. } => text,
                ElemV::Node { .. } => Seq::empty(),
            }
        } else {
            Seq::empty()
        }
    }

    pub open spec fn leading_of(self, i: int) -> Seq<char> {
        if self.valid(i) {
            match self.elems[i] {
                ElemV::Token { leading, .. } => leading,
                ElemV::Node { .. } => Seq::empty(),
            }
        } else {
            Seq::empty()
        }
    }

    /// Well-formedness of the arena: non-empty, rooted at element 0, every
    /// other element's parent an earlier node.
    pub open spec fn wf(self) -> bool {
        &&& 0 < self.len()
        &&& self.is_node(0)
        &&& self.parent_of(0) == 0
        &&& forall|i: int|
            1 <= i < self.len() ==> 0 <= #[trigger] self.parent_of(i) < i && self.is_node(
                self.parent_of(i),
            )
    }

    /// Is `q` an ancestor of `i`, or `i` itself?
    pub open spec fn in_sub(self, q: int, i: int) -> bool
        decreases i,
    {
        if i == q {
            true
        } else if 0 < i < self.len() {
            let p = self.parent_of(i);
            0 <= p < i && self.in_sub(q, p)
        } else {
            false
        }
    }

    /// Does some strict ancestor of `i` have a node kind out of `ks`?
    pub open spec fn inside_any(self, i: int, ks: Seq<NodeKind>) -> bool
        decreases i,
    {
        if 0 < i < self.len() && 0 <= self.parent_of(i) < i {
            let p = self.parent_of(i);
            (self.is_node(p) && ks.contains(self.node_kind_of(p))) || self.inside_any(p, ks)
        } else {
            false
        }
    }

    /// The nearest token strictly before element `i` in the arena order, or
    /// -1 where there is none.
    pub open spec fn prev_tok(self, i: int) -> int
        decreases i,
    {
        if i <= 0 {
            -1
        } else if self.is_tok(i - 1) {
            i - 1
        } else {
            self.prev_tok(i - 1)
        }
    }

    /// The previous sibling of `i` under parent `p`, scanning down from `j`;
    /// -1 where there is none.
    pub open spec fn prev_sib_from(self, p: int, j: int) -> int
        decreases j,
    {
        if j <= p || j <= 0 {
            -1
        } else if self.parent_of(j) == p {
            j
        } else {
            self.prev_sib_from(p, j - 1)
        }
    }

    /// The previous sibling of `i` (the nearest earlier element with the
    /// same parent), or -1 where there is none.
    pub open spec fn prev_sib(self, i: int) -> int {
        self.prev_sib_from(self.parent_of(i), i - 1)
    }

    /// The next sibling of `i` under parent `p`, scanning up from `j`; -1
    /// where there is none.
    pub open spec fn next_sib_from(self, p: int, j: int) -> int
        decreases self.len() - j,
    {
        if j >= self.len() {
            -1
        } else if self.parent_of(j) == p && j > p && j > 0 {
            j
        } else {
            self.next_sib_from(p, j + 1)
        }
    }

    /// The next sibling of `i` (the nearest later element with the same
    /// parent), or -1 where there is none.
    pub open spec fn next_sib(self, i: int) -> int {
        self.next_sib_from(self.parent_of(i), i + 1)
    }

    /// Does the token at `j` witness that the extent of node `q` spans more
    /// than one line: either its own text holds a line break, or it lies in
    /// `q`'s subtree together with the token before it and the gap between
    /// the two holds a line break.
    pub open spec fn tok_spans(self, q: int, j: int) -> bool {
        self.is_tok(j) && self.in_sub(q, j) && (has_newline(self.text_of(j)) || (self.prev_tok(j)
            >= 0 && self.in_sub(q, self.prev_tok(j)) && has_newline(self.leading_of(j))))
    }

    pub open spec fn multiline_from(self, q: int, j: int) -> bool
        decreases self.len() - j,
    {
        if j >= self.len() {
            false
        } else {
            self.tok_spans(q, j) || self.multiline_from(q, j + 1)
        }
    }

    /// Does the original extent of node `q` span more than one line?
    pub open spec fn multiline(self, q: int) -> bool {
        self.multiline_from(q, 0)
    }

    /// The first token of the subtree of `q`, or -1 where the subtree holds
    /// no token.
    pub open spec fn first_tok_from(self, q: int, j: int) -> int
        decreases self.len() - j,
    {
        if j >= self.len() {
            -1
        } else if self.is_tok(j) && self.in_sub(q, j) {
            j
        } else {
            self.first_tok_from(q, j + 1)
        }
    }

    pub open spec fn first_tok(self, q: int) -> int {
        self.first_tok_from(q, 0)
    }

    /// The element that starts at token `i`: the highest ancestor of `e`
    /// whose first token is `i`.
    pub open spec fn line_start_from(self, i: int, e: int) -> int
        decreases e,
    {
        let p = self.parent_of(e);
        if 0 <= p < e && self.first_tok(p) == i {
            self.line_start_from(i, p)
        } else {
            e
        }
    }

    /// The line-starting element of token `i`: the outermost element whose
    /// extent begins at that token.
    pub open spec fn line_start(self, i: int) -> int {
        self.line_start_from(i, i)
    }
}

impl SyntaxTree {
    pub fn num_elems(&self) -> (r: usize)
        ensures
            r == self@.len(),
    {
        self.elems.len()
    }

    pub fn is_token(&self, i: usize) -> (r: bool)
        ensures
            r == self@.is_tok(i as int),
    {
        i < self.elems.len() && match self.elems[i] {
            Element::Token { .. } => true,
            Element::Node { .. } => false,
        }
    }

    pub fn is_node_at(&self, i: usize) -> (r: bool)
        ensures
            r == self@.is_node(i as int),
    {
        i < self.elems.len() && match self.elems[i] {
            Element::Token { .. } => false,
            Element::Node { .. } => true,
        }
    }

    pub fn parent_at(&self, i: usize) -> (r: usize)
        ensures
            r as int == self@.parent_of(i as int),
    {
        if i < self.elems.len() {
            match &self.elems[i] {
                Element::Node { parent, .. } => *parent,
                Element::Token { parent, .. } => *parent,
            }
        } else {
            0
        }
    }

    pub fn kind_at(&self, i: usize) -> (r: Kind)
        ensures
            r == self@.kind_of(i as int),
    {
        if i < self.elems.len() {
            match &self.elems[i] {
                Element::Node { kind, .. } => Kind::Node(*kind),
                Element::Token { kind, .. } => Kind::Token(*kind),
            }
        } else {
            Kind::Node(NodeKind::Other)
        }
    }

    pub fn node_kind_at(&self, i: usize) -> (r: NodeKind)
        ensures
            r == self@.node_kind_of(i as int),
    {
        match self.kind_at(i) {
            Kind::Node(k) => k,
            Kind::Token(_) => NodeKind::Other,
        }
    }

    pub fn tok_kind_at(&self, i: usize) -> (r: TokenKind)
        ensures
            r == self@.tok_kind_of(i as int),
    {
        match self.kind_at(i) {
            Kind::Token(k) => k,
            Kind::Node(_) => TokenKind::Other,
        }
    }

    /// Is `q` an ancestor of `i`, or `i` itself?
    pub fn in_subtree(&self, q: usize, i: usize) -> (r: bool)
        ensures
            r == self@.in_sub(q as int, i as int),
        decreases i,
    {
        if i == q {
            true
        } else if 0 < i && i < self.elems.len() {
            let p = self.parent_at(i);
            p < i && self.in_subtree(q, p)
        } else {
            false
        }
    }

    /// Context predicate: is the element at `i` inside (strictly below) a
    /// node whose kind is in `ks`?
    pub fn is_inside(&self, i: usize, ks: &Vec<NodeKind>) -> (r: bool)
        ensures
            r == self@.inside_any(i as int, ks@),
        decreases i,
    {
        if 0 < i && i < self.elems.len() {
            let p = self.parent_at(i);
            if p < i {
                (self.is_node_at(p) && kind_set_contains(ks, self.node_kind_at(p)))
                    || self.is_inside(p, ks)
            } else {
                false
            }
        } else {
            false
        }
    }

    /// The nearest token strictly before element `i`, if any.
    pub fn prev_token(&self, i: usize) -> (r: Option<usize>)
        ensures
            match r {
                Some(j) => j as int == self@.prev_tok(i as int),
                None => self@.prev_tok(i as int) == -1,
            },
        decreases i,
    {
        if i == 0 {
            None
        } else if self.is_token(i - 1) {
            Some(i - 1)
        } else {
            self.prev_token(i - 1)
        }
    }

    pub fn prev_sibling_from(&self, p: usize, j: usize) -> (r: Option<usize>)
        ensures
            match r {
                Some(s) => s as int == self@.prev_sib_from(p as int, j as int),
                None => self@.prev_sib_from(p as int, j as int) == -1,
            },
        decreases j,
    {
        if j <= p || j == 0 {
            None
        } else if self.parent_at(j) == p {
            Some(j)
        } else {
            self.prev_sibling_from(p, j - 1)
        }
    }

    /// The previous sibling of `i`: the nearest earlier element with the
    /// same parent, if any.
    pub fn prev_sibling(&self, i: usize) -> (r: Option<usize>)
        ensures
            match r {
                Some(s) => s as int == self@.prev_sib(i as int),
                None => self@.prev_sib(i as int) == -1,
            },
    {
        if i == 0 {
            proof {
                assert(self@.prev_sib_from(self@.parent_of(0), -1) == -1);
            }
            None
        } else {
            self.prev_sibling_from(self.parent_at(i), i - 1)
        }
    }

    fn next_sibling_from(&self, p: usize, j: usize) -> (r: Option<usize>)
        ensures
            match r {
                Some(s) => s as int == self@.next_sib_from(p as int, j as int),
                None => self@.next_sib_from(p as int, j as int) == -1,
            },
        decreases self.elems@.len() - j,
    {
        if j >= self.elems.len() {
            None
        } else if self.parent_at(j) == p && j > p && j > 0 {
            Some(j)
        } else {
            self.next_sibling_from(p, j + 1)
        }
    }

    /// The next sibling of `i`: the nearest later element with the same
    /// parent, if any.
    pub fn next_sibling(&self, i: usize) -> (r: Option<usize>)
        requires
            i < usize::MAX,
        ensures
            match r {
                Some(s) => s as int == self@.next_sib(i as int),
                None => self@.next_sib(i as int) == -1,
            },
    {
        self.next_sibling_from(self.parent_at(i), i + 1)
    }

    /// Context predicate: the kind of the previous sibling of `i`, if any.
    pub fn prev_sibling_kind(&self, i: usize) -> (r: Option<Kind>)
        ensures
            match r {
                Some(k) => self@.prev_sib(i as int) >= 0 && k == self@.kind_of(
                    self@.prev_sib(i as int),
                ),
                None => self@.prev_sib(i as int) == -1,
            },
    {
        match self.prev_sibling(i) {
            Some(s) => Some(self.kind_at(s)),
            None => None,
        }
    }

    /// Context predicate: the kind of the next sibling of `i`, if any.
    pub fn next_sibling_kind(&self, i: usize) -> (r: Option<Kind>)
        requires
            i < usize::MAX,
        ensures
            match r {
                Some(k) => self@.next_sib(i as int) >= 0 && k == self@.kind_of(
                    self@.next_sib(i as int),
                ),
                None => self@.next_sib(i as int) == -1,
            },
    {
        match self.next_sibling(i) {
            Some(s) => Some(self.kind_at(s)),
            None => None,
        }
    }

    fn tok_spans_at(&self, q: usize, j: usize) -> (r: bool)
        ensures
            r == self@.tok_spans(q as int, j as int),
    {
        if !self.is_token(j) {
            return false;
        }
        if !self.in_subtree(q, j) {
            return false;
        }
        let has_text_nl = match &self.elems[j] {
            Element::Token { text, .. } => has_newline_str(text.as_str()),
            Element::Node { .. } => false,
        };
        if has_text_nl {
            return true;
        }
        match self.prev_token(j) {
            Some(l) => {
                if self.in_subtree(q, l) {
                    match &self.elems[j] {
                        Element::Token { leading, .. } => has_newline_str(leading.as_str()),
                        Element::Node { .. } => false,
                    }
                } else {
                    false
                }
            },
            None => false,
        }
    }

    /// Does the original extent of node `q` span more than one line?
    pub fn is_multiline(&self, q: usize) -> (r: bool)
        ensures
            r == self@.multiline(q as int),
    {
        let n = self.elems.len();
        let mut j: usize = 0;
        while j < n
            invariant
                n == self@.len(),
                0 <= j <= n,
                self@.multiline(q as int) == self@.multiline_from(q as int, j as int),
            decreases n - j,
        {
            if self.tok_spans_at(q, j) {
                return true;
            }
            j = j + 1;
        }
        false
    }

    /// The first token of the subtree of `q`, if the subtree holds one.
    pub fn first_token(&self, q: usize) -> (r: Option<usize>)
        ensures
            match r {
                Some(j) => j as int == self@.first_tok(q as int),
                None => self@.first_tok(q as int) == -1,
            },
    {
        let n = self.elems.len();
        let mut j: usize = 0;
        while j < n
            invariant
                n == self@.len(),
                0 <= j <= n,
                self@.first_tok(q as int) == self@.first_tok_from(q as int, j as int),
            decreases n - j,
        {
            if self.is_token(j) && self.in_subtree(q, j) {
                return Some(j);
            }
            j = j + 1;
        }
        None
    }

    /// The line-starting element of token `i`: the outermost element whose
    /// extent begins at that token.
    pub fn line_start_at(&self, i: usize) -> (r: usize)
        ensures
            r as int == self@.line_start(i as int),
    {
        let mut e: usize = i;
        loop
            invariant
                self@.line_start_from(i as int, e as int) == self@.line_start(i as int),
            decreases e,
        {
            let p = self.parent_at(e);
            if p < e {
                let ft = self.first_token(p);
                match ft {
                    Some(j) if j == i => {
                        e = p;
                    },
                    _ => {
                        return e;
                    },
                }
            } else {
                return e;
            }
        }
    }
}

/// Membership of a node kind in a kind set.
pub fn kind_set_contains(ks: &Vec<NodeKind>, k: NodeKind) -> (r: bool)
    ensures
        r == ks@.contains(k),
{
    let n = ks.len();
    let mut j: usize = 0;
    while j < n
        invariant
            n == ks@.len(),
            0 <= j <= n,
            forall|m: int| 0 <= m < j ==> ks@[m] != k,
        decreases n - j,
    {
        if ks[j] == k {
            return true;
        }
        j = j + 1;
    }
    false
}

/// True if the string holds a line break.
pub fn has_newline_str(s: &str) -> (r: bool)
    ensures
        r == has_newline(s@),
{
    let n = s.unicode_len();
    let mut j: usize = 0;
    while j < n
        invariant
            n == s@.len(),
            0 <= j <= n,
            forall|m: int| 0 <= m < j ==> s@[m] != '\n',
        decreases n - j,
    {
        if s.get_char(j) == '\n' {
            return true;
        }
        j = j + 1;
    }
    false
}

/// Number of line breaks in the string.
pub fn newline_count_str(s: &str) -> (r: usize)
    ensures
        r as int == newline_count(s@),
{
    let n = s.unicode_len();
    let mut j: usize = 0;
    let mut c: usize = 0;
    while j < n
        invariant
            n == s@.len(),
            0 <= j <= n,
            c <= j,
            c as int == newline_count(s@.subrange(0, j as int)),
        decreases n - j,
    {
        proof {
            assert(s@.subrange(0, j + 1 as int).drop_last() =~= s@.subrange(0, j as int));
        }
        if s.get_char(j) == '\n' {
            c = c + 1;
        }
        j = j + 1;
    }
    proof {
        assert(s@.subrange(0, n as int) =~= s@);
    }
    c
}

} // verus!

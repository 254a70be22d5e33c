//! The spacing rule registry: an ordered collection of directives, and the
//! resolution order that picks the single winning whitespace action for a
//! gap.
//!
//! A gap is identified by the token on its right-hand side; the token before
//! it (if any) is its left-hand side.  A directive anchored `Before` a token
//! kind speaks about the gap in front of such a token, one anchored `After`
//! speaks about the gap behind it.  Resolution first tries the guarded
//! directives in registration order and takes the first whose guard holds,
//! then the unguarded ones in registration order; a gap no directive matches
//! is left to the caller's default policy.
use vstd::prelude::*;

use crate::kinds::NodeKind;
use crate::kinds::TokenKind;
use crate::tree::SyntaxTree;
use crate::tree::TreeV;

verus! {

/// Whitespace decision for one gap between adjacent syntax elements.
#[derive(Clone, Copy, PartialEq, Eq, Structural, Debug)]
pub enum SpaceValue {
    /// Render nothing; an original line break is removed.
    NoSpace,
    /// Render exactly one space; an original line break is removed.
    SingleSpace,
    /// Render nothing, but keep one line break (with recomputed
    /// indentation) where the original layout already had one.
    NoSpaceOrNewline,
    /// Render one space, but keep one line break (with recomputed
    /// indentation) where the original layout already had one.
    SingleSpaceOrNewline,
}

/// Which side of its anchor token a directive speaks about.
#[derive(Clone, Copy, PartialEq, Eq, Structural, Debug)]
pub enum SpaceLoc {
    /// The gap in front of the anchor token.
    Before,
    /// The gap behind the anchor token.
    After,
}

/// Extra predicates a directive can be narrowed by.
#[derive(Clone, Copy, PartialEq, Eq, Structural, Debug)]
pub enum GuardKind {
    /// The anchor's previous sibling is a set or list literal.
    AfterLiteral,
}

/// One spacing directive.
#[derive(Clone, Debug)]
pub struct SpacingRule {
    /// Container filter: the anchor must lie inside a node with a kind out
    /// of this set; an empty set means no filter.
    pub inside: Vec<NodeKind>,
    /// The anchor token kind.
    pub token: TokenKind,
    /// Which gap at the anchor the directive decides.
    pub loc: SpaceLoc,
    /// Optional narrowing guard; a guarded directive is more specific than
    /// an unguarded one.
    pub guard: Option<GuardKind>,
    /// The whitespace action of the directive.
    pub value: SpaceValue,
}

/// Mathematical model of one spacing directive.
pub ghost struct RuleV {
    pub inside: Seq<NodeKind>,
    pub token: TokenKind,
    pub loc: SpaceLoc,
    pub guard: Option<GuardKind>,
    pub value: SpaceValue,
}

impl View for SpacingRule {
    type V = RuleV;

    open spec fn view(&self) -> RuleV {
        RuleV {
            inside: self.inside@,
            token: self.token,
            loc: self.loc,
            guard: self.guard,
            value: self.value,
        }
    }
}

/// The ordered spacing rule registry.
#[derive(Clone, Debug)]
pub struct SpacingDsl {
    pub rules: Vec<SpacingRule>,
}

impl View for SpacingDsl {
    type V = Seq<RuleV>;

    open spec fn view(&self) -> Seq<RuleV> {
        Seq::new(self.rules@.len(), |i: int| self.rules@[i]@)
    }
}

/// Does the guard hold of the element at `e`?
pub open spec fn guard_holds(t: TreeV, g: GuardKind, e: int) -> bool {
    match g {
        GuardKind::AfterLiteral => {
            let s = t.prev_sib(e);
            t.is_node(s) && (t.node_kind_of(s) == NodeKind::SetLit || t.node_kind_of(s)
                == NodeKind::List)
        },
    }
}

/// The anchor element of rule `r` at the gap in front of token `i`: the
/// token itself for a `Before` rule, the token before the gap for an
/// `After` rule (-1 where there is none).
pub open spec fn anchor_of(t: TreeV, r: RuleV, i: int) -> int {
    match r.loc {
        SpaceLoc::Before => i,
        SpaceLoc::After => t.prev_tok(i),
    }
}

/// Does directive `r` match the gap in front of token `i`: the anchor
/// exists, has the directive's token kind, and satisfies its container
/// filter?
pub open spec fn rule_matches(t: TreeV, r: RuleV, i: int) -> bool {
    let a = anchor_of(t, r, i);
    &&& t.is_tok(a)
    &&& t.tok_kind_of(a) == r.token
    &&& (r.inside.len() == 0 || t.inside_any(a, r.inside))
}

/// Does directive `r` win the gap in the guarded (`guarded == true`) or the
/// unguarded resolution phase?
pub open spec fn rule_wins(t: TreeV, r: RuleV, i: int, guarded: bool) -> bool {
    rule_matches(t, r, i) && match r.guard {
        Some(g) => guarded && guard_holds(t, g, anchor_of(t, r, i)),
        None => !guarded,
    }
}

/// Index of the first directive at or after `j` that wins the given phase,
/// or -1.
pub open spec fn winner_from(rules: Seq<RuleV>, t: TreeV, i: int, guarded: bool, j: int) -> int
    decreases rules.len() - j,
{
    if j < 0 || j >= rules.len() {
        -1
    } else if rule_wins(t, rules[j], i, guarded) {
        j
    } else {
        winner_from(rules, t, i, guarded, j + 1)
    }
}

/// Index of the winning directive for the gap in front of token `i`: the
/// first guarded directive whose guard holds, else the first unguarded
/// matching directive, else -1.
pub open spec fn winner(rules: Seq<RuleV>, t: TreeV, i: int) -> int {
    let g = winner_from(rules, t, i, true, 0);
    if g >= 0 {
        g
    } else {
        winner_from(rules, t, i, false, 0)
    }
}

/// The resolved whitespace action for the gap in front of token `i`, if any
/// directive matches it.
pub open spec fn resolve_spec(rules: Seq<RuleV>, t: TreeV, i: int) -> Option<SpaceValue> {
    let w = winner(rules, t, i);
    if w >= 0 {
        Some(rules[w].value)
    } else {
        None
    }
}

impl SpacingDsl {
    /// Register one directive.
    pub fn add(
        &mut self,
        inside: Vec<NodeKind>,
        token: TokenKind,
        loc: SpaceLoc,
        guard: Option<GuardKind>,
        value: SpaceValue,
    )
        ensures
            final(self)@ == old(self)@.push(
                RuleV { inside: inside@, token, loc, guard, value },
            ),
    {
        self.rules.push(SpacingRule { inside, token, loc, guard, value });
        proof {
            assert(self@ =~= old(self)@.push(RuleV { inside: inside@, token, loc, guard, value }));
        }
    }

    /// Does directive `rules[j]` win the gap in front of token `i` in the
    /// given phase?
    fn wins_at(&self, t: &SyntaxTree, i: usize, j: usize, guarded: bool) -> (r: bool)
        requires
            j < self.rules@.len(),
        ensures
            r == rule_wins(t@, self@[j as int], i as int, guarded),
    {
        let rule = &self.rules[j];
        let anchor: Option<usize> = match rule.loc {
            SpaceLoc::Before => Some(i),
            SpaceLoc::After => t.prev_token(i),
        };
        match anchor {
            None => false,
            Some(a) => {
                if !t.is_token(a) {
                    return false;
                }
                if t.tok_kind_at(a) != rule.token {
                    return false;
                }
                if rule.inside.len() > 0 && !t.is_inside(a, &rule.inside) {
                    return false;
                }
                match rule.guard {
                    Some(g) => guarded && eval_guard(t, g, a),
                    None => !guarded,
                }
            },
        }
    }

    fn winner_pass(&self, t: &SyntaxTree, i: usize, guarded: bool) -> (r: Option<usize>)
        ensures
            match r {
                Some(w) => w as int == winner_from(self@, t@, i as int, guarded, 0),
                None => winner_from(self@, t@, i as int, guarded, 0) == -1,
            },
    {
        let n = self.rules.len();
        let mut j: usize = 0;
        while j < n
            invariant
                n == self.rules@.len(),
                n == self@.len(),
                0 <= j <= n,
                winner_from(self@, t@, i as int, guarded, 0) == winner_from(
                    self@,
                    t@,
                    i as int,
                    guarded,
                    j as int,
                ),
            decreases n - j,
        {
            if self.wins_at(t, i, j, guarded) {
                return Some(j);
            }
            j = j + 1;
        }
        None
    }

    /// Index of the winning directive for the gap in front of token `i`,
    /// if any: first guarded match in registration order, else first
    /// unguarded match in registration order.
    pub fn winner_index(&self, t: &SyntaxTree, i: usize) -> (r: Option<usize>)
        ensures
            match r {
                Some(w) => w as int == winner(self@, t@, i as int) && 0 <= w < self@.len(),
                None => winner(self@, t@, i as int) == -1,
            },
    {
        proof {
            winner_from_in_range(self@, t@, i as int, true, 0);
            winner_from_in_range(self@, t@, i as int, false, 0);
        }
        match self.winner_pass(t, i, true) {
            Some(w) => Some(w),
            None => self.winner_pass(t, i, false),
        }
    }

    /// Resolve the gap in front of token `i` to a whitespace action, where
    /// some directive matches it.
    pub fn resolve(&self, t: &SyntaxTree, i: usize) -> (r: Option<SpaceValue>)
        ensures
            r == resolve_spec(self@, t@, i as int),
    {
        match self.winner_index(t, i) {
            Some(w) => Some(self.rules[w].value),
            None => None,
        }
    }
}

/// Evaluate a guard on the element at `a`.
pub fn eval_guard(t: &SyntaxTree, g: GuardKind, a: usize) -> (r: bool)
    ensures
        r == guard_holds(t@, g, a as int),
{
    match g {
        GuardKind::AfterLiteral => {
            match t.prev_sibling(a) {
                Some(s) => {
                    t.is_node_at(s) && (t.node_kind_at(s) == NodeKind::SetLit || t.node_kind_at(s)
                        == NodeKind::List)
                },
                None => false,
            }
        },
    }
}

/// The winning directive, where there is one, matches the gap.
pub proof fn winner_matches(rules: Seq<RuleV>, t: TreeV, i: int)
    ensures
        winner(rules, t, i) >= 0 ==> 0 <= winner(rules, t, i) < rules.len() && rule_matches(
            t,
            rules[winner(rules, t, i)],
            i,
        ),
{
    winner_from_in_range(rules, t, i, true, 0);
    winner_from_in_range(rules, t, i, false, 0);
}

/// A winner index is always inside the registry.
pub proof fn winner_from_in_range(rules: Seq<RuleV>, t: TreeV, i: int, guarded: bool, j: int)
    ensures
        winner_from(rules, t, i, guarded, j) == -1 || (j <= winner_from(rules, t, i, guarded, j)
            < rules.len() && rule_wins(t, rules[winner_from(rules, t, i, guarded, j)], i, guarded)),
    decreases rules.len() - j,
{
    if j < 0 || j >= rules.len() {
    } else if rule_wins(t, rules[j], i, guarded) {
    } else {
        winner_from_in_range(rules, t, i, guarded, j + 1);
    }
}

} // verus!

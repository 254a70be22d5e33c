//! The indentation rule registry: directives declaring which child element
//! kinds receive one extra indentation level when nested directly under a
//! node whose kind is in the directive's owner set.
//!
//! An element's indentation level is its parent's level, plus one if some
//! directive grants it extra indent.  Comments and other trivia are ordinary
//! children here and inherit the extra indent of the structural children
//! they stand beside.
use vstd::prelude::*;

use crate::kinds::Kind;
use crate::kinds::NodeKind;
use crate::tree::SyntaxTree;
use crate::tree::TreeV;
use crate::tree::kind_set_contains;

verus! {

/// One indentation directive.
#[derive(Clone, Debug)]
pub struct IndentRule {
    /// Kinds of the nodes whose direct children the directive speaks about.
    pub owners: Vec<NodeKind>,
    /// Kinds of the children granted one extra indentation level.
    pub childs: Vec<Kind>,
}

/// Mathematical model of one indentation directive.
pub ghost struct IndentRuleV {
    pub owners: Seq<NodeKind>,
    pub childs: Seq<Kind>,
}

impl View for IndentRule {
    type V = IndentRuleV;

    open spec fn view(&self) -> IndentRuleV {
        IndentRuleV { owners: self.owners@, childs: self.childs@ }
    }
}

/// The indentation rule registry.
#[derive(Clone, Debug)]
pub struct IndentDsl {
    pub rules: Vec<IndentRule>,
}

impl View for IndentDsl {
    type V = Seq<IndentRuleV>;

    open spec fn view(&self) -> Seq<IndentRuleV> {
        Seq::new(self.rules@.len(), |i: int| self.rules@[i]@)
    }
}

/// Does directive `r` grant element `e` one extra indentation level: is the
/// parent's kind in the owner set and the element's kind in the child set?
pub open spec fn indent_rule_applies(r: IndentRuleV, t: TreeV, e: int) -> bool {
    &&& 0 < e < t.len()
    &&& r.owners.contains(t.node_kind_of(t.parent_of(e)))
    &&& r.childs.contains(t.kind_of(e))
}

/// Does some directive grant element `e` one extra indentation level?
pub open spec fn gets_indent(rules: Seq<IndentRuleV>, t: TreeV, e: int) -> bool {
    exists|r: int| 0 <= r < rules.len() && indent_rule_applies(rules[r], t, e)
}

/// The indentation level of element `e`: its parent's level, plus one if
/// some directive applies to `e`.
pub open spec fn indent_level(rules: Seq<IndentRuleV>, t: TreeV, e: int) -> int
    decreases e,
{
    if 0 < e < t.len() && 0 <= t.parent_of(e) < e {
        indent_level(rules, t, t.parent_of(e)) + if gets_indent(rules, t, e) {
            1int
        } else {
            0int
        }
    } else {
        0
    }
}

/// The indentation level never exceeds the element's position in the arena.
pub proof fn indent_level_bounded(rules: Seq<IndentRuleV>, t: TreeV, e: int)
    ensures
        0 <= indent_level(rules, t, e) <= if e > 0 {
            e
        } else {
            0
        },
    decreases e,
{
    if 0 < e < t.len() && 0 <= t.parent_of(e) < e {
        indent_level_bounded(rules, t, t.parent_of(e));
    }
}

/// The whitespace of one indentation level is two spaces.
pub open spec fn indent_ws(level: int) -> Seq<char>
    decreases level,
{
    if level <= 0 {
        Seq::empty()
    } else {
        indent_ws(level - 1) + seq![' ', ' ']
    }
}

/// Membership of an element kind in a kind set.
pub fn elem_kind_contains(ks: &Vec<Kind>, k: Kind) -> (r: bool)
    ensures
        r == ks@.contains(k),
{
    let n = ks.len();
    let mut j: usize = 0;
    while j < n
        invariant
            n == ks@.len(),
            0 <= j <= n,
            forall|m: int| 0 <= m < j ==> ks@[m] != k,
        decreases n - j,
    {
        if ks[j] == k {
            return true;
        }
        j = j + 1;
    }
    false
}

impl IndentDsl {
    /// Register one directive.
    pub fn add(&mut self, owners: Vec<NodeKind>, childs: Vec<Kind>)
        ensures
            final(self)@ == old(self)@.push(IndentRuleV { owners: owners@, childs: childs@ }),
    {
        self.rules.push(IndentRule { owners, childs });
        proof {
            assert(self@ =~= old(self)@.push(IndentRuleV { owners: owners@, childs: childs@ }));
        }
    }

    /// Does some directive grant element `e` one extra indentation level?
    pub fn grants_indent(&self, t: &SyntaxTree, e: usize) -> (r: bool)
        ensures
            r == gets_indent(self@, t@, e as int),
    {
        let n = self.rules.len();
        let mut j: usize = 0;
        while j < n
            invariant
                n == self.rules@.len(),
                n == self@.len(),
                0 <= j <= n,
                forall|m: int| 0 <= m < j ==> !indent_rule_applies(self@[m], t@, e as int),
            decreases n - j,
        {
            let rule = &self.rules[j];
            let applies = 0 < e && e < t.num_elems() && kind_set_contains(
                &rule.owners,
                t.node_kind_at(t.parent_at(e)),
            ) && elem_kind_contains(&rule.childs, t.kind_at(e));
            if applies {
                proof {
                    assert(indent_rule_applies(self@[j as int], t@, e as int));
                }
                return true;
            }
            j = j + 1;
        }
        false
    }

    /// The indentation level of element `e`: the number of directive-granted
    /// indent steps on the path from the root down to `e`.
    pub fn indent_level_of(&self, t: &SyntaxTree, e: usize) -> (r: usize)
        ensures
            r as int == indent_level(self@, t@, e as int),
            r <= e,
        decreases e,
    {
        proof {
            indent_level_bounded(self@, t@, e as int);
        }
        if 0 < e && e < t.num_elems() {
            let p = t.parent_at(e);
            if p < e {
                let base = self.indent_level_of(t, p);
                if self.grants_indent(t, e) {
                    base + 1
                } else {
                    base
                }
            } else {
                0
            }
        } else {
            0
        }
    }
}

} // verus!

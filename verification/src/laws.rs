//! The laws of the rule model, stated and proved over the same spec
//! functions the executable contracts use.
use vstd::prelude::*;

use crate::engine::default_gap;
use crate::engine::new_leading;
use crate::engine::newline_count_zero;
use crate::engine::newline_keep;
use crate::engine::reformat_elem;
use crate::engine::reformat_spec;
use crate::engine::renewed;
use crate::engine::trailing_out;
use crate::indentation::IndentRuleV;
use crate::indentation::gets_indent;
use crate::indentation::indent_level;
use crate::indentation::indent_rule_applies;
use crate::indentation::indent_ws;
use crate::spacing::RuleV;
use crate::spacing::SpaceValue;
use crate::spacing::anchor_of;
use crate::spacing::guard_holds;
use crate::spacing::resolve_spec;
use crate::spacing::rule_matches;
use crate::spacing::rule_wins;
use crate::spacing::winner;
use crate::spacing::winner_from;
use crate::spacing::winner_matches;
use crate::tree::ElemV;
use crate::tree::TreeV;
use crate::tree::has_newline;
use crate::tree::newline_count;

verus! {

/// The first winner of a phase is the earliest directive that wins it.
proof fn winner_from_first(rules: Seq<RuleV>, t: TreeV, i: int, guarded: bool, j: int, g: int)
    requires
        0 <= j <= g < rules.len(),
        rule_wins(t, rules[g], i, guarded),
        forall|m: int| j <= m < g ==> !rule_wins(t, rules[m], i, guarded),
    ensures
        winner_from(rules, t, i, guarded, j) == g,
    decreases g - j,
{
    if j < g {
        winner_from_first(rules, t, i, guarded, j + 1, g);
    }
}

/// Guard precedence: where a guarded directive matches a gap with its
/// guard true, and no guarded directive before it does, its action is the
/// resolved one — whatever unguarded directives, earlier or later, also
/// match the gap.
pub proof fn guard_precedence(rules: Seq<RuleV>, t: TreeV, i: int, g: int)
    requires
        0 <= g < rules.len(),
        rule_wins(t, rules[g], i, true),
        forall|m: int| 0 <= m < g ==> !rule_wins(t, rules[m], i, true),
    ensures
        resolve_spec(rules, t, i) == Some(rules[g].value),
{
    winner_from_first(rules, t, i, true, 0, g);
}

/// Newline preservation, first half: where the gap in front of token `i`
/// resolves to a newline-preserving action and the original gap holds a
/// line break, the rewritten gap is exactly one line break followed by the
/// recomputed indentation of the line-starting element.
pub proof fn newline_preserved(t: TreeV, rules: Seq<RuleV>, irules: Seq<IndentRuleV>, i: int)
    requires
        winner(rules, t, i) >= 0,
        rules[winner(rules, t, i)].value == SpaceValue::NoSpaceOrNewline || rules[winner(
            rules,
            t,
            i,
        )].value == SpaceValue::SingleSpaceOrNewline,
        has_newline(t.leading_of(i)),
    ensures
        new_leading(t, rules, irules, i) == seq!['\n'] + indent_ws(
            indent_level(irules, t, t.line_start(i)),
        ),
{
    assert(newline_keep(t, rules, i, winner(rules, t, i)));
}

/// Newline preservation, second half: where the gap holds no line break
/// and the anchor's parent does not span more than one line, the rewritten
/// gap is the action's base spacing.  (A parent that is already multi-line
/// through some other gap takes a line break here too, so that half is
/// stated with the parent's extent on one line.)
pub proof fn base_spacing_used(t: TreeV, rules: Seq<RuleV>, irules: Seq<IndentRuleV>, i: int)
    requires
        winner(rules, t, i) >= 0,
        !has_newline(t.leading_of(i)),
        !t.multiline(t.parent_of(anchor_of(t, rules[winner(rules, t, i)], i))),
    ensures
        rules[winner(rules, t, i)].value == SpaceValue::NoSpaceOrNewline ==> new_leading(
            t,
            rules,
            irules,
            i,
        ) == Seq::<char>::empty(),
        rules[winner(rules, t, i)].value == SpaceValue::SingleSpaceOrNewline ==> new_leading(
            t,
            rules,
            irules,
            i,
        ) == seq![' '],
{
    assert(!newline_keep(t, rules, i, winner(rules, t, i)));
}

// ---------------------------------------------------------------------------
// Idempotence.  Rewriting the gaps changes no kind, parent or token text, so
// every structural query gives the same answer on the rewritten tree; the
// whitespace written into each gap then re-resolves to itself.
// ---------------------------------------------------------------------------
/// Line break counts add up over concatenation.
proof fn newline_count_concat(a: Seq<char>, b: Seq<char>)
    ensures
        newline_count(a + b) == newline_count(a) + newline_count(b),
    decreases b.len(),
{
    if b.len() == 0 {
        assert(a + b =~= a);
    } else {
        newline_count_concat(a, b.drop_last());
        assert((a + b).drop_last() =~= a + b.drop_last());
        assert((a + b).last() == b.last());
    }
}

/// Indentation whitespace holds no line break.
proof fn indent_ws_no_newline(level: int)
    ensures
        newline_count(indent_ws(level)) == 0,
    decreases level,
{
    if level <= 0 {
    } else {
        indent_ws_no_newline(level - 1);
        newline_count_concat(indent_ws(level - 1), seq![' ', ' ']);
        small_counts();
    }
}

/// Line break counts of the small constant gaps.
proof fn small_counts()
    ensures
        newline_count(Seq::<char>::empty()) == 0,
        newline_count(seq![' ']) == 0,
        newline_count(seq![' ', ' ']) == 0,
        newline_count(seq!['\n']) == 1,
        newline_count(seq!['\n', '\n']) == 2,
{
    assert(newline_count(Seq::<char>::empty()) == 0);
    assert(seq![' '].drop_last() =~= Seq::<char>::empty());
    assert(seq!['\n'].drop_last() =~= Seq::<char>::empty());
    assert(newline_count(seq![' ']) == 0);
    assert(newline_count(seq!['\n']) == 1);
    assert(seq!['\n', '\n'].drop_last() =~= seq!['\n']);
    assert(seq![' ', ' '].drop_last() =~= seq![' ']);
    assert(newline_count(seq!['\n', '\n']) == 2);
    assert(newline_count(seq![' ', ' ']) == 0);
}

/// A rewritten-gap text that keeps a line break starts with one.
proof fn renewed_facts(t: TreeV, irules: Seq<IndentRuleV>, i: int)
    ensures
        has_newline(renewed(t, irules, i)),
        newline_count(renewed(t, irules, i)) == 1,
{
    let r = renewed(t, irules, i);
    assert(r[0] == '\n');
    small_counts();
    indent_ws_no_newline(indent_level(irules, t, t.line_start(i)));
    newline_count_concat(seq!['\n'], indent_ws(indent_level(irules, t, t.line_start(i))));
}

/// The gap rewrite keeps the whole structure of the tree: lengths, kinds,
/// parents and token texts; only the gaps change, and each to the resolved
/// whitespace.
proof fn lemma_structure(t: TreeV, rules: Seq<RuleV>, irules: Seq<IndentRuleV>)
    ensures
        ({
            let t1 = reformat_spec(t, rules, irules);
            &&& t1.len() == t.len()
            &&& forall|i: int| #[trigger] t1.parent_of(i) == t.parent_of(i)
            &&& forall|i: int| #[trigger] t1.is_tok(i) == t.is_tok(i)
            &&& forall|i: int| #[trigger] t1.is_node(i) == t.is_node(i)
            &&& forall|i: int| #[trigger] t1.kind_of(i) == t.kind_of(i)
            &&& forall|i: int| #[trigger] t1.node_kind_of(i) == t.node_kind_of(i)
            &&& forall|i: int| #[trigger] t1.tok_kind_of(i) == t.tok_kind_of(i)
            &&& forall|i: int| #[trigger] t1.text_of(i) == t.text_of(i)
            &&& forall|i: int|
                t.is_tok(i) ==> #[trigger] t1.leading_of(i) == new_leading(t, rules, irules, i)
        }),
{
    let t1 = reformat_spec(t, rules, irules);
    assert forall|i: int| #[trigger] t1.parent_of(i) == t.parent_of(i) by {
        if t.valid(i) {
            assert(t1.elems[i] == reformat_elem(t, rules, irules, i));
        }
    }
    assert forall|i: int| #[trigger] t1.is_tok(i) == t.is_tok(i) by {
        if t.valid(i) {
            assert(t1.elems[i] == reformat_elem(t, rules, irules, i));
        }
    }
    assert forall|i: int| #[trigger] t1.is_node(i) == t.is_node(i) by {
        if t.valid(i) {
            assert(t1.elems[i] == reformat_elem(t, rules, irules, i));
        }
    }
    assert forall|i: int| #[trigger] t1.kind_of(i) == t.kind_of(i) by {
        if t.valid(i) {
            assert(t1.elems[i] == reformat_elem(t, rules, irules, i));
        }
    }
    assert forall|i: int| #[trigger] t1.text_of(i) == t.text_of(i) by {
        if t.valid(i) {
            assert(t1.elems[i] == reformat_elem(t, rules, irules, i));
        }
    }
    assert forall|i: int| t.is_tok(i) ==> #[trigger] t1.leading_of(i) == new_leading(
        t,
        rules,
        irules,
        i,
    ) by {
        if t.is_tok(i) {
            assert(t1.elems[i] == reformat_elem(t, rules, irules, i));
        }
    }
}

/// Subtree membership is a structural query.
proof fn in_sub_eq(t: TreeV, rules: Seq<RuleV>, irules: Seq<IndentRuleV>, q: int, i: int)
    ensures
        reformat_spec(t, rules, irules).in_sub(q, i) == t.in_sub(q, i),
    decreases
            if i >= 0 {
                i
            } else {
                0
            },
{
    lemma_structure(t, rules, irules);
    if i != q && 0 < i < t.len() && 0 <= t.parent_of(i) < i {
        in_sub_eq(t, rules, irules, q, t.parent_of(i));
    }
}

/// The container predicate is a structural query.
proof fn inside_any_eq(
    t: TreeV,
    rules: Seq<RuleV>,
    irules: Seq<IndentRuleV>,
    i: int,
    ks: Seq<crate::kinds::NodeKind>,
)
    ensures
        reformat_spec(t, rules, irules).inside_any(i, ks) == t.inside_any(i, ks),
    decreases
            if i >= 0 {
                i
            } else {
                0
            },
{
    lemma_structure(t, rules, irules);
    if 0 < i < t.len() && 0 <= t.parent_of(i) < i {
        inside_any_eq(t, rules, irules, t.parent_of(i), ks);
    }
}

/// The previous-token query is structural.
proof fn prev_tok_eq(t: TreeV, rules: Seq<RuleV>, irules: Seq<IndentRuleV>, i: int)
    ensures
        reformat_spec(t, rules, irules).prev_tok(i) == t.prev_tok(i),
    decreases
            if i >= 0 {
                i
            } else {
                0
            },
{
    lemma_structure(t, rules, irules);
    if i > 0 {
        prev_tok_eq(t, rules, irules, i - 1);
    }
}

/// The previous-sibling query is structural.
proof fn prev_sib_from_eq(t: TreeV, rules: Seq<RuleV>, irules: Seq<IndentRuleV>, p: int, j: int)
    ensures
        reformat_spec(t, rules, irules).prev_sib_from(p, j) == t.prev_sib_from(p, j),
    decreases
            if j >= 0 {
                j
            } else {
                0
            },
{
    lemma_structure(t, rules, irules);
    if j > p && j > 0 {
        prev_sib_from_eq(t, rules, irules, p, j - 1);
    }
}

/// The first token of a subtree is structural.
proof fn first_tok_from_eq(t: TreeV, rules: Seq<RuleV>, irules: Seq<IndentRuleV>, q: int, j: int)
    ensures
        reformat_spec(t, rules, irules).first_tok_from(q, j) == t.first_tok_from(q, j),
    decreases t.len() - j,
{
    lemma_structure(t, rules, irules);
    in_sub_eq(t, rules, irules, q, j);
    if j < t.len() && !(t.is_tok(j) && t.in_sub(q, j)) {
        first_tok_from_eq(t, rules, irules, q, j + 1);
    }
}

/// The line-starting element of a token is structural.
proof fn line_start_from_eq(t: TreeV, rules: Seq<RuleV>, irules: Seq<IndentRuleV>, i: int, e: int)
    ensures
        reformat_spec(t, rules, irules).line_start_from(i, e) == t.line_start_from(i, e),
    decreases
            if e >= 0 {
                e
            } else {
                0
            },
{
    lemma_structure(t, rules, irules);
    first_tok_from_eq(t, rules, irules, t.parent_of(e), 0);
    if 0 <= t.parent_of(e) < e && t.first_tok(t.parent_of(e)) == i {
        line_start_from_eq(t, rules, irules, i, t.parent_of(e));
    }
}

/// Granted indentation is structural.
proof fn gets_indent_eq(t: TreeV, rules: Seq<RuleV>, irules: Seq<IndentRuleV>, e: int)
    ensures
        gets_indent(irules, reformat_spec(t, rules, irules), e) == gets_indent(irules, t, e),
{
    lemma_structure(t, rules, irules);
    let t1 = reformat_spec(t, rules, irules);
    assert forall|r: int|
        0 <= r < irules.len() ==> (#[trigger] indent_rule_applies(irules[r], t1, e)
            == indent_rule_applies(irules[r], t, e)) by {}
}

/// The indentation level is structural.
proof fn indent_level_eq(t: TreeV, rules: Seq<RuleV>, irules: Seq<IndentRuleV>, e: int)
    ensures
        indent_level(irules, reformat_spec(t, rules, irules), e) == indent_level(irules, t, e),
    decreases
            if e >= 0 {
                e
            } else {
                0
            },
{
    lemma_structure(t, rules, irules);
    gets_indent_eq(t, rules, irules, e);
    if 0 < e < t.len() && 0 <= t.parent_of(e) < e {
        indent_level_eq(t, rules, irules, t.parent_of(e));
    }
}

/// The rewritten gap of a line-keeping action is structural.
proof fn renewed_eq(t: TreeV, rules: Seq<RuleV>, irules: Seq<IndentRuleV>, i: int)
    ensures
        renewed(reformat_spec(t, rules, irules), irules, i) == renewed(t, irules, i),
{
    line_start_from_eq(t, rules, irules, i, i);
    indent_level_eq(t, rules, irules, t.line_start(i));
}

/// A guard is a structural query.
proof fn guard_holds_eq(
    t: TreeV,
    rules: Seq<RuleV>,
    irules: Seq<IndentRuleV>,
    g: crate::spacing::GuardKind,
    e: int,
)
    ensures
        guard_holds(reformat_spec(t, rules, irules), g, e) == guard_holds(t, g, e),
{
    lemma_structure(t, rules, irules);
    prev_sib_from_eq(t, rules, irules, t.parent_of(e), e - 1);
}

/// Matching and winning of a directive are structural.
proof fn rule_wins_eq(
    t: TreeV,
    rules: Seq<RuleV>,
    irules: Seq<IndentRuleV>,
    r: RuleV,
    i: int,
    guarded: bool,
)
    ensures
        anchor_of(reformat_spec(t, rules, irules), r, i) == anchor_of(t, r, i),
        rule_matches(reformat_spec(t, rules, irules), r, i) == rule_matches(t, r, i),
        rule_wins(reformat_spec(t, rules, irules), r, i, guarded) == rule_wins(t, r, i, guarded),
{
    lemma_structure(t, rules, irules);
    prev_tok_eq(t, rules, irules, i);
    let a = anchor_of(t, r, i);
    inside_any_eq(t, rules, irules, a, r.inside);
    match r.guard {
        Some(g) => {
            guard_holds_eq(t, rules, irules, g, a);
        },
        None => {},
    }
}

/// The whole resolution is structural.
proof fn winner_from_eq(
    t: TreeV,
    rules: Seq<RuleV>,
    irules: Seq<IndentRuleV>,
    i: int,
    guarded: bool,
    j: int,
)
    ensures
        winner_from(rules, reformat_spec(t, rules, irules), i, guarded, j) == winner_from(
            rules,
            t,
            i,
            guarded,
            j,
        ),
    decreases rules.len() - j,
{
    if 0 <= j < rules.len() {
        rule_wins_eq(t, rules, irules, rules[j], i, guarded);
        if !rule_wins(t, rules[j], i, guarded) {
            winner_from_eq(t, rules, irules, i, guarded, j + 1);
        }
    }
}

proof fn winner_eq(t: TreeV, rules: Seq<RuleV>, irules: Seq<IndentRuleV>, i: int)
    ensures
        winner(rules, reformat_spec(t, rules, irules), i) == winner(rules, t, i),
{
    winner_from_eq(t, rules, irules, i, true, 0);
    winner_from_eq(t, rules, irules, i, false, 0);
}

/// Subtree membership is transitive.
proof fn in_sub_trans(t: TreeV, q: int, p: int, j: int)
    requires
        t.in_sub(q, p),
        t.in_sub(p, j),
    ensures
        t.in_sub(q, j),
    decreases
            if j >= 0 {
                j
            } else {
                0
            },
{
    if j == p {
    } else if 0 < j < t.len() && 0 <= t.parent_of(j) < j {
        in_sub_trans(t, q, p, t.parent_of(j));
    }
}

/// A token that witnesses a line break for an inner node witnesses it for
/// every enclosing node.
proof fn tok_spans_mono(t: TreeV, q: int, p: int, j: int)
    requires
        t.in_sub(q, p),
        t.tok_spans(p, j),
    ensures
        t.tok_spans(q, j),
{
    in_sub_trans(t, q, p, j);
    if t.prev_tok(j) >= 0 && t.in_sub(p, t.prev_tok(j)) && has_newline(t.leading_of(j)) {
        in_sub_trans(t, q, p, t.prev_tok(j));
    }
}

/// A witnessing token makes the node multi-line.
proof fn ml_from_sees(t: TreeV, q: int, m: int, j: int)
    requires
        0 <= m <= j < t.len(),
        t.tok_spans(q, j),
    ensures
        t.multiline_from(q, m),
    decreases j - m,
{
    if m < j {
        ml_from_sees(t, q, m + 1, j);
    }
}

/// A multi-line node has a witnessing token.
proof fn ml_from_witness(t: TreeV, q: int, m: int) -> (j: int)
    requires
        t.multiline_from(q, m),
    ensures
        m <= j < t.len(),
        t.tok_spans(q, j),
    decreases t.len() - m,
{
    if t.tok_spans(q, m) {
        m
    } else {
        ml_from_witness(t, q, m + 1)
    }
}

/// A node inside a single-line node is single-line.
proof fn multiline_mono(t: TreeV, q: int, p: int)
    requires
        t.in_sub(q, p),
        t.multiline(p),
    ensures
        t.multiline(q),
{
    let j = ml_from_witness(t, p, 0);
    tok_spans_mono(t, q, p, j);
    ml_from_sees(t, q, 0, j);
}

/// No gap strictly inside a single-line node is rewritten to hold a line
/// break.
proof fn no_nl_new_leading(
    t: TreeV,
    rules: Seq<RuleV>,
    irules: Seq<IndentRuleV>,
    q: int,
    i: int,
)
    requires
        t.wf(),
        t.is_node(q),
        !t.multiline(q),
        t.is_tok(i),
        t.in_sub(q, i),
        t.prev_tok(i) >= 0,
        t.in_sub(q, t.prev_tok(i)),
    ensures
        !has_newline(new_leading(t, rules, irules, i)),
{
    small_counts();
    newline_count_zero(Seq::<char>::empty());
    newline_count_zero(seq![' ']);
    if has_newline(t.leading_of(i)) {
        ml_from_sees(t, q, 0, i);
        assert(false);
    }
    let w = winner(rules, t, i);
    if w < 0 {
        assert(new_leading(t, rules, irules, i) == t.leading_of(i));
    } else {
        winner_matches(rules, t, i);
        let a = anchor_of(t, rules[w], i);
        assert(t.is_tok(a));
        match rules[w].value {
            SpaceValue::NoSpace => {},
            SpaceValue::SingleSpace => {},
            SpaceValue::NoSpaceOrNewline | SpaceValue::SingleSpaceOrNewline => {
                assert(a == i || a == t.prev_tok(i));
                assert(t.in_sub(q, a));
                assert(a != q);
                assert(0 < a < t.len());
                assert(t.in_sub(q, t.parent_of(a)));
                if t.multiline(t.parent_of(a)) {
                    multiline_mono(t, q, t.parent_of(a));
                    assert(false);
                }
                assert(!newline_keep(t, rules, i, w));
            },
        }
    }
}

/// A node whose extent lies on one line still does after the rewrite.
proof fn single_line_preserved(t: TreeV, rules: Seq<RuleV>, irules: Seq<IndentRuleV>, q: int)
    requires
        t.wf(),
        t.is_node(q),
        !t.multiline(q),
    ensures
        !reformat_spec(t, rules, irules).multiline(q),
{
    let t1 = reformat_spec(t, rules, irules);
    lemma_structure(t, rules, irules);
    if t1.multiline(q) {
        let j = ml_from_witness(t1, q, 0);
        in_sub_eq(t, rules, irules, q, j);
        prev_tok_eq(t, rules, irules, j);
        if has_newline(t1.text_of(j)) {
            ml_from_sees(t, q, 0, j);
            assert(false);
        } else {
            in_sub_eq(t, rules, irules, q, t.prev_tok(j));
            assert(t1.leading_of(j) == new_leading(t, rules, irules, j));
            no_nl_new_leading(t, rules, irules, q, j);
            assert(false);
        }
    }
}

/// Idempotence of the default policy and of each action's rewrite, per
/// gap: rewriting the rewritten tree writes the same gap again.
proof fn leading_stable(t: TreeV, rules: Seq<RuleV>, irules: Seq<IndentRuleV>, i: int)
    requires
        t.wf(),
        t.is_tok(i),
    ensures
        new_leading(reformat_spec(t, rules, irules), rules, irules, i) == new_leading(
            t,
            rules,
            irules,
            i,
        ),
{
    let t1 = reformat_spec(t, rules, irules);
    lemma_structure(t, rules, irules);
    winner_eq(t, rules, irules, i);
    renewed_eq(t, rules, irules, i);
    renewed_facts(t, irules, i);
    renewed_facts(t1, irules, i);
    small_counts();
    newline_count_zero(t.leading_of(i));
    newline_count_zero(t1.leading_of(i));
    newline_count_zero(Seq::<char>::empty());
    newline_count_zero(seq![' ']);
    let w = winner(rules, t, i);
    assert(t1.leading_of(i) == new_leading(t, rules, irules, i));
    if w < 0 {
        let d = default_gap(t, irules, i);
        if !has_newline(t.leading_of(i)) {
            assert(d == t.leading_of(i));
            assert(default_gap(t1, irules, i) == d);
        } else {
            let r = renewed(t, irules, i);
            newline_count_concat(seq!['\n'], r);
            newline_count_concat(Seq::<char>::empty(), r);
            if newline_count(t.leading_of(i)) >= 2 {
                assert(d == seq!['\n'] + r);
                assert(d[0] == '\n');
                assert(has_newline(d));
                assert(newline_count(d) == 2);
                assert(default_gap(t1, irules, i) == seq!['\n'] + renewed(t1, irules, i));
            } else {
                assert(d == Seq::<char>::empty() + r);
                assert(d =~= r);
                assert(d[0] == '\n');
                assert(has_newline(d));
                assert(newline_count(d) == 1);
                assert(default_gap(t1, irules, i) == Seq::<char>::empty() + renewed(
                    t1,
                    irules,
                    i,
                ));
            }
        }
    } else {
        winner_matches(rules, t, i);
        let a = anchor_of(t, rules[w], i);
        rule_wins_eq(t, rules, irules, rules[w], i, true);
        assert(anchor_of(t1, rules[w], i) == a);
        match rules[w].value {
            SpaceValue::NoSpace => {},
            SpaceValue::SingleSpace => {},
            SpaceValue::NoSpaceOrNewline | SpaceValue::SingleSpaceOrNewline => {
                if newline_keep(t, rules, i, w) {
                    assert(t1.leading_of(i) == renewed(t, irules, i));
                    assert(t1.leading_of(i)[0] == '\n');
                    assert(has_newline(t1.leading_of(i)));
                    assert(newline_keep(t1, rules, i, w));
                } else {
                    assert(!has_newline(t1.leading_of(i)));
                    assert(t.is_tok(a));
                    assert(a != 0);
                    assert(t.is_node(t.parent_of(a)));
                    single_line_preserved(t, rules, irules, t.parent_of(a));
                    assert(!t1.multiline(t1.parent_of(a)));
                    assert(!newline_keep(t1, rules, i, w));
                }
            },
        }
    }
}

/// The trailing whitespace settles after one pass.
proof fn trailing_stable(w: Seq<char>)
    ensures
        trailing_out(trailing_out(w)) == trailing_out(w),
{
    small_counts();
    newline_count_zero(w);
    newline_count_zero(trailing_out(w));
    if has_newline(w) {
        if newline_count(w) >= 2 {
            assert(trailing_out(w)[0] == '\n');
        } else {
            assert(trailing_out(w)[0] == '\n');
        }
        assert(has_newline(trailing_out(w)));
    }
}

/// Idempotence: formatting is stable — rewriting the gaps of an already
/// rewritten tree changes nothing, whatever rule tables are loaded.
pub proof fn reformat_idempotent(t: TreeV, rules: Seq<RuleV>, irules: Seq<IndentRuleV>)
    requires
        t.wf(),
    ensures
        reformat_spec(reformat_spec(t, rules, irules), rules, irules) == reformat_spec(
            t,
            rules,
            irules,
        ),
{
    let t1 = reformat_spec(t, rules, irules);
    let t2 = reformat_spec(t1, rules, irules);
    lemma_structure(t, rules, irules);
    assert forall|i: int| 0 <= i < t1.elems.len() implies #[trigger] t2.elems[i] == t1.elems[i] by {
        assert(t2.elems[i] == reformat_elem(t1, rules, irules, i));
        assert(t1.elems[i] == reformat_elem(t, rules, irules, i));
        match t.elems[i] {
            ElemV::Node { .. } => {},
            ElemV::Token { .. } => {
                leading_stable(t, rules, irules, i);
            },
        }
    }
    trailing_stable(t.trailing);
    assert(t2.elems =~= t1.elems);
    assert(t2 =~= t1);
}

/// The gap rewrite keeps the arena well-formed.
pub proof fn wf_preserved(t: TreeV, rules: Seq<RuleV>, irules: Seq<IndentRuleV>)
    ensures
        reformat_spec(t, rules, irules).wf() == t.wf(),
{
    lemma_structure(t, rules, irules);
    let t1 = reformat_spec(t, rules, irules);
    if t.wf() {
        assert forall|i: int|
            1 <= i < t1.len() implies 0 <= #[trigger] t1.parent_of(i) < i && t1.is_node(
            t1.parent_of(i),
        ) by {}
    }
    if t1.wf() {
        assert forall|i: int|
            1 <= i < t.len() implies 0 <= #[trigger] t.parent_of(i) < i && t.is_node(
            t.parent_of(i),
        ) by {
            assert(t1.parent_of(i) == t.parent_of(i));
        }
    }
}

/// Idempotence of the whole pipeline, relative to the parser: where
/// parsing the formatted text yields exactly the rewritten tree (the
/// parser keeps all trivia, and the rewrite touched only whitespace),
/// formatting the formatted text gives it back unchanged.  What the parser
/// yields for the new text is its own affair, so that premise stays a
/// premise.
pub proof fn reformat_of_idempotent_when_reparse_agrees(s: Seq<char>)
    requires
        crate::parse::parsed_tree(s).wf(),
        crate::parse::parsed_tree(crate::reformat_of(s)) == reformat_spec(
            crate::parse::parsed_tree(s),
            crate::rules::spacing_rules(),
            crate::rules::indent_rules(),
        ),
    ensures
        crate::reformat_of(crate::reformat_of(s)) == crate::reformat_of(s),
{
    let rules = crate::rules::spacing_rules();
    let irules = crate::rules::indent_rules();
    let t = crate::parse::parsed_tree(s);
    let t1 = reformat_spec(t, rules, irules);
    wf_preserved(t, rules, irules);
    reformat_idempotent(t, rules, irules);
    assert(crate::reformat_of(s) == crate::engine::render_spec(t1));
    assert(crate::reformat_of(crate::reformat_of(s)) == crate::engine::render_spec(
        reformat_spec(t1, rules, irules),
    ));
}

} // verus!

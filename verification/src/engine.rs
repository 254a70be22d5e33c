//! The formatting engine: rewrite every gap of a tree according to the
//! resolved whitespace actions, and render the tree back to text.
//!
//! A resolved `NoSpace`/`SingleSpace` replaces the gap with its base
//! spacing.  A resolved `NoSpaceOrNewline`/`SingleSpaceOrNewline` keeps
//! exactly one line break with recomputed indentation where the gap already
//! held one, or where the anchor's parent node spans more than one line;
//! otherwise it uses the base spacing.  A gap no directive matches keeps its
//! original whitespace, except that line breaks are collapsed to at most one
//! blank line and the indentation after them is recomputed.
use vstd::prelude::*;

use crate::indentation::IndentDsl;
use crate::indentation::IndentRuleV;
use crate::indentation::indent_level;
use crate::indentation::indent_ws;
use crate::spacing::RuleV;
use crate::spacing::SpaceLoc;
use crate::spacing::SpaceValue;
use crate::spacing::SpacingDsl;
use crate::spacing::anchor_of;
use crate::spacing::winner;
use crate::spacing::winner_matches;
use crate::tree::Element;
use crate::tree::ElemV;
use crate::tree::SyntaxTree;
use crate::tree::TreeV;
use crate::tree::has_newline;
use crate::tree::has_newline_str;
use crate::tree::newline_count;
use crate::tree::newline_count_str;
use vstd::string::StrSliceExecFns;
use vstd::string::StringExecFns;

verus! {

/// A gap's whitespace holds no line break exactly when its line break count
/// is zero.
pub proof fn newline_count_zero(s: Seq<char>)
    ensures
        (newline_count(s) == 0) <==> !has_newline(s),
        newline_count(s) >= 0,
    decreases s.len(),
{
    if s.len() == 0 {
        assert(!has_newline(s));
    } else {
        newline_count_zero(s.drop_last());
        if s.last() == '\n' {
            assert(s[s.len() - 1] == '\n');
            assert(has_newline(s));
        } else {
            if has_newline(s.drop_last()) {
                let j = choose|j: int| 0 <= j < s.drop_last().len() && s.drop_last()[j] == '\n';
                assert(s[j] == '\n');
                assert(has_newline(s));
            }
            if has_newline(s) {
                let j = choose|j: int| 0 <= j < s.len() && s[j] == '\n';
                if j < s.len() - 1 {
                    assert(s.drop_last()[j] == '\n');
                    assert(has_newline(s.drop_last()));
                }
            }
        }
    }
}

/// Is the kept-line-break condition met for the gap in front of token `i`,
/// decided by directive `rules[w]`: the gap itself holds a line break, or
/// the anchor's parent spans more than one line.
pub open spec fn newline_keep(t: TreeV, rules: Seq<RuleV>, i: int, w: int) -> bool {
    has_newline(t.leading_of(i)) || t.multiline(t.parent_of(anchor_of(t, rules[w], i)))
}

/// One line break followed by the recomputed indentation of the element
/// that starts at token `i`.
pub open spec fn renewed(t: TreeV, irules: Seq<IndentRuleV>, i: int) -> Seq<char> {
    seq!['\n'] + indent_ws(indent_level(irules, t, t.line_start(i)))
}

/// The default policy for a gap no directive matches: whitespace without a
/// line break is kept verbatim; otherwise the line breaks are collapsed to
/// at most one blank line and the indentation after them is recomputed.
pub open spec fn default_gap(t: TreeV, irules: Seq<IndentRuleV>, i: int) -> Seq<char> {
    let w = t.leading_of(i);
    if !has_newline(w) {
        w
    } else {
        (if newline_count(w) >= 2 {
            seq!['\n']
        } else {
            Seq::empty()
        }) + renewed(t, irules, i)
    }
}

/// The whitespace written into the gap in front of token `i`.
pub open spec fn new_leading(t: TreeV, rules: Seq<RuleV>, irules: Seq<IndentRuleV>, i: int) -> Seq<
    char,
> {
    let w = winner(rules, t, i);
    if w >= 0 {
        match rules[w].value {
            SpaceValue::NoSpace => Seq::empty(),
            SpaceValue::SingleSpace => seq![' '],
            SpaceValue::NoSpaceOrNewline => if newline_keep(t, rules, i, w) {
                renewed(t, irules, i)
            } else {
                Seq::empty()
            },
            SpaceValue::SingleSpaceOrNewline => if newline_keep(t, rules, i, w) {
                renewed(t, irules, i)
            } else {
                seq![' ']
            },
        }
    } else {
        default_gap(t, irules, i)
    }
}

/// The element at `i` after the rewrite: tokens get a fresh gap, everything
/// else is kept.
pub open spec fn reformat_elem(t: TreeV, rules: Seq<RuleV>, irules: Seq<IndentRuleV>, i: int) -> ElemV {
    match t.elems[i] {
        ElemV::Node { parent, kind } => ElemV::Node { parent, kind },
        ElemV::Token { parent, kind, text, leading } => (ElemV::Token {
            parent,
            kind,
            text,
            leading: new_leading(t, rules, irules, i),
        }),
    }
}

/// The whitespace after the last token: kept verbatim without a line break,
/// else collapsed to at most one blank line.
pub open spec fn trailing_out(w: Seq<char>) -> Seq<char> {
    if !has_newline(w) {
        w
    } else if newline_count(w) >= 2 {
        seq!['\n', '\n']
    } else {
        seq!['\n']
    }
}

/// The whole tree after the rewrite.
pub open spec fn reformat_spec(t: TreeV, rules: Seq<RuleV>, irules: Seq<IndentRuleV>) -> TreeV {
    TreeV {
        elems: Seq::new(t.elems.len(), |i: int| reformat_elem(t, rules, irules, i)),
        trailing: trailing_out(t.trailing),
    }
}

/// The text of the first `i` elements: every token contributes its gap and
/// its own text.
pub open spec fn render_pre(t: TreeV, i: int) -> Seq<char>
    decreases i,
{
    if i <= 0 {
        Seq::empty()
    } else {
        render_pre(t, i - 1) + if t.is_tok(i - 1) {
            t.leading_of(i - 1) + t.text_of(i - 1)
        } else {
            Seq::empty()
        }
    }
}

/// The rendered text of a tree.
pub open spec fn render_spec(t: TreeV) -> Seq<char> {
    render_pre(t, t.len()) + t.trailing
}

/// The rendered result of formatting a tree once.
pub open spec fn format_tree_spec(t: TreeV, rules: Seq<RuleV>, irules: Seq<IndentRuleV>) -> Seq<
    char,
> {
    render_spec(reformat_spec(t, rules, irules))
}

/// One space.
fn one_space() -> (r: String)
    ensures
        r@ == seq![' '],
{
    let r = String::from_str(" ");
    proof {
        reveal_strlit(" ");
        assert(r@ =~= seq![' ']);
    }
    r
}

/// One line break followed by the recomputed indentation of the element
/// that starts at token `i`.
fn renewed_leading(t: &SyntaxTree, idsl: &IndentDsl, i: usize) -> (r: String)
    ensures
        r@ == renewed(t@, idsl@, i as int),
{
    let ls = t.line_start_at(i);
    let lvl = idsl.indent_level_of(t, ls);
    let mut out = String::from_str("\n");
    proof {
        reveal_strlit("\n");
        assert(out@ =~= seq!['\n'] + indent_ws(0));
    }
    let mut k: usize = 0;
    while k < lvl
        invariant
            k <= lvl,
            out@ == seq!['\n'] + indent_ws(k as int),
        decreases lvl - k,
    {
        out.append("  ");
        proof {
            reveal_strlit("  ");
            assert(out@ =~= seq!['\n'] + indent_ws(k as int + 1));
        }
        k = k + 1;
    }
    out
}

/// Compute the fresh gap for the token at `i`.
fn compute_leading(
    t: &SyntaxTree,
    dsl: &SpacingDsl,
    idsl: &IndentDsl,
    i: usize,
    leading: &str,
) -> (r: String)
    requires
        leading@ == t@.leading_of(i as int),
    ensures
        r@ == new_leading(t@, dsl@, idsl@, i as int),
{
    match dsl.winner_index(t, i) {
        Some(w) => {
            proof {
                winner_matches(dsl@, t@, i as int);
            }
            let rule = &dsl.rules[w];
            match rule.value {
                SpaceValue::NoSpace => String::new(),
                SpaceValue::SingleSpace => one_space(),
                SpaceValue::NoSpaceOrNewline | SpaceValue::SingleSpaceOrNewline => {
                    let keep: bool = if has_newline_str(leading) {
                        true
                    } else {
                        let aopt: Option<usize> = match rule.loc {
                            SpaceLoc::Before => Some(i),
                            SpaceLoc::After => t.prev_token(i),
                        };
                        match aopt {
                            Some(a) => t.is_multiline(t.parent_at(a)),
                            None => false,
                        }
                    };
                    if keep {
                        renewed_leading(t, idsl, i)
                    } else {
                        match rule.value {
                            SpaceValue::SingleSpaceOrNewline => one_space(),
                            _ => String::new(),
                        }
                    }
                },
            }
        },
        None => {
            proof {
                newline_count_zero(t@.leading_of(i as int));
            }
            let k = newline_count_str(leading);
            if k == 0 {
                leading.to_owned()
            } else {
                let rest = renewed_leading(t, idsl, i);
                if k >= 2 {
                    let mut out = String::from_str("\n");
                    proof {
                        reveal_strlit("\n");
                        assert(out@ =~= seq!['\n']);
                    }
                    out.append(rest.as_str());
                    proof {
                        assert(out@ =~= default_gap(t@, idsl@, i as int));
                    }
                    out
                } else {
                    proof {
                        assert(Seq::<char>::empty() + rest@ =~= rest@);
                    }
                    rest
                }
            }
        },
    }
}

/// Rewrite every gap of the tree according to the resolved actions; the
/// structure, the token texts and the kinds are untouched.
pub fn reformat_tree(t: &SyntaxTree, dsl: &SpacingDsl, idsl: &IndentDsl) -> (r: SyntaxTree)
    ensures
        r@ == reformat_spec(t@, dsl@, idsl@),
{
    let n = t.elems.len();
    let mut elems: Vec<Element> = Vec::new();
    let mut i: usize = 0;
    while i < n
        invariant
            n == t.elems@.len(),
            0 <= i <= n,
            elems@.len() == i,
            forall|m: int|
                0 <= m < i ==> #[trigger] elems@[m]@ == reformat_elem(t@, dsl@, idsl@, m),
        decreases n - i,
    {
        let ne: Element = match &t.elems[i] {
            Element::Node { parent, kind } => Element::Node { parent: *parent, kind: *kind },
            Element::Token { parent, kind, text, leading } => {
                proof {
                    assert(t@.elems[i as int] == t.elems@[i as int]@);
                }
                let nl = compute_leading(t, dsl, idsl, i, leading.as_str());
                Element::Token { parent: *parent, kind: *kind, text: text.clone(), leading: nl }
            },
        };
        elems.push(ne);
        i = i + 1;
    }
    let trailing = trailing_exec(t.trailing.as_str());
    let out = SyntaxTree { elems, trailing };
    proof {
        assert(out@.elems =~= reformat_spec(t@, dsl@, idsl@).elems);
        assert(out@ =~= reformat_spec(t@, dsl@, idsl@));
    }
    out
}

/// Collapse the whitespace after the last token.
fn trailing_exec(s: &str) -> (r: String)
    ensures
        r@ == trailing_out(s@),
{
    proof {
        newline_count_zero(s@);
    }
    let k = newline_count_str(s);
    if k == 0 {
        s.to_owned()
    } else if k >= 2 {
        let r = String::from_str("\n\n");
        proof {
            reveal_strlit("\n\n");
            assert(r@ =~= seq!['\n', '\n']);
        }
        r
    } else {
        let r = String::from_str("\n");
        proof {
            reveal_strlit("\n");
            assert(r@ =~= seq!['\n']);
        }
        r
    }
}

/// Render a tree back to text: the gaps and texts of all tokens in order,
/// then the trailing whitespace.
pub fn render(t: &SyntaxTree) -> (r: String)
    ensures
        r@ == render_spec(t@),
{
    let n = t.elems.len();
    let mut out = String::new();
    let mut i: usize = 0;
    while i < n
        invariant
            n == t.elems@.len(),
            0 <= i <= n,
            out@ == render_pre(t@, i as int),
        decreases n - i,
    {
        proof {
            assert(t@.elems[i as int] == t.elems@[i as int]@);
        }
        match &t.elems[i] {
            Element::Token { text, leading, .. } => {
                out.append(leading.as_str());
                out.append(text.as_str());
                proof {
                    assert(out@ =~= render_pre(t@, i as int + 1));
                }
            },
            Element::Node { .. } => {
                proof {
                    assert(out@ =~= render_pre(t@, i as int + 1));
                }
            },
        }
        i = i + 1;
    }
    out.append(t.trailing.as_str());
    proof {
        assert(out@ =~= render_spec(t@));
    }
    out
}

} // verus!

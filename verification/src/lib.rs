//! Formatting rule model for a small expression language.
//!
//! A concrete syntax tree (nodes tagged with grammar kinds, token leaves
//! carrying their text and the whitespace in front of them) is walked once,
//! and for every gap between adjacent tokens an ordered registry of spacing
//! directives resolves a single whitespace action, while a second registry
//! decides which elements receive one extra level of indentation.  The
//! grammar-specific directive tables, the resolution order, the rewrite of
//! the gaps, and the string-level helpers of the self-verifying test harness
//! all live here, with their behaviour stated in contracts.
use vstd::prelude::*;

pub mod engine;
pub mod harness;
pub mod indentation;
pub mod kinds;
pub mod laws;
pub mod parse;
pub mod rules;
pub mod spacing;
pub mod tree;

use crate::engine::format_tree_spec;
use crate::engine::reformat_tree;
use crate::engine::render;
use crate::parse::parse;
use crate::parse::parsed_tree;
use crate::rules::indent_rules;
use crate::rules::indentation;
use crate::rules::spacing;
use crate::rules::spacing_rules;
use vstd::string::StringExecFns;

verus! {

/// What reformatting an input text yields: the parsed tree, formatted with
/// the grammar's rule tables; an input whose parse does not fold into a
/// well-formed tree comes back unchanged.
pub open spec fn reformat_of(s: Seq<char>) -> Seq<char> {
    let t = parsed_tree(s);
    if t.wf() {
        format_tree_spec(t, spacing_rules(), indent_rules())
    } else {
        s
    }
}

/// Reformat source text of the target grammar.  The result is a function
/// of the input text alone, so repeated independent calls yield identical
/// output.
pub fn reformat_string(text: &str) -> (r: String)
    ensures
        r@ == reformat_of(text@),
{
    match parse(text) {
        Some(t) => {
            let dsl = spacing();
            let idsl = indentation();
            let t2 = reformat_tree(&t, &dsl, &idsl);
            render(&t2)
        },
        None => String::from_str(text),
    }
}

} // verus!

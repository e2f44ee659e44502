//! Assert that a value matches a structural pattern, or destructure it, by
//! rewriting a short `value, pattern[, result]` invocation into a two-armed
//! `match` whose catch-all arm panics with a message naming the form.

pub mod syntax;

pub mod construct;
pub mod grammar;
pub mod invocation;

use vstd::prelude::*;

use crate::construct::{arms_for, match_trees, ArmBody, Form};
use crate::grammar::{assert_grammar, coerce_grammar, read_spec, Fragment};
use crate::invocation::{expand_assert, expand_coerce, AssertPatternInput, CoercePatternInput};
use crate::syntax::{error_tokens, error_trees, trees_of, Tree};

verus! {

/// The tokens a two-part invocation expands to, from what was read for it.
pub open spec fn assert_expansion(fs: Seq<Fragment>) -> Seq<Tree> {
    match (fs[0], fs[1]) {
        (Fragment::Expression(e), Fragment::Target(t)) => match_trees(e, arms_for(t, ArmBody::Empty, Form::Assert)),
        _ => Seq::<Tree>::empty(),
    }
}

/// The tokens a three-part invocation expands to, from what was read for it.
pub open spec fn coerce_expansion(fs: Seq<Fragment>) -> Seq<Tree> {
    match (fs[0], fs[1], fs[2]) {
        (Fragment::Expression(e), Fragment::Target(t), Fragment::Expression(v)) =>
            match_trees(e, arms_for(t, ArmBody::Value(v), Form::Coerce)),
        _ => Seq::<Tree>::empty(),
    }
}

/// Expands `value, pattern` into a `match` that does nothing where the value
/// matches the pattern and panics where it does not. Input that does not
/// read as that form expands to the tokens of the read error.
pub fn assert_pattern(input: proc_macro2::TokenStream) -> (r: proc_macro2::TokenStream)
    ensures
        read_spec(assert_grammar(), input) matches Ok(fs) ==> trees_of(r) == assert_expansion(fs),
        read_spec(assert_grammar(), input) matches Err(e) ==> trees_of(r) == error_trees(e),
{
    match expand_assert(AssertPatternInput::parse(input)) {
        Ok(construct) => construct.to_tokens(),
        Err(e) => error_tokens(&e),
    }
}

/// Expands `value, pattern, result` into a `match` that yields `result`, with
/// the pattern's bindings in scope, where the value matches the pattern and
/// panics where it does not. Input that does not read as that form expands
/// to the tokens of the read error.
pub fn coerce_pattern(input: proc_macro2::TokenStream) -> (r: proc_macro2::TokenStream)
    ensures
        read_spec(coerce_grammar(), input) matches Ok(fs) ==> trees_of(r) == coerce_expansion(fs),
        read_spec(coerce_grammar(), input) matches Err(e) ==> trees_of(r) == error_trees(e),
{
    match expand_coerce(CoercePatternInput::parse(input)) {
        Ok(construct) => construct.to_tokens(),
        Err(e) => error_tokens(&e),
    }
}

} // verus!

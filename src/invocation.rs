//! The two invocations, read from tokens and turned into a `match`.

use vstd::prelude::*;

use crate::construct::{arms_for, build_match, ArmBody, Form, MatchConstruct};
use crate::grammar::{
    assert_grammar, assert_parts, coerce_grammar, coerce_parts, lemma_assert_read, lemma_coerce_read,
    read_parts, read_spec, Expression, Fragment, Target,
};

verus! {

/// `expression , target`.
pub struct AssertPatternInput {
    pub expression: Expression,
    pub target: Target,
}

/// `expression , target , result`.
pub struct CoercePatternInput {
    pub expression: Expression,
    pub target: Target,
    pub result: Expression,
}

impl AssertPatternInput {
    /// Assembles the invocation from the fragments of the two-part grammar.
    pub fn from_fragments(frags: Vec<Fragment>) -> (r: Option<AssertPatternInput>)
        ensures
            r is Some <==> (frags@.len() == 2 && frags@[0] is Expression && frags@[1] is Target),
            r matches Some(v) ==> frags@ == seq![
                Fragment::Expression(v.expression),
                Fragment::Target(v.target),
            ],
    {
        let mut frags = frags;
        if frags.len() != 2 {
            return None;
        }
        let ghost whole = frags@;
        let second = frags.pop();
        let first = frags.pop();
        match (first, second) {
            (Some(Fragment::Expression(expression)), Some(Fragment::Target(target))) => {
                let r = AssertPatternInput { expression, target };
                assert(whole =~= seq![Fragment::Expression(r.expression), Fragment::Target(r.target)]);
                Some(r)
            },
            (Some(a), Some(b)) => {
                assert(whole[0] == a && whole[1] == b);
                None
            },
            _ => None,
        }
    }

    /// Reads `expression , target` from `tokens`, with nothing after it.
    pub fn parse(tokens: proc_macro2::TokenStream) -> (r: Result<AssertPatternInput, syn::Error>)
        ensures
            r matches Ok(v) ==> read_spec(assert_grammar(), tokens) == Ok::<Seq<Fragment>, syn::Error>(seq![
                Fragment::Expression(v.expression),
                Fragment::Target(v.target),
            ]),
            r matches Err(e) ==> read_spec(assert_grammar(), tokens) == Err::<Seq<Fragment>, syn::Error>(e),
    {
        proof { lemma_assert_read(tokens); }
        match read_parts(tokens, &assert_parts()) {
            Ok(frags) => match AssertPatternInput::from_fragments(frags) {
                Some(v) => Ok(v),
                None => vstd::pervasive::unreached(),
            },
            Err(e) => Err(e),
        }
    }

    /// The `match` that leaves the value alone where it matches and panics
    /// with the two-part message where it does not.
    pub fn into_match(self) -> (r: MatchConstruct)
        ensures
            r.scrutinee == self.expression,
            r.arms@ == arms_for(self.target, ArmBody::Empty, Form::Assert),
    {
        build_match(self.expression, self.target, ArmBody::Empty, Form::Assert)
    }
}

impl CoercePatternInput {
    /// Assembles the invocation from the fragments of the three-part grammar.
    pub fn from_fragments(frags: Vec<Fragment>) -> (r: Option<CoercePatternInput>)
        ensures
            r is Some <==> (frags@.len() == 3 && frags@[0] is Expression && frags@[1] is Target
                && frags@[2] is Expression),
            r matches Some(v) ==> frags@ == seq![
                Fragment::Expression(v.expression),
                Fragment::Target(v.target),
                Fragment::Expression(v.result),
            ],
    {
        let mut frags = frags;
        if frags.len() != 3 {
            return None;
        }
        let ghost whole = frags@;
        let third = frags.pop();
        let second = frags.pop();
        let first = frags.pop();
        match (first, second, third) {
            (
                Some(Fragment::Expression(expression)),
                Some(Fragment::Target(target)),
                Some(Fragment::Expression(result)),
            ) => {
                let r = CoercePatternInput { expression, target, result };
                assert(whole =~= seq![
                    Fragment::Expression(r.expression),
                    Fragment::Target(r.target),
                    Fragment::Expression(r.result),
                ]);
                Some(r)
            },
            (Some(a), Some(b), Some(c)) => {
                assert(whole[0] == a && whole[1] == b && whole[2] == c);
                None
            },
            _ => None,
        }
    }

    /// Reads `expression , target , result` from `tokens`, with nothing after it.
    pub fn parse(tokens: proc_macro2::TokenStream) -> (r: Result<CoercePatternInput, syn::Error>)
        ensures
            r matches Ok(v) ==> read_spec(coerce_grammar(), tokens) == Ok::<Seq<Fragment>, syn::Error>(seq![
                Fragment::Expression(v.expression),
                Fragment::Target(v.target),
                Fragment::Expression(v.result),
            ]),
            r matches Err(e) ==> read_spec(coerce_grammar(), tokens) == Err::<Seq<Fragment>, syn::Error>(e),
    {
        proof { lemma_coerce_read(tokens); }
        match read_parts(tokens, &coerce_parts()) {
            Ok(frags) => match CoercePatternInput::from_fragments(frags) {
                Some(v) => Ok(v),
                None => vstd::pervasive::unreached(),
            },
            Err(e) => Err(e),
        }
    }

    /// The `match` that yields the result, with the pattern's bindings in
    /// scope, where the value matches, and panics with the three-part message
    /// where it does not.
    pub fn into_match(self) -> (r: MatchConstruct)
        ensures
            r.scrutinee == self.expression,
            r.arms@ == arms_for(self.target, ArmBody::Value(self.result), Form::Coerce),
    {
        build_match(self.expression, self.target, ArmBody::Value(self.result), Form::Coerce)
    }
}

/// Turns a read two-part invocation into its `match`; a read error passes
/// through, and then nothing is generated.
pub fn expand_assert(parsed: Result<AssertPatternInput, syn::Error>) -> (r: Result<MatchConstruct, syn::Error>)
    ensures
        r is Err <==> parsed is Err,
        parsed matches Err(e) ==> r == Err::<MatchConstruct, syn::Error>(e),
        parsed matches Ok(i) ==> (r matches Ok(m) && m.scrutinee == i.expression
            && m.arms@ == arms_for(i.target, ArmBody::Empty, Form::Assert)),
{
    match parsed {
        Ok(invocation) => Ok(invocation.into_match()),
        Err(e) => Err(e),
    }
}

/// Turns a read three-part invocation into its `match`; a read error passes
/// through, and then nothing is generated.
pub fn expand_coerce(parsed: Result<CoercePatternInput, syn::Error>) -> (r: Result<MatchConstruct, syn::Error>)
    ensures
        r is Err <==> parsed is Err,
        parsed matches Err(e) ==> r == Err::<MatchConstruct, syn::Error>(e),
        parsed matches Ok(i) ==> (r matches Ok(m) && m.scrutinee == i.expression
            && m.arms@ == arms_for(i.target, ArmBody::Value(i.result), Form::Coerce)),
{
    match parsed {
        Ok(invocation) => Ok(invocation.into_match()),
        Err(e) => Err(e),
    }
}

} // verus!

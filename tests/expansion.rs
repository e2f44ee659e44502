use pattern_macros::construct::{
    mismatch_literal, mismatch_message, Arm, ArmBody, ArmPattern, Form, MatchConstruct,
};
use pattern_macros::grammar::{Expression, Fragment, Target};
use pattern_macros::invocation::{
    expand_assert, expand_coerce, AssertPatternInput, CoercePatternInput,
};
use pattern_macros::{assert_pattern, coerce_pattern};
use proc_macro2::TokenStream;
use quote::ToTokens;

fn tokens(text: &str) -> TokenStream {
    text.parse::<TokenStream>().unwrap()
}

fn normal(text: &str) -> String {
    tokens(text).to_string()
}

fn expr(text: &str) -> Fragment {
    Fragment::Expression(Expression(syn::parse_str::<syn::Expr>(text).unwrap()))
}

fn pat(text: &str) -> Fragment {
    let p = syn::parse::Parser::parse_str(syn::Pat::parse_multi, text).unwrap();
    Fragment::Target(Target(p))
}

#[test]
fn assert_form_expands_to_two_armed_match() {
    let out = assert_pattern(tokens("Some((1, \"x\")), Some((1, _))"));
    let expected = normal(
        "match Some((1, \"x\")) { Some((1, _)) => {} \
         _ => panic!(\"expression didn't match target pattern in assert_pattern\") }",
    );
    assert_eq!(out.to_string(), expected);
}

#[test]
fn assert_form_mismatch_arm_names_assert_form() {
    let out = assert_pattern(tokens("Some((1, \"x\")), Some((2, _))")).to_string();
    let expected = normal(
        "match Some((1, \"x\")) { Some((2, _)) => {} \
         _ => panic!(\"expression didn't match target pattern in assert_pattern\") }",
    );
    assert_eq!(out, expected);
    assert!(out.contains("assert_pattern"));
    assert!(!out.contains("coerce_pattern"));
}

#[test]
fn coerce_form_result_sees_bindings() {
    let out = coerce_pattern(tokens("Some(1), Some(y), y + 2"));
    let expected = normal(
        "match Some(1) { Some(y) => { y + 2 } \
         _ => panic!(\"expression didn't match target pattern in coerce_pattern\") }",
    );
    assert_eq!(out.to_string(), expected);
}

#[test]
fn or_pattern_stays_one_arm() {
    let out = assert_pattern(tokens("value, Ok(1) | Err(2)"));
    let expected = normal(
        "match value { Ok(1) | Err(2) => {} \
         _ => panic!(\"expression didn't match target pattern in assert_pattern\") }",
    );
    assert_eq!(out.to_string(), expected);
}

#[test]
fn or_pattern_reads_as_one_target() {
    let input = AssertPatternInput::parse(tokens("value, A | B | C")).unwrap();
    let m = input.into_match();
    assert_eq!(m.arms.len(), 2);
    match &m.arms[0].pattern {
        ArmPattern::Target(t) => match &t.0 {
            syn::Pat::Or(or) => assert_eq!(or.cases.len(), 3),
            _ => panic!("the target is not an or-pattern"),
        },
        ArmPattern::Wildcard => panic!("first arm is the catch-all"),
    }
}

#[test]
fn missing_delimiter_is_rejected() {
    assert!(AssertPatternInput::parse(tokens("x")).is_err());
    assert!(CoercePatternInput::parse(tokens("x")).is_err());
    let out = assert_pattern(tokens("x")).to_string();
    assert!(out.contains("compile_error"));
    assert!(!out.contains("match"));
}

#[test]
fn missing_second_delimiter_is_rejected() {
    assert!(CoercePatternInput::parse(tokens("x, Some(y)")).is_err());
    let out = coerce_pattern(tokens("x, Some(y)")).to_string();
    assert!(out.contains("compile_error"));
}

#[test]
fn trailing_tokens_are_rejected() {
    assert!(AssertPatternInput::parse(tokens("x, Some(y), y")).is_err());
    assert!(AssertPatternInput::parse(tokens("x, Some(y) z")).is_err());
    assert!(CoercePatternInput::parse(tokens("x, Some(y), y, w")).is_err());
}

#[test]
fn malformed_fragments_are_rejected() {
    assert!(AssertPatternInput::parse(tokens(", Some(y)")).is_err());
    assert!(AssertPatternInput::parse(tokens("x, +")).is_err());
    assert!(CoercePatternInput::parse(tokens("x, y, ")).is_err());
    assert!(AssertPatternInput::parse(tokens("")).is_err());
}

#[test]
fn components_round_trip() {
    let input = AssertPatternInput::parse(tokens("a + b * 2, Point { x, .. }")).unwrap();
    assert_eq!(input.expression.0.to_token_stream().to_string(), normal("a + b * 2"));
    assert_eq!(input.target.0.to_token_stream().to_string(), normal("Point { x, .. }"));
}

#[test]
fn closure_with_commas_is_one_expression() {
    let input = CoercePatternInput::parse(tokens("|a, b| a + b, f, f(1, 2)")).unwrap();
    assert_eq!(input.expression.0.to_token_stream().to_string(), normal("|a, b| a + b"));
    assert_eq!(input.target.0.to_token_stream().to_string(), normal("f"));
    assert_eq!(input.result.0.to_token_stream().to_string(), normal("f(1, 2)"));
}

#[test]
fn diagnostics_differ_between_forms() {
    let a = mismatch_message(Form::Assert);
    let c = mismatch_message(Form::Coerce);
    assert_ne!(a, c);
    assert_eq!(a, "expression didn't match target pattern in assert_pattern");
    assert_eq!(c, "expression didn't match target pattern in coerce_pattern");
}

#[test]
fn assert_match_has_pattern_then_catch_all() {
    let input = AssertPatternInput::parse(tokens("v, Some(_)")).unwrap();
    let m = input.into_match();
    assert_eq!(m.arms.len(), 2);
    assert!(matches!(m.arms[0].pattern, ArmPattern::Target(_)));
    assert!(matches!(m.arms[0].body, ArmBody::Empty));
    assert!(matches!(m.arms[1].pattern, ArmPattern::Wildcard));
    assert!(matches!(m.arms[1].body, ArmBody::Abort(Form::Assert)));
}

#[test]
fn coerce_match_has_result_then_catch_all() {
    let input = CoercePatternInput::parse(tokens("v, Some(y), y")).unwrap();
    let m = input.into_match();
    assert_eq!(m.arms.len(), 2);
    assert!(matches!(m.arms[0].body, ArmBody::Value(_)));
    assert!(matches!(m.arms[1].pattern, ArmPattern::Wildcard));
    assert!(matches!(m.arms[1].body, ArmBody::Abort(Form::Coerce)));
}

#[test]
fn fragments_must_fit_the_grammar() {
    assert!(AssertPatternInput::from_fragments(vec![expr("x"), pat("Some(y)")]).is_some());
    assert!(AssertPatternInput::from_fragments(vec![pat("Some(y)"), expr("x")]).is_none());
    assert!(AssertPatternInput::from_fragments(vec![expr("x")]).is_none());
    assert!(CoercePatternInput::from_fragments(vec![expr("x"), pat("y"), expr("y")]).is_some());
    assert!(CoercePatternInput::from_fragments(vec![expr("x"), pat("y"), pat("y")]).is_none());
    assert!(CoercePatternInput::from_fragments(vec![expr("x"), pat("y")]).is_none());
}

#[test]
fn read_errors_pass_through_expansion() {
    let err = AssertPatternInput::parse(tokens("x"));
    assert!(expand_assert(err).is_err());
    let err = CoercePatternInput::parse(tokens("x, y"));
    assert!(expand_coerce(err).is_err());
    let ok = CoercePatternInput::parse(tokens("x, y, y"));
    assert!(expand_coerce(ok).is_ok());
}

#[test]
fn arms_are_not_separated_by_commas() {
    let out = coerce_pattern(tokens("v, Some(y), y")).to_string();
    let expected = normal(
        "match v { Some(y) => { y } \
         _ => panic!(\"expression didn't match target pattern in coerce_pattern\") }",
    );
    assert_eq!(out, expected);
}

#[test]
fn panic_arm_before_another_arm_takes_a_comma() {
    let scrutinee = Expression(syn::parse_str::<syn::Expr>("v").unwrap());
    let target = Target(syn::parse::Parser::parse_str(syn::Pat::parse_multi, "None").unwrap());
    let m = MatchConstruct {
        scrutinee,
        arms: vec![
            Arm { pattern: ArmPattern::Wildcard, body: ArmBody::Abort(Form::Assert) },
            Arm { pattern: ArmPattern::Target(target), body: ArmBody::Empty },
        ],
    };
    let expected = normal(
        "match v { _ => panic!(\"expression didn't match target pattern in assert_pattern\"), \
         None => {} }",
    );
    assert_eq!(m.to_tokens().to_string(), expected);
}

#[test]
fn panic_literal_is_the_quoted_message() {
    assert_eq!(
        mismatch_literal(Form::Assert),
        "\"expression didn't match target pattern in assert_pattern\""
    );
    assert_eq!(
        mismatch_literal(Form::Coerce),
        "\"expression didn't match target pattern in coerce_pattern\""
    );
}

#[test]
fn read_error_is_what_syn_reports() {
    let err = match AssertPatternInput::parse(tokens("a b, _")) {
        Ok(_) => panic!("input with a stray token was read"),
        Err(e) => e,
    };
    assert!(err.to_string().contains("expected `,`"));
    let out = assert_pattern(tokens("a b, _")).to_string();
    assert_eq!(out, err.to_compile_error().to_string());
}

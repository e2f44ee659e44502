//! The generated construct: a `match` with one arm for the target pattern and
//! one catch-all arm that panics with a message naming the invocation form.

use vstd::prelude::*;

use crate::grammar::{Expression, Target};
use crate::syntax::{
    expr_trees, group_tree, new_stream, pat_trees, plain_word, punct_tree, push_expr, push_pat, push_tree,
    literal_tree, plain_string_source, trees_of, word_tree, Delim, Tree,
};

verus! {

/// The two invocation forms.
#[derive(PartialEq, Eq, Structural, Clone, Copy, Debug)]
pub enum Form {
    /// `value, pattern`: checks the match, yields nothing.
    Assert,
    /// `value, pattern, result`: checks the match, yields the result.
    Coerce,
}

/// The panic message of the catch-all arm for each form.
pub open spec fn mismatch_text(form: Form) -> Seq<char> {
    match form {
        Form::Assert => "expression didn't match target pattern in assert_pattern"@,
        Form::Coerce => "expression didn't match target pattern in coerce_pattern"@,
    }
}

/// The panic message of the catch-all arm for `form`.
pub fn mismatch_message(form: Form) -> (r: &'static str)
    ensures
        r@ == mismatch_text(form),
{
    match form {
        Form::Assert => "expression didn't match target pattern in assert_pattern",
        Form::Coerce => "expression didn't match target pattern in coerce_pattern",
    }
}

/// The source text of the string literal holding `text`, where `text` needs
/// no escapes.
pub open spec fn quoted(text: Seq<char>) -> Seq<char> {
    seq!['\"'] + text + seq!['\"']
}

/// The string literal, as written in source, that the catch-all arm of
/// `form` passes to `panic!`.
pub fn mismatch_literal(form: Form) -> (r: &'static str)
    ensures
        r@ == quoted(mismatch_text(form)),
        plain_string_source(r@),
{
    let r = match form {
        Form::Assert => "\"expression didn't match target pattern in assert_pattern\"",
        Form::Coerce => "\"expression didn't match target pattern in coerce_pattern\"",
    };
    proof {
        reveal_strlit("\"expression didn't match target pattern in assert_pattern\"");
        reveal_strlit("\"expression didn't match target pattern in coerce_pattern\"");
        reveal_strlit("expression didn't match target pattern in assert_pattern");
        reveal_strlit("expression didn't match target pattern in coerce_pattern");
        assert(r@ =~= quoted(mismatch_text(form)));
    }
    r
}

/// A failure of one form is never reported in the words of the other.
pub proof fn lemma_messages_distinct()
    ensures
        mismatch_text(Form::Assert) != mismatch_text(Form::Coerce),
{
    reveal_strlit("expression didn't match target pattern in assert_pattern");
    reveal_strlit("expression didn't match target pattern in coerce_pattern");
    assert(mismatch_text(Form::Assert)[42] != mismatch_text(Form::Coerce)[42]);
}

/// What an arm matches.
pub enum ArmPattern {
    /// The invocation's target pattern.
    Target(Target),
    /// The catch-all `_`.
    Wildcard,
}

/// What an arm runs.
pub enum ArmBody {
    /// An empty block.
    Empty,
    /// A block holding the result expression, with the pattern's bindings in scope.
    Value(Expression),
    /// A panic with the mismatch message of the form.
    Abort(Form),
}

/// One arm of the generated `match`.
pub struct Arm {
    pub pattern: ArmPattern,
    pub body: ArmBody,
}

/// `match scrutinee { arms }`.
pub struct MatchConstruct {
    pub scrutinee: Expression,
    pub arms: Vec<Arm>,
}

/// The arms generated for an invocation of `form`: the target pattern with
/// `success` as its body, then the catch-all that aborts for `form`.
pub open spec fn arms_for(target: Target, success: ArmBody, form: Form) -> Seq<Arm> {
    seq![
        Arm { pattern: ArmPattern::Target(target), body: success },
        Arm { pattern: ArmPattern::Wildcard, body: ArmBody::Abort(form) },
    ]
}

/// Exactly two arms, the target pattern first and the catch-all last, so
/// that every value is matched by some arm.
pub open spec fn two_armed(arms: Seq<Arm>, target: Target) -> bool {
    &&& arms.len() == 2
    &&& arms[0].pattern == ArmPattern::Target(target)
    &&& arms[1].pattern == ArmPattern::Wildcard
}

/// The `match` that checks `scrutinee` against `target`.
pub fn build_match(scrutinee: Expression, target: Target, success: ArmBody, form: Form) -> (r: MatchConstruct)
    ensures
        r.scrutinee == scrutinee,
        r.arms@ == arms_for(target, success, form),
{
    let arms = vec![
        Arm { pattern: ArmPattern::Target(target), body: success },
        Arm { pattern: ArmPattern::Wildcard, body: ArmBody::Abort(form) },
    ];
    assert(arms@ =~= arms_for(target, success, form));
    MatchConstruct { scrutinee, arms }
}

/// Whatever the pattern and the success branch, the generated arms are
/// exactly the pattern and a catch-all, and the catch-all aborts with the
/// message of the form.
pub proof fn lemma_arms_exhaustive(target: Target, success: ArmBody, form: Form)
    ensures
        two_armed(arms_for(target, success, form), target),
        arms_for(target, success, form)[1].body == ArmBody::Abort(form),
{
}

/// The tokens of what an arm matches.
pub open spec fn pattern_trees(p: ArmPattern) -> Seq<Tree> {
    match p {
        ArmPattern::Target(t) => pat_trees(t.0),
        ArmPattern::Wildcard => seq![Tree::Ident("_"@)],
    }
}

/// The tokens of what an arm runs.
pub open spec fn body_trees(b: ArmBody) -> Seq<Tree> {
    match b {
        ArmBody::Empty => seq![Tree::Group(Delim::Brace, Seq::<Tree>::empty())],
        ArmBody::Value(e) => seq![Tree::Group(Delim::Brace, expr_trees(e.0))],
        ArmBody::Abort(form) => seq![
            Tree::Ident("panic"@),
            Tree::Punct('!', false),
            Tree::Group(Delim::Paren, seq![Tree::Literal(quoted(mismatch_text(form)))]),
        ],
    }
}

/// The tokens of `pattern => body`.
pub open spec fn arm_trees(arm: Arm) -> Seq<Tree> {
    pattern_trees(arm.pattern) + seq![Tree::Punct('=', true), Tree::Punct('>', false)]
        + body_trees(arm.body)
}

/// The comma that must follow the arms before another arm: only where the
/// last of them ends in a panic rather than a block.
pub open spec fn separator(before: Seq<Arm>) -> Seq<Tree> {
    if before.len() > 0 && before.last().body is Abort {
        seq![Tree::Punct(',', false)]
    } else {
        Seq::<Tree>::empty()
    }
}

/// The tokens of the arms, in order.
pub open spec fn arms_trees(arms: Seq<Arm>) -> Seq<Tree>
    decreases arms.len(),
{
    if arms.len() == 0 {
        Seq::<Tree>::empty()
    } else {
        arms_trees(arms.drop_last()) + separator(arms.drop_last()) + arm_trees(arms.last())
    }
}

/// The tokens of `match scrutinee { arms }`.
pub open spec fn match_trees(scrutinee: Expression, arms: Seq<Arm>) -> Seq<Tree> {
    seq![Tree::Ident("match"@)] + expr_trees(scrutinee.0) + seq![Tree::Group(Delim::Brace, arms_trees(arms))]
}

/// Adds `pattern => body` for one arm.
fn emit_arm(tokens: &mut proc_macro2::TokenStream, arm: &Arm)
    ensures
        trees_of(*final(tokens)) == trees_of(*old(tokens)) + arm_trees(*arm),
{
    proof {
        reveal_strlit("_");
        reveal_strlit("panic");
    }
    let ghost before = trees_of(*tokens);
    match &arm.pattern {
        ArmPattern::Target(target) => push_pat(tokens, &target.0),
        ArmPattern::Wildcard => {
            assert(plain_word("_"@));
            push_tree(tokens, word_tree("_"));
            assert(trees_of(*tokens) =~= before + pattern_trees(arm.pattern));
        },
    }
    let ghost mid = trees_of(*tokens);
    push_tree(tokens, punct_tree('=', true));
    push_tree(tokens, punct_tree('>', false));
    assert(trees_of(*tokens) =~= mid + seq![Tree::Punct('=', true), Tree::Punct('>', false)]);
    let ghost mid2 = trees_of(*tokens);
    match &arm.body {
        ArmBody::Empty => push_tree(tokens, group_tree(true, new_stream())),
        ArmBody::Value(result) => {
            let mut block = new_stream();
            push_expr(&mut block, &result.0);
            assert(trees_of(block) =~= expr_trees(result.0));
            push_tree(tokens, group_tree(true, block));
        },
        ArmBody::Abort(form) => {
            assert(plain_word("panic"@));
            push_tree(tokens, word_tree("panic"));
            push_tree(tokens, punct_tree('!', false));
            let mut args = new_stream();
            push_tree(&mut args, literal_tree(mismatch_literal(*form)));
            push_tree(tokens, group_tree(false, args));
        },
    }
    assert(trees_of(*tokens) =~= before + arm_trees(*arm));
}

impl MatchConstruct {
    /// The tokens of `match scrutinee { arms }`.
    pub fn to_tokens(&self) -> (r: proc_macro2::TokenStream)
        ensures
            trees_of(r) == match_trees(self.scrutinee, self.arms@),
    {
        proof {
            reveal_strlit("match");
        }
        let mut tokens = new_stream();
        assert(plain_word("match"@));
        push_tree(&mut tokens, word_tree("match"));
        push_expr(&mut tokens, &self.scrutinee.0);
        let mut arms = new_stream();
        let mut i: usize = 0;
        assert(self.arms@.subrange(0, 0) =~= Seq::<Arm>::empty());
        while i < self.arms.len()
            invariant
                i <= self.arms@.len(),
                trees_of(arms) == arms_trees(self.arms@.subrange(0, i as int)),
            decreases self.arms@.len() - i,
        {
            let ghost done = self.arms@.subrange(0, i as int);
            assert(self.arms@.subrange(0, i + 1).drop_last() =~= done);
            if i > 0 && matches!(self.arms[i - 1].body, ArmBody::Abort(_)) {
                assert(done.last() == self.arms@[i - 1]);
                push_tree(&mut arms, punct_tree(',', false));
            }
            assert(trees_of(arms) =~= arms_trees(done) + separator(done));
            emit_arm(&mut arms, &self.arms[i]);
            i = i + 1;
        }
        assert(self.arms@.subrange(0, i as int) =~= self.arms@);
        push_tree(&mut tokens, group_tree(true, arms));
        assert(trees_of(tokens) =~= match_trees(self.scrutinee, self.arms@));
        tokens
    }
}

/// In tokens, the generated arms are the pattern's arm followed by exactly
/// one catch-all, `_ => panic!(message)`, which carries the message of the
/// form and no guard.
pub proof fn lemma_arm_tokens(target: Target, success: ArmBody, form: Form)
    requires
        !(success is Abort),
    ensures
        arms_trees(arms_for(target, success, form)) == pat_trees(target.0)
            + seq![Tree::Punct('=', true), Tree::Punct('>', false)] + body_trees(success) + seq![
                Tree::Ident("_"@),
                Tree::Punct('=', true),
                Tree::Punct('>', false),
                Tree::Ident("panic"@),
                Tree::Punct('!', false),
                Tree::Group(Delim::Paren, seq![Tree::Literal(quoted(mismatch_text(form)))]),
            ],
{
    let arms = arms_for(target, success, form);
    let first = arms.drop_last();
    assert(first =~= seq![arms[0]]);
    assert(first.drop_last() =~= Seq::<Arm>::empty());
    assert(arms_trees(Seq::<Arm>::empty()) == Seq::<Tree>::empty());
    assert(first.last() == arms[0]);
    assert(separator(Seq::<Arm>::empty()) =~= Seq::<Tree>::empty());
    assert(separator(first) =~= Seq::<Tree>::empty());
    assert(Seq::<Tree>::empty() + Seq::<Tree>::empty() + arm_trees(arms[0]) =~= arm_trees(arms[0]));
    assert(arms_trees(first) == arm_trees(arms[0]));
    assert(first.last().body == success);
    assert(arms.last() == arms[1]);
    assert(arms_trees(arms) == arms_trees(first) + separator(first) + arm_trees(arms[1]));
    assert(arms_trees(arms) =~= arm_trees(arms[0]) + arm_trees(arms[1]));
}

} // verus!

//! The invocation grammar: a fixed sequence of parts separated by commas,
//! read part by part from the front of a token stream.

use vstd::prelude::*;

use crate::syntax::{comma_front, end_check, expr_front, pat_front, read_end, split_comma, split_expr, split_pat};

verus! {

/// One part of an invocation grammar.
#[derive(PartialEq, Eq, Structural, Clone, Copy, Debug)]
pub enum Part {
    /// A value-producing expression.
    Expression,
    /// A pattern, possibly an or-pattern.
    Target,
    /// The `,` that separates two fragments.
    Delimiter,
}

/// An expression of the host language, as its grammar parsed it.
pub struct Expression(pub syn::Expr);

/// A pattern of the host language, possibly an or-pattern.
pub struct Target(pub syn::Pat);

/// A fragment read for a non-delimiter part.
pub enum Fragment {
    Expression(Expression),
    Target(Target),
}

/// The fragments read for `parts` from the front of `s`, one for each part
/// but the delimiters, where every part reads and nothing is left; else the
/// error of the first read that fails.
pub open spec fn read_spec(parts: Seq<Part>, s: proc_macro2::TokenStream) -> Result<Seq<Fragment>, syn::Error>
    decreases parts.len(),
{
    if parts.len() == 0 {
        match end_check(s) {
            Ok(()) => Ok(Seq::<Fragment>::empty()),
            Err(e) => Err(e),
        }
    } else {
        match parts[0] {
            Part::Delimiter => match comma_front(s) {
                Ok(rest) => read_spec(parts.drop_first(), rest),
                Err(e) => Err(e),
            },
            Part::Expression => match expr_front(s) {
                Ok((e, rest)) => glue(seq![Fragment::Expression(Expression(e))], read_spec(parts.drop_first(), rest)),
                Err(e) => Err(e),
            },
            Part::Target => match pat_front(s) {
                Ok((p, rest)) => glue(seq![Fragment::Target(Target(p))], read_spec(parts.drop_first(), rest)),
                Err(e) => Err(e),
            },
        }
    }
}

/// `before` followed by what was read after it, where that read.
pub open spec fn glue(before: Seq<Fragment>, after: Result<Seq<Fragment>, syn::Error>) -> Result<Seq<Fragment>, syn::Error> {
    match after {
        Ok(fs) => Ok(before + fs),
        Err(e) => Err(e),
    }
}

proof fn lemma_glue_push(before: Seq<Fragment>, f: Fragment, after: Result<Seq<Fragment>, syn::Error>)
    ensures
        glue(before, glue(seq![f], after)) == glue(before.push(f), after),
{
    if let Ok(fs) = after {
        assert(before + (seq![f] + fs) =~= before.push(f) + fs);
    }
}

/// Reads the parts in order from the front of `tokens`, and then the end;
/// stops at the first that does not read.
pub fn read_parts(tokens: proc_macro2::TokenStream, parts: &Vec<Part>) -> (r: Result<Vec<Fragment>, syn::Error>)
    ensures
        r matches Ok(frags) ==> read_spec(parts@, tokens) == Ok::<Seq<Fragment>, syn::Error>(frags@),
        r matches Err(e) ==> read_spec(parts@, tokens) == Err::<Seq<Fragment>, syn::Error>(e),
{
    let mut cur = tokens;
    let mut frags: Vec<Fragment> = Vec::new();
    let mut i: usize = 0;
    assert(parts@.skip(0) =~= parts@);
    assert(frags@ + Seq::<Fragment>::empty() =~= frags@);
    while i < parts.len()
        invariant
            i <= parts@.len(),
            read_spec(parts@, tokens) == glue(frags@, read_spec(parts@.skip(i as int), cur)),
        decreases parts@.len() - i,
    {
        let ghost tail = parts@.skip(i as int);
        let ghost here = cur;
        assert(tail[0] == parts@[i as int]);
        assert(tail.drop_first() =~= parts@.skip(i + 1));
        match parts[i] {
            Part::Delimiter => {
                match split_comma(cur) {
                    Ok(rest) => { cur = rest; },
                    Err(e) => {
                        assert(read_spec(tail, here) == Err::<Seq<Fragment>, syn::Error>(e));
                        return Err(e);
                    },
                }
            },
            Part::Expression => {
                match split_expr(cur) {
                    Ok((e, rest)) => {
                        proof {
                            lemma_glue_push(frags@, Fragment::Expression(Expression(e)), read_spec(parts@.skip(i + 1), rest));
                        }
                        frags.push(Fragment::Expression(Expression(e)));
                        cur = rest;
                    },
                    Err(e) => {
                        assert(read_spec(tail, here) == Err::<Seq<Fragment>, syn::Error>(e));
                        return Err(e);
                    },
                }
            },
            Part::Target => {
                match split_pat(cur) {
                    Ok((p, rest)) => {
                        proof {
                            lemma_glue_push(frags@, Fragment::Target(Target(p)), read_spec(parts@.skip(i + 1), rest));
                        }
                        frags.push(Fragment::Target(Target(p)));
                        cur = rest;
                    },
                    Err(e) => {
                        assert(read_spec(tail, here) == Err::<Seq<Fragment>, syn::Error>(e));
                        return Err(e);
                    },
                }
            },
        }
        i = i + 1;
    }
    assert(parts@.skip(i as int).len() == 0);
    match read_end(cur) {
        Ok(()) => {
            assert(frags@ + Seq::<Fragment>::empty() =~= frags@);
            Ok(frags)
        },
        Err(e) => Err(e),
    }
}

} // verus!

verus! {

/// The two-part grammar: `expression , pattern`.
pub open spec fn assert_grammar() -> Seq<Part> {
    seq![Part::Expression, Part::Delimiter, Part::Target]
}

/// The three-part grammar: `expression , pattern , expression`.
pub open spec fn coerce_grammar() -> Seq<Part> {
    seq![Part::Expression, Part::Delimiter, Part::Target, Part::Delimiter, Part::Expression]
}

/// The parts of the two-part grammar, in order.
pub fn assert_parts() -> (r: Vec<Part>)
    ensures
        r@ == assert_grammar(),
{
    let r = vec![Part::Expression, Part::Delimiter, Part::Target];
    assert(r@ =~= assert_grammar());
    r
}

/// The parts of the three-part grammar, in order.
pub fn coerce_parts() -> (r: Vec<Part>)
    ensures
        r@ == coerce_grammar(),
{
    let r = vec![Part::Expression, Part::Delimiter, Part::Target, Part::Delimiter, Part::Expression];
    assert(r@ =~= coerce_grammar());
    r
}

/// What the two-part grammar reads is an expression, then a pattern.
pub proof fn lemma_assert_read(s: proc_macro2::TokenStream)
    ensures
        read_spec(assert_grammar(), s) matches Ok(fs) ==> (fs.len() == 2
            && fs[0] is Expression && fs[1] is Target),
{
    let g = assert_grammar();
    assert(g.drop_first() =~= seq![Part::Delimiter, Part::Target]);
    assert(g.drop_first().drop_first() =~= seq![Part::Target]);
    assert(seq![Part::Target].drop_first() =~= Seq::<Part>::empty());
    reveal_with_fuel(read_spec, 4);
}

/// What the three-part grammar reads is an expression, a pattern, then an
/// expression.
pub proof fn lemma_coerce_read(s: proc_macro2::TokenStream)
    ensures
        read_spec(coerce_grammar(), s) matches Ok(fs) ==> (fs.len() == 3
            && fs[0] is Expression && fs[1] is Target && fs[2] is Expression),
{
    let g = coerce_grammar();
    assert(g.drop_first() =~= seq![Part::Delimiter, Part::Target, Part::Delimiter, Part::Expression]);
    assert(g.drop_first().drop_first() =~= seq![Part::Target, Part::Delimiter, Part::Expression]);
    assert(g.drop_first().drop_first().drop_first() =~= seq![Part::Delimiter, Part::Expression]);
    assert(seq![Part::Delimiter, Part::Expression].drop_first() =~= seq![Part::Expression]);
    assert(seq![Part::Expression].drop_first() =~= Seq::<Part>::empty());
    reveal_with_fuel(read_spec, 6);
}

} // verus!

//! The host-language collaborators: syn's expression and pattern readers and
//! proc_macro2's token streams, with names for what they read and hold.

use vstd::prelude::*;

verus! {

#[verifier::external_type_specification]
#[verifier::external_body]
pub struct ExTokenStream(proc_macro2::TokenStream);

#[verifier::external_type_specification]
#[verifier::external_body]
pub struct ExTokenTree(proc_macro2::TokenTree);

#[verifier::external_type_specification]
#[verifier::external_body]
pub struct ExExpr(syn::Expr);

#[verifier::external_type_specification]
#[verifier::external_body]
pub struct ExPat(syn::Pat);

#[verifier::external_type_specification]
#[verifier::external_body]
pub struct ExError(syn::Error);

/// The delimiter of a token group.
pub enum Delim {
    Paren,
    Brace,
    Bracket,
    Invisible,
}

/// A token tree, without its span.
pub enum Tree {
    Ident(Seq<char>),
    /// The character, and whether it is joined to the next punctuation.
    Punct(char, bool),
    /// The literal as it is written in source.
    Literal(Seq<char>),
    Group(Delim, Seq<Tree>),
}

/// The token trees a stream holds, in order.
pub uninterp spec fn trees_of(s: proc_macro2::TokenStream) -> Seq<Tree>;

/// What one token tree is.
pub uninterp spec fn tree_view(t: proc_macro2::TokenTree) -> Tree;

/// The tokens syn prints for an expression.
pub uninterp spec fn expr_trees(e: syn::Expr) -> Seq<Tree>;

/// The tokens syn prints for a pattern.
pub uninterp spec fn pat_trees(p: syn::Pat) -> Seq<Tree>;

/// The tokens that make the compiler report a syn error.
pub uninterp spec fn error_trees(e: syn::Error) -> Seq<Tree>;

/// The expression syn reads from the front of a stream and the tokens it
/// leaves, or the error it reports.
pub uninterp spec fn expr_front(s: proc_macro2::TokenStream) -> Result<(syn::Expr, proc_macro2::TokenStream), syn::Error>;

/// The pattern, possibly an or-pattern, syn reads from the front of a stream
/// and the tokens it leaves, or the error it reports.
pub uninterp spec fn pat_front(s: proc_macro2::TokenStream) -> Result<(syn::Pat, proc_macro2::TokenStream), syn::Error>;

/// The tokens left after syn reads a `,` from the front of a stream, or the
/// error it reports.
pub uninterp spec fn comma_front(s: proc_macro2::TokenStream) -> Result<proc_macro2::TokenStream, syn::Error>;

/// What syn reports of the tokens left in a stream where it expects none:
/// nothing, or the error at the first of them.
pub uninterp spec fn end_check(s: proc_macro2::TokenStream) -> Result<(), syn::Error>;

/// Relies on syn's `Expr` parser, then on its `TokenStream` parser, which
/// takes all that is left: the expression at the front and the rest.
#[verifier::external_body]
pub(crate) fn split_expr(tokens: proc_macro2::TokenStream) -> (r: Result<(syn::Expr, proc_macro2::TokenStream), syn::Error>)
    ensures
        r == expr_front(tokens),
{
    let read = |input: syn::parse::ParseStream| Ok((input.parse::<syn::Expr>()?, input.parse()?));
    syn::parse::Parser::parse2(read, tokens)
}

/// Relies on `syn::Pat::parse_multi`, then on syn's `TokenStream` parser,
/// which takes all that is left: the pattern at the front and the rest.
#[verifier::external_body]
pub(crate) fn split_pat(tokens: proc_macro2::TokenStream) -> (r: Result<(syn::Pat, proc_macro2::TokenStream), syn::Error>)
    ensures
        r == pat_front(tokens),
{
    let read = |input: syn::parse::ParseStream| Ok((syn::Pat::parse_multi(input)?, input.parse()?));
    syn::parse::Parser::parse2(read, tokens)
}

/// Relies on syn's parser of the `,` token, then on its `TokenStream`
/// parser: the tokens after the comma.
#[verifier::external_body]
pub(crate) fn split_comma(tokens: proc_macro2::TokenStream) -> (r: Result<proc_macro2::TokenStream, syn::Error>)
    ensures
        r == comma_front(tokens),
{
    let read = |input: syn::parse::ParseStream| { input.parse::<syn::token::Comma>()?; input.parse() };
    syn::parse::Parser::parse2(read, tokens)
}

/// Relies on `syn::parse2` of `syn::parse::Nothing`, which reads nothing and
/// so fails exactly where tokens are left, with an error at the first.
#[verifier::external_body]
pub(crate) fn read_end(tokens: proc_macro2::TokenStream) -> (r: Result<(), syn::Error>)
    ensures
        r == end_check(tokens),
{
    syn::parse2::<syn::parse::Nothing>(tokens).map(|_| ())
}

/// A word that `proc_macro2::Ident::new` takes: lower-case ASCII letters and
/// underscores, at least one.
pub open spec fn plain_word(w: Seq<char>) -> bool {
    &&& w.len() > 0
    &&& forall|i: int| 0 <= i < w.len() ==> ('a' <= #[trigger] w[i] <= 'z' || w[i] == '_')
}

/// A character that `proc_macro2::Punct::new` takes.
pub open spec fn punct_char(c: char) -> bool {
    c == '!' || c == '#' || c == '$' || c == '%' || c == '&' || c == '\'' || c == '*' || c == '+'
        || c == ',' || c == '-' || c == '.' || c == '/' || c == ':' || c == ';' || c == '<'
        || c == '=' || c == '>' || c == '?' || c == '@' || c == '^' || c == '|' || c == '~'
}

/// A tree that `TokenStream`'s `extend` keeps as it is: not a literal written
/// with a leading `-`, which it splits in two.
pub open spec fn kept_whole(t: Tree) -> bool {
    !(t matches Tree::Literal(text) && text.len() > 0 && text[0] == '-')
}

/// Relies on `proc_macro2::TokenStream::new`: an empty stream.
#[verifier::external_body]
pub(crate) fn new_stream() -> (r: proc_macro2::TokenStream)
    ensures
        trees_of(r) == Seq::<Tree>::empty(),
{
    proc_macro2::TokenStream::new()
}

/// Relies on `proc_macro2::Ident::new`, which panics on a word that is not an
/// identifier: the identifier, at call-site span.
#[verifier::external_body]
pub(crate) fn word_tree(word: &str) -> (r: proc_macro2::TokenTree)
    requires
        plain_word(word@),
    ensures
        tree_view(r) == Tree::Ident(word@),
{
    proc_macro2::TokenTree::Ident(proc_macro2::Ident::new(word, proc_macro2::Span::call_site()))
}

/// Relies on `proc_macro2::Punct::new`, which panics on a character that is
/// not punctuation: the punctuation, joined to the next one where `joint`
/// holds.
#[verifier::external_body]
pub(crate) fn punct_tree(ch: char, joint: bool) -> (r: proc_macro2::TokenTree)
    requires
        punct_char(ch),
    ensures
        tree_view(r) == Tree::Punct(ch, joint),
{
    let spacing = if joint { proc_macro2::Spacing::Joint } else { proc_macro2::Spacing::Alone };
    proc_macro2::TokenTree::Punct(proc_macro2::Punct::new(ch, spacing))
}

/// The source text of a string literal that holds no quote, backslash or
/// carriage return, so that it lexes as written.
pub open spec fn plain_string_source(src: Seq<char>) -> bool {
    &&& src.len() >= 2
    &&& src[0] == '\"'
    &&& src[src.len() - 1] == '\"'
    &&& forall|i: int| 1 <= i < src.len() - 1 ==> #[trigger] src[i] != '\"' && src[i] != '\\' && src[i] != '\r'
}

/// Relies on proc_macro2's `FromStr` for `Literal`, which lexes exactly one
/// literal and keeps its source text (fallback.rs `from_str_checked`, or the
/// compiler's own literal parser inside a macro): the literal written `src`.
#[verifier::external_body]
pub(crate) fn literal_tree(src: &str) -> (r: proc_macro2::TokenTree)
    requires
        plain_string_source(src@),
    ensures
        tree_view(r) == Tree::Literal(src@),
{
    proc_macro2::TokenTree::Literal(src.parse::<proc_macro2::Literal>().unwrap())
}

/// Relies on `proc_macro2::Group::new`: `inner` delimited by braces, or by
/// parentheses where `brace` does not hold.
#[verifier::external_body]
pub(crate) fn group_tree(brace: bool, inner: proc_macro2::TokenStream) -> (r: proc_macro2::TokenTree)
    ensures
        tree_view(r) == Tree::Group(if brace { Delim::Brace } else { Delim::Paren }, trees_of(inner)),
{
    let delimiter = if brace { proc_macro2::Delimiter::Brace } else { proc_macro2::Delimiter::Parenthesis };
    proc_macro2::TokenTree::Group(proc_macro2::Group::new(delimiter, inner))
}

/// Relies on `TokenStream`'s `Extend<TokenTree>`: adds `tree` at the end.
#[verifier::external_body]
pub(crate) fn push_tree(tokens: &mut proc_macro2::TokenStream, tree: proc_macro2::TokenTree)
    requires
        kept_whole(tree_view(tree)),
    ensures
        trees_of(*final(tokens)) == trees_of(*old(tokens)).push(tree_view(tree)),
{
    tokens.extend(std::iter::once(tree))
}

/// Relies on syn's `ToTokens` for `Expr`: adds the expression's tokens.
#[verifier::external_body]
pub(crate) fn push_expr(tokens: &mut proc_macro2::TokenStream, expr: &syn::Expr)
    ensures
        trees_of(*final(tokens)) == trees_of(*old(tokens)) + expr_trees(*expr),
{
    quote::ToTokens::to_tokens(expr, tokens)
}

/// Relies on syn's `ToTokens` for `Pat`: adds the pattern's tokens.
#[verifier::external_body]
pub(crate) fn push_pat(tokens: &mut proc_macro2::TokenStream, pat: &syn::Pat)
    ensures
        trees_of(*final(tokens)) == trees_of(*old(tokens)) + pat_trees(*pat),
{
    quote::ToTokens::to_tokens(pat, tokens)
}

/// Relies on `syn::Error::to_compile_error`: tokens that make the compiler
/// report the error at its span.
#[verifier::external_body]
pub(crate) fn error_tokens(error: &syn::Error) -> (r: proc_macro2::TokenStream)
    ensures
        trees_of(r) == error_trees(*error),
{
    error.to_compile_error()
}

} // verus!

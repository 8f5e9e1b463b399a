//! The text of a token stream, and the tokens of a text.
//!
//! Printing and lexing are proc_macro2's. The functions of this module hand
//! it the tokens of the library and take text back, or the other way round.
//! What proc_macro2 prints and reads is not proved here: `rendered` and
//! `lexed` name it, and the rest of the library speaks of those names.

use crate::token::{lemma_group_view, GroupDelimiter, PunctSpacing, Token, TokenSpec};
use syn::ext::IdentExt;
use syn::parse::Parser;
use vstd::prelude::*;

verus! {

/// `proc_macro2::TokenTree`, of which nothing is known here.
#[verifier::external_type_specification]
#[verifier::external_body]
pub struct ExOutsideTokenTree(proc_macro2::TokenTree);

/// `proc_macro2::Delimiter`, of which nothing is known here.
#[verifier::external_type_specification]
#[verifier::external_body]
pub struct ExOutsideDelimiter(proc_macro2::Delimiter);

/// `proc_macro2::Spacing`, of which nothing is known here.
#[verifier::external_type_specification]
#[verifier::external_body]
pub struct ExOutsideSpacing(proc_macro2::Spacing);

/// The characters that can stand in a punctuation token: those that
/// `proc_macro2::Punct::new` takes.
pub open spec fn is_punct_char(ch: char) -> bool {
    ||| ch == '!'
    ||| ch == '#'
    ||| ch == '$'
    ||| ch == '%'
    ||| ch == '&'
    ||| ch == '\''
    ||| ch == '*'
    ||| ch == '+'
    ||| ch == ','
    ||| ch == '-'
    ||| ch == '.'
    ||| ch == '/'
    ||| ch == ':'
    ||| ch == ';'
    ||| ch == '<'
    ||| ch == '='
    ||| ch == '>'
    ||| ch == '?'
    ||| ch == '@'
    ||| ch == '^'
    ||| ch == '|'
    ||| ch == '~'
}

/// Every punctuation token of the stream, at any depth, holds a punctuation
/// character.
pub open spec fn puncts_known(stream: Seq<TokenSpec>) -> bool
    decreases stream,
{
    forall|i: int| 0 <= i < stream.len() ==> token_puncts_known(#[trigger] stream[i])
}

/// Every punctuation token in the token holds a punctuation character.
pub open spec fn token_puncts_known(token: TokenSpec) -> bool
    decreases token,
{
    match token {
        TokenSpec::Group(_, stream) => puncts_known(stream),
        TokenSpec::Punct(ch, _) => is_punct_char(ch),
        _ => true,
    }
}

/// The text that proc_macro2 prints for a stream whose punctuation tokens
/// hold punctuation characters. `None` where the text of an identifier of
/// the stream is no identifier to syn, or the text of a literal no literal
/// to proc_macro2.
pub uninterp spec fn rendered(stream: Seq<TokenSpec>) -> Option<Seq<char>>;

/// The tokens that proc_macro2 reads in the text, `None` where it reads none.
pub uninterp spec fn lexed(text: Seq<char>) -> Option<Seq<TokenSpec>>;

/// The text of the stream: what proc_macro2 prints for it, where
/// proc_macro2 can hold its tokens.
pub open spec fn text_of(stream: Seq<TokenSpec>) -> Option<Seq<char>> {
    if puncts_known(stream) {
        rendered(stream)
    } else {
        None
    }
}

/// The value of a text that may be missing.
pub open spec fn text_view(text: Option<String>) -> Option<Seq<char>> {
    match text {
        Some(text) => Some(text@),
        None => None,
    }
}

/// The value of a stream that may be missing.
pub open spec fn stream_deep_view(stream: Option<Vec<Token>>) -> Option<Seq<TokenSpec>> {
    match stream {
        Some(stream) => Some(stream.deep_view()),
        None => None,
    }
}

/// The variant of `proc_macro2::Delimiter` for a delimiter of the library.
#[verifier::external_body]
fn outside_delimiter(delimiter: GroupDelimiter) -> proc_macro2::Delimiter {
    match delimiter {
        GroupDelimiter::Parenthesis => proc_macro2::Delimiter::Parenthesis,
        GroupDelimiter::Brace => proc_macro2::Delimiter::Brace,
        GroupDelimiter::Bracket => proc_macro2::Delimiter::Bracket,
        GroupDelimiter::Invisible => proc_macro2::Delimiter::None,
    }
}

/// The variant of `proc_macro2::Spacing` for a spacing of the library.
#[verifier::external_body]
fn outside_spacing(spacing: PunctSpacing) -> proc_macro2::Spacing {
    match spacing {
        PunctSpacing::Alone => proc_macro2::Spacing::Alone,
        PunctSpacing::Joint => proc_macro2::Spacing::Joint,
    }
}

/// Builds the token of proc_macro2 for a token of the library:
/// `proc_macro2::Group::new` around the tokens built for the inside of a
/// group, `proc_macro2::Punct::new`, which panics on a character that is no
/// punctuation character, syn's `Ident::parse_any` on the text of an
/// identifier, and proc_macro2's `Literal::from_str` on the text of a
/// literal. The last two give an error for a text that is no such token,
/// and the result is then `None`. Nothing is claimed of the token built.
#[verifier::external_body]
fn outside_tree(tree: &Token) -> Option<proc_macro2::TokenTree>
    requires
        token_puncts_known(tree@),
{
    Some(match tree {
        Token::Group(delimiter, stream) => proc_macro2::TokenTree::Group(proc_macro2::Group::new(
            outside_delimiter(*delimiter),
            stream.iter().map(outside_tree).collect::<Option<proc_macro2::TokenStream>>()?,
        )),
        Token::Ident(text) => proc_macro2::TokenTree::Ident(
            syn::Ident::parse_any.parse_str(text).ok()?,
        ),
        Token::Punct(ch, spacing) => proc_macro2::TokenTree::Punct(
            proc_macro2::Punct::new(*ch, outside_spacing(*spacing)),
        ),
        Token::Literal(text) => proc_macro2::TokenTree::Literal(
            <proc_macro2::Literal as std::str::FromStr>::from_str(text).ok()?,
        ),
    })
}

/// Prints the stream with proc_macro2's `Display` for `TokenStream`, after
/// building the tokens of proc_macro2 for it. The contract claims that the
/// outcome depends on the tokens alone. That holds because proc_macro2 is
/// built without its feature `proc-macro`: with it, the compiler's printer
/// would run within a macro expansion, and proc_macro2's own elsewhere.
#[verifier::external_body]
fn render(stream: &Vec<Token>) -> (text: Option<String>)
    requires
        puncts_known(stream.deep_view()),
    ensures
        text_view(text) == rendered(stream.deep_view()),
{
    let outside = stream.iter().map(outside_tree).collect::<Option<proc_macro2::TokenStream>>()?;
    Some(outside.to_string())
}

/// The delimiter of the library for a variant of `proc_macro2::Delimiter`.
#[verifier::external_body]
fn library_delimiter(delimiter: proc_macro2::Delimiter) -> GroupDelimiter {
    match delimiter {
        proc_macro2::Delimiter::Parenthesis => GroupDelimiter::Parenthesis,
        proc_macro2::Delimiter::Brace => GroupDelimiter::Brace,
        proc_macro2::Delimiter::Bracket => GroupDelimiter::Bracket,
        proc_macro2::Delimiter::None => GroupDelimiter::Invisible,
    }
}

/// The spacing of the library for a variant of `proc_macro2::Spacing`.
#[verifier::external_body]
fn library_spacing(spacing: proc_macro2::Spacing) -> PunctSpacing {
    match spacing {
        proc_macro2::Spacing::Alone => PunctSpacing::Alone,
        proc_macro2::Spacing::Joint => PunctSpacing::Joint,
    }
}

/// The token of the library for a token of proc_macro2: the delimiter and the
/// inside of a group, the character and the spacing of a punctuation token,
/// and the text that proc_macro2 prints for an identifier or a literal.
#[verifier::external_body]
fn library_tree(tree: proc_macro2::TokenTree) -> Token {
    match tree {
        proc_macro2::TokenTree::Group(group) => Token::Group(
            library_delimiter(group.delimiter()),
            group.stream().into_iter().map(library_tree).collect(),
        ),
        proc_macro2::TokenTree::Ident(ident) => Token::Ident(ident.to_string()),
        proc_macro2::TokenTree::Punct(punct) => Token::Punct(
            punct.as_char(),
            library_spacing(punct.spacing()),
        ),
        proc_macro2::TokenTree::Literal(literal) => Token::Literal(literal.to_string()),
    }
}

/// Reads the text with proc_macro2's `FromStr` for `TokenStream`, which
/// gives an error for a text with an unbalanced bracket or with characters
/// that make no token, and hands out the tokens read as tokens of the
/// library. The contract claims that the outcome depends on the text alone.
#[verifier::external_body]
fn lex(text: &str) -> (stream: Option<Vec<Token>>)
    ensures
        stream_deep_view(stream) == lexed(text@),
{
    let outside = <proc_macro2::TokenStream as std::str::FromStr>::from_str(text).ok()?;
    Some(outside.into_iter().map(library_tree).collect())
}

/// Whether `ch` can stand in a punctuation token.
pub fn punct_char_known(ch: char) -> (known: bool)
    ensures
        known == is_punct_char(ch),
{
    ch == '!' || ch == '#' || ch == '$' || ch == '%' || ch == '&' || ch == '\'' || ch == '*'
        || ch == '+' || ch == ',' || ch == '-' || ch == '.' || ch == '/' || ch == ':' || ch == ';'
        || ch == '<' || ch == '=' || ch == '>' || ch == '?' || ch == '@' || ch == '^' || ch == '|'
        || ch == '~'
}

/// Whether every punctuation token of the stream holds a punctuation character.
pub fn has_known_puncts(stream: &Vec<Token>) -> (known: bool)
    ensures
        known == puncts_known(stream.deep_view()),
    decreases stream,
{
    let mut i: usize = 0;
    while i < stream.len()
        invariant
            i <= stream.len(),
            forall|j: int| 0 <= j < i ==> token_puncts_known(#[trigger] stream.deep_view()[j]),
        decreases stream.len() - i,
    {
        let known = match &stream[i] {
            Token::Group(delimiter, inner) => {
                proof {
                    lemma_group_view(*delimiter, *inner);
                }
                has_known_puncts(inner)
            },
            Token::Punct(ch, _) => punct_char_known(*ch),
            _ => true,
        };
        if !known {
            assert(!token_puncts_known(stream.deep_view()[i as int]));
            return false;
        }
        i += 1;
    }
    true
}

/// The text of the stream, as proc_macro2 prints it: the tokens with a
/// space between them, but none after a punctuation token that is joined to
/// the next. `None` for a stream that proc_macro2 cannot hold.
pub fn stream_text(stream: &Vec<Token>) -> (text: Option<String>)
    ensures
        text_view(text) == text_of(stream.deep_view()),
{
    if has_known_puncts(stream) {
        render(stream)
    } else {
        None
    }
}

/// The tokens of the text, as proc_macro2 reads them. `None` for a text
/// that holds no tokens.
pub fn tokens_of_text(text: &str) -> (stream: Option<Vec<Token>>)
    ensures
        stream_deep_view(stream) == lexed(text@),
{
    lex(text)
}

/// Whether `text` begins with `prefix`.
pub fn text_starts_with(text: &str, prefix: &str) -> (starts: bool)
    ensures
        starts == prefix@.is_prefix_of(text@),
{
    let n = prefix.unicode_len();
    if text.unicode_len() < n {
        return false;
    }
    let mut i: usize = 0;
    while i < n
        invariant
            i <= n,
            n == prefix@.len(),
            n <= text@.len(),
            forall|j: int| 0 <= j < i ==> text@[j] == prefix@[j],
        decreases n - i,
    {
        if text.get_char(i) != prefix.get_char(i) {
            assert(text@.subrange(0, n as int)[i as int] != prefix@[i as int]);
            return false;
        }
        i += 1;
    }
    assert(prefix@ =~= text@.subrange(0, n as int));
    true
}

/// Whether `a` and `b` hold the same text.
pub fn text_equal(a: &str, b: &str) -> (equal: bool)
    ensures
        equal == (a@ == b@),
{
    if a.unicode_len() != b.unicode_len() {
        return false;
    }
    let equal = text_starts_with(a, b);
    proof {
        if equal {
            assert(a@ =~= b@);
        }
    }
    equal
}

} // verus!

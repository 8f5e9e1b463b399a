//! The token model: a tree of groups, identifiers, punctuation and literals.

use vstd::prelude::*;

verus! {

/// The bracket kind of a group.
#[derive(Clone, Copy, Debug, PartialEq, Eq, Structural)]
pub enum GroupDelimiter {
    /// `( ... )`
    Parenthesis,
    /// `{ ... }`
    Brace,
    /// `[ ... ]`
    Bracket,
    /// A group without visible brackets.
    Invisible,
}

/// Whether a punctuation character is joined to the token after it, as `=`
/// is in `=>`.
#[derive(Clone, Copy, Debug, PartialEq, Eq, Structural)]
pub enum PunctSpacing {
    Alone,
    Joint,
}

/// One token, as executable code holds it. The view of a token is its
/// `TokenSpec`, and the deep view of a `Vec<Token>` a `Seq<TokenSpec>`.
#[derive(Debug, PartialEq, Eq)]
pub enum Token {
    /// The tokens between two brackets.
    Group(GroupDelimiter, Vec<Token>),
    /// An identifier, by its text. A raw identifier begins with `r#`.
    Ident(String),
    /// One punctuation character.
    Punct(char, PunctSpacing),
    /// A literal, by its text. The text of a string holds its quotes.
    Literal(String),
}

/// The mathematical value of a token.
pub enum TokenSpec {
    Group(GroupDelimiter, Seq<TokenSpec>),
    Ident(Seq<char>),
    Punct(char, PunctSpacing),
    Literal(Seq<char>),
}

impl View for Token {
    type V = TokenSpec;

    open spec fn view(&self) -> TokenSpec
        decreases self,
    {
        match self {
            Token::Group(delimiter, stream) => TokenSpec::Group(
                *delimiter,
                Seq::new(
                    stream@.len(),
                    |i: int|
                        if 0 <= i < stream@.len() {
                            stream@[i].view()
                        } else {
                            arbitrary()
                        },
                ),
            ),
            Token::Ident(text) => TokenSpec::Ident(text@),
            Token::Punct(ch, spacing) => TokenSpec::Punct(*ch, *spacing),
            Token::Literal(text) => TokenSpec::Literal(text@),
        }
    }
}

impl DeepView for Token {
    type V = TokenSpec;

    open spec fn deep_view(&self) -> TokenSpec {
        self.view()
    }
}

/// The value of a group holds the values of the tokens in it.
pub proof fn lemma_group_view(delimiter: GroupDelimiter, stream: Vec<Token>)
    ensures
        Token::Group(delimiter, stream)@ == TokenSpec::Group(delimiter, stream.deep_view()),
{
    reveal_with_fuel(<Token as View>::view, 2);
    let inside = Token::Group(delimiter, stream)@->Group_1;
    assert(inside =~= stream.deep_view());
}

impl Clone for Token {
    fn clone(&self) -> (copy: Self)
        ensures
            copy@ == self@,
        decreases self,
    {
        match self {
            Token::Group(delimiter, stream) => {
                let inside = copy_stream(stream);
                proof {
                    lemma_group_view(*delimiter, *stream);
                    lemma_group_view(*delimiter, inside);
                }
                Token::Group(*delimiter, inside)
            },
            Token::Ident(text) => Token::Ident(text.clone()),
            Token::Punct(ch, spacing) => Token::Punct(*ch, *spacing),
            Token::Literal(text) => Token::Literal(text.clone()),
        }
    }
}

/// A copy of the tokens, at every depth.
pub fn copy_stream(stream: &Vec<Token>) -> (copy: Vec<Token>)
    ensures
        copy.deep_view() == stream.deep_view(),
    decreases stream,
{
    let mut copy: Vec<Token> = Vec::new();
    let mut i: usize = 0;
    while i < stream.len()
        invariant
            i <= stream.len(),
            copy.len() == i,
            forall|j: int| 0 <= j < i ==> copy@[j]@ == stream@[j]@,
        decreases stream.len() - i,
    {
        copy.push(stream[i].clone());
        i += 1;
    }
    assert(copy.deep_view() =~= stream.deep_view());
    copy
}

/// Appends a copy of `more` to `tokens`.
pub fn extend_with_copy(tokens: &mut Vec<Token>, more: &Vec<Token>)
    ensures
        final(tokens).deep_view() == old(tokens).deep_view() + more.deep_view(),
{
    let ghost before = tokens.deep_view();
    let mut i: usize = 0;
    while i < more.len()
        invariant
            i <= more.len(),
            tokens.deep_view() == before + more.deep_view().take(i as int),
        decreases more.len() - i,
    {
        let ghost so_far = tokens.deep_view();
        tokens.push(more[i].clone());
        assert(tokens.deep_view() =~= so_far.push(more.deep_view()[i as int]));
        assert(more.deep_view().take(i + 1) =~= more.deep_view().take(i as int).push(
            more.deep_view()[i as int],
        ));
        i += 1;
    }
    assert(more.deep_view().take(more.len() as int) =~= more.deep_view());
}

/// Appends to `tokens` the group that holds `content` in brackets of kind `delimiter`.
pub fn push_group(tokens: &mut Vec<Token>, delimiter: GroupDelimiter, content: Vec<Token>)
    ensures
        final(tokens).deep_view() == old(tokens).deep_view().push(
            TokenSpec::Group(delimiter, content.deep_view()),
        ),
{
    let ghost before = tokens.deep_view();
    proof {
        lemma_group_view(delimiter, content);
    }
    tokens.push(Token::Group(delimiter, content));
    assert(tokens.deep_view() =~= before.push(TokenSpec::Group(delimiter, content.deep_view())));
}

/// Appends a punctuation token to `tokens`.
pub fn push_punct(tokens: &mut Vec<Token>, ch: char, spacing: PunctSpacing)
    ensures
        final(tokens).deep_view() == old(tokens).deep_view().push(TokenSpec::Punct(ch, spacing)),
{
    let ghost before = tokens.deep_view();
    tokens.push(Token::Punct(ch, spacing));
    assert(tokens.deep_view() =~= before.push(TokenSpec::Punct(ch, spacing)));
}

/// Appends an identifier to `tokens`.
pub fn push_ident(tokens: &mut Vec<Token>, text: &str)
    ensures
        final(tokens).deep_view() == old(tokens).deep_view().push(TokenSpec::Ident(text@)),
{
    let ghost before = tokens.deep_view();
    tokens.push(Token::Ident(text.to_owned()));
    assert(tokens.deep_view() =~= before.push(TokenSpec::Ident(text@)));
}

} // verus!

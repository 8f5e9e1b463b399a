//! The grammar of a macro definition, as a function from tokens to the
//! definition they spell or to the place where they stop spelling one.

use crate::macro_rules::{AttributeSpec, MacroDelimiter, MacroRulesSpec, PathSpec, RuleSpec};
use crate::token::{GroupDelimiter, PunctSpacing, TokenSpec};
use vstd::prelude::*;

verus! {

/// What the parser missed where it stopped.
#[derive(Clone, Copy, Debug, PartialEq, Eq, Structural)]
pub enum ParseErrorKind {
    /// `#` without `[...]` after it.
    ExpectedSquareBrackets,
    /// No path where one has to begin.
    ExpectedPath,
    /// No identifier after `::` in a path.
    ExpectedPathSegment,
    /// No `!` after the path.
    ExpectedBang,
    /// No name after the `!`.
    ExpectedIdentifier,
    /// No group in visible brackets where the rules, a pattern or a body
    /// have to stand.
    ExpectedDelimitedGroup,
    /// No `=>` after a pattern.
    ExpectedFatArrow,
    /// No `;` between two rules.
    ExpectedSemicolon,
    /// A token after the end of the definition.
    UnexpectedToken,
}

/// Where the parser stopped, and on what.
///
/// `index` counts the tokens of the stream before the place. Where the place
/// lies within the group at `index`, `inside` counts the tokens of that
/// group before it. `at_end` tells that no token stands at the place: the
/// stream, or the group, ends too early.
#[derive(Clone, Copy, Debug, PartialEq, Eq)]
pub struct ParseError {
    pub kind: ParseErrorKind,
    pub index: usize,
    pub inside: Option<usize>,
    pub at_end: bool,
}

/// The mathematical value of a `ParseError`.
pub struct ParseErrorSpec {
    pub kind: ParseErrorKind,
    pub index: int,
    pub inside: Option<int>,
    pub at_end: bool,
}

impl View for ParseError {
    type V = ParseErrorSpec;

    open spec fn view(&self) -> ParseErrorSpec {
        ParseErrorSpec {
            kind: self.kind,
            index: self.index as int,
            inside: match self.inside {
                Some(inside) => Some(inside as int),
                None => None,
            },
            at_end: self.at_end,
        }
    }
}

/// What is missing where an error of this kind stands.
pub open spec fn expectation(kind: ParseErrorKind) -> Seq<char> {
    match kind {
        ParseErrorKind::ExpectedSquareBrackets => "expected square brackets"@,
        ParseErrorKind::ExpectedPath => "expected path"@,
        ParseErrorKind::ExpectedPathSegment => "expected path segment"@,
        ParseErrorKind::ExpectedBang => "expected `!`"@,
        ParseErrorKind::ExpectedIdentifier => "expected identifier"@,
        ParseErrorKind::ExpectedDelimitedGroup => "expected delimited group"@,
        ParseErrorKind::ExpectedFatArrow => "expected `=>`"@,
        ParseErrorKind::ExpectedSemicolon => "expected `;`"@,
        ParseErrorKind::UnexpectedToken => "unexpected token"@,
    }
}

/// Whether an error of this kind tells of the end of the input where it
/// stands there.
pub open spec fn tells_of_end(kind: ParseErrorKind) -> bool {
    ||| kind == ParseErrorKind::ExpectedSquareBrackets
    ||| kind == ParseErrorKind::ExpectedPath
    ||| kind == ParseErrorKind::ExpectedPathSegment
    ||| kind == ParseErrorKind::ExpectedIdentifier
}

/// What the parser says of the error: what is missing, and before that, for
/// some kinds, that the input ended.
pub open spec fn message_of(error: ParseErrorSpec) -> Seq<char> {
    if error.at_end && tells_of_end(error.kind) {
        "unexpected end of input, "@ + expectation(error.kind)
    } else {
        expectation(error.kind)
    }
}

/// An error at place `index` of the stream.
pub open spec fn error_at(
    stream: Seq<TokenSpec>,
    kind: ParseErrorKind,
    index: int,
) -> ParseErrorSpec {
    ParseErrorSpec { kind, index, inside: None, at_end: index >= stream.len() }
}

/// The error `inner`, found in the group at place `index`.
pub open spec fn error_inside(index: int, inner: ParseErrorSpec) -> ParseErrorSpec {
    ParseErrorSpec { kind: inner.kind, index, inside: Some(inner.index), at_end: inner.at_end }
}

/// What a parser hands back: a value and the place after it, or an error.
pub type Parsed<T> = Result<(T, int), ParseErrorSpec>;

/// The words that cannot name a macro.
pub open spec fn is_reserved(text: Seq<char>) -> bool {
    ||| text == "_"@
    ||| text == "abstract"@
    ||| text == "as"@
    ||| text == "become"@
    ||| text == "box"@
    ||| text == "break"@
    ||| text == "const"@
    ||| text == "continue"@
    ||| text == "crate"@
    ||| text == "do"@
    ||| text == "else"@
    ||| text == "enum"@
    ||| text == "extern"@
    ||| text == "false"@
    ||| text == "final"@
    ||| text == "fn"@
    ||| text == "for"@
    ||| text == "if"@
    ||| text == "impl"@
    ||| text == "in"@
    ||| text == "let"@
    ||| text == "loop"@
    ||| text == "macro"@
    ||| text == "match"@
    ||| text == "mod"@
    ||| text == "move"@
    ||| text == "mut"@
    ||| text == "override"@
    ||| text == "priv"@
    ||| text == "pub"@
    ||| text == "ref"@
    ||| text == "return"@
    ||| text == "Self"@
    ||| text == "self"@
    ||| text == "static"@
    ||| text == "struct"@
    ||| text == "super"@
    ||| text == "trait"@
    ||| text == "true"@
    ||| text == "type"@
    ||| text == "typeof"@
    ||| text == "unsafe"@
    ||| text == "unsized"@
    ||| text == "use"@
    ||| text == "virtual"@
    ||| text == "where"@
    ||| text == "while"@
    ||| text == "yield"@
}

/// The words that can stand in a path: every word that is not reserved, and
/// of the reserved ones `super`, `self`, `Self` and `crate`.
pub open spec fn is_segment_text(text: Seq<char>) -> bool {
    ||| !is_reserved(text)
    ||| text == "super"@
    ||| text == "self"@
    ||| text == "Self"@
    ||| text == "crate"@
}

/// The punctuation character `ch` stands at place `at`, whatever follows it.
pub open spec fn punct_at(stream: Seq<TokenSpec>, at: int, ch: char) -> bool {
    &&& 0 <= at < stream.len()
    &&& stream[at] matches TokenSpec::Punct(found, _)
    &&& found == ch
}

/// The punctuation character `ch` stands at place `at`, joined to what follows.
pub open spec fn joint_at(stream: Seq<TokenSpec>, at: int, ch: char) -> bool {
    &&& 0 <= at < stream.len()
    &&& stream[at] == TokenSpec::Punct(ch, PunctSpacing::Joint)
}

/// `::` stands at place `at`.
pub open spec fn double_colon_at(stream: Seq<TokenSpec>, at: int) -> bool {
    joint_at(stream, at, ':') && punct_at(stream, at + 1, ':')
}

/// `=>` stands at place `at`.
pub open spec fn fat_arrow_at(stream: Seq<TokenSpec>, at: int) -> bool {
    joint_at(stream, at, '=') && punct_at(stream, at + 1, '>')
}

/// An identifier that can stand in a path stands at place `at`.
pub open spec fn segment_at(stream: Seq<TokenSpec>, at: int) -> bool {
    &&& 0 <= at < stream.len()
    &&& stream[at] matches TokenSpec::Ident(text)
    &&& is_segment_text(text)
}

/// An identifier that can name a macro stands at place `at`.
pub open spec fn name_at(stream: Seq<TokenSpec>, at: int) -> bool {
    &&& 0 <= at < stream.len()
    &&& stream[at] matches TokenSpec::Ident(text)
    &&& !is_reserved(text)
}

/// The macro delimiter for the brackets of a group, where they are visible.
pub open spec fn macro_delimiter(delimiter: GroupDelimiter) -> Option<MacroDelimiter> {
    match delimiter {
        GroupDelimiter::Parenthesis => Some(MacroDelimiter::Paren),
        GroupDelimiter::Brace => Some(MacroDelimiter::Brace),
        GroupDelimiter::Bracket => Some(MacroDelimiter::Bracket),
        GroupDelimiter::Invisible => None,
    }
}

/// A group in visible brackets stands at place `at`.
pub open spec fn delimited_at(stream: Seq<TokenSpec>, at: int) -> bool {
    &&& 0 <= at < stream.len()
    &&& stream[at] matches TokenSpec::Group(delimiter, _)
    &&& delimiter != GroupDelimiter::Invisible
}

/// The brackets and the inside of the group at place `at`, or the error
/// for a place without a group in visible brackets.
pub open spec fn delimited_spec(stream: Seq<TokenSpec>, at: int) -> Result<
    (MacroDelimiter, Seq<TokenSpec>),
    ParseErrorSpec,
> {
    if delimited_at(stream, at) {
        Ok((macro_delimiter(stream[at]->Group_0)->0, stream[at]->Group_1))
    } else {
        Err(error_at(stream, ParseErrorKind::ExpectedDelimitedGroup, at))
    }
}

/// `first` before what `rest` holds.
pub open spec fn prepended<T>(first: Seq<T>, rest: Parsed<Seq<T>>) -> Parsed<Seq<T>> {
    match rest {
        Ok((items, end)) => Ok((first + items, end)),
        Err(error) => Err(error),
    }
}

/// The segments of a path from place `at` on, where a segment stands at
/// `at`: identifiers with `::` between them, as far as they go.
pub open spec fn segments_spec(stream: Seq<TokenSpec>, at: int) -> Parsed<Seq<Seq<char>>>
    decreases stream.len() - at,
{
    if !segment_at(stream, at) {
        Err(error_at(stream, ParseErrorKind::ExpectedPathSegment, at))
    } else if double_colon_at(stream, at + 1) {
        prepended(seq![stream[at]->Ident_0], segments_spec(stream, at + 3))
    } else {
        Ok((seq![stream[at]->Ident_0], at + 1))
    }
}

/// The path from place `at` on: `::` or not, then segments.
pub open spec fn path_spec(stream: Seq<TokenSpec>, at: int) -> Parsed<PathSpec> {
    let leading_colon = double_colon_at(stream, at);
    let start = if leading_colon {
        at + 2
    } else {
        at
    };
    if !segment_at(stream, start) {
        Err(error_at(stream, ParseErrorKind::ExpectedPath, start))
    } else {
        match segments_spec(stream, start) {
            Ok((segments, end)) => Ok((PathSpec { leading_colon, segments }, end)),
            Err(error) => Err(error),
        }
    }
}

/// The attributes from place `at` on: as long as `#` stands there, one
/// attribute in square brackets, which begins with its path.
pub open spec fn attrs_spec(stream: Seq<TokenSpec>, at: int) -> Parsed<Seq<AttributeSpec>>
    decreases stream.len() - at,
{
    if !punct_at(stream, at, '#') {
        Ok((Seq::empty(), at))
    } else if !(at + 1 < stream.len() && stream[at + 1] is Group && stream[at + 1]->Group_0
        == GroupDelimiter::Bracket) {
        Err(error_at(stream, ParseErrorKind::ExpectedSquareBrackets, at + 1))
    } else {
        let content = stream[at + 1]->Group_1;
        match path_spec(content, 0) {
            Err(error) => Err(error_inside(at + 1, error)),
            Ok((path, used)) => prepended(
                seq![AttributeSpec { path, tokens: content.skip(used) }],
                attrs_spec(stream, at + 2),
            ),
        }
    }
}

/// The rule at place `at`: a pattern in brackets, `=>`, a body in brackets.
pub open spec fn rule_spec(stream: Seq<TokenSpec>, at: int) -> Parsed<RuleSpec> {
    match delimited_spec(stream, at) {
        Err(error) => Err(error),
        Ok((rule_delimiter, rule)) => if !fat_arrow_at(stream, at + 1) {
            Err(error_at(stream, ParseErrorKind::ExpectedFatArrow, at + 1))
        } else {
            match delimited_spec(stream, at + 3) {
                Err(error) => Err(error),
                Ok((body_delimiter, body)) => Ok(
                    (RuleSpec { rule_delimiter, rule, body_delimiter, body }, at + 4),
                ),
            }
        },
    }
}

/// The rules from place `at` to the end of the stream, with `;` between
/// them, and whether a `;` follows the last one.
pub open spec fn rules_spec(stream: Seq<TokenSpec>, at: int) -> Result<
    (Seq<RuleSpec>, bool),
    ParseErrorSpec,
>
    decreases stream.len() - at,
{
    if at >= stream.len() {
        Ok((Seq::empty(), false))
    } else {
        match rule_spec(stream, at) {
            Err(error) => Err(error),
            Ok((rule, next)) => if next >= stream.len() {
                Ok((seq![rule], false))
            } else if !punct_at(stream, next, ';') {
                Err(error_at(stream, ParseErrorKind::ExpectedSemicolon, next))
            } else if next + 1 >= stream.len() {
                Ok((seq![rule], true))
            } else {
                match rules_spec(stream, next + 1) {
                    Ok((rest, trailing)) => Ok((seq![rule] + rest, trailing)),
                    Err(error) => Err(error),
                }
            },
        }
    }
}

/// The macro definition that the stream spells, or the first place where it
/// stops spelling one: attributes, a path, `!`, a name, the rules in visible
/// brackets, and a `;` or not.
pub open spec fn parse_spec(stream: Seq<TokenSpec>) -> Result<MacroRulesSpec, ParseErrorSpec> {
    match attrs_spec(stream, 0) {
        Err(error) => Err(error),
        Ok((attrs, after_attrs)) => match path_spec(stream, after_attrs) {
            Err(error) => Err(error),
            Ok((path, bang)) => if !punct_at(stream, bang, '!') {
                Err(error_at(stream, ParseErrorKind::ExpectedBang, bang))
            } else if !name_at(stream, bang + 1) {
                Err(error_at(stream, ParseErrorKind::ExpectedIdentifier, bang + 1))
            } else {
                match delimited_spec(stream, bang + 2) {
                    Err(error) => Err(error),
                    Ok((delimiter, content)) => match rules_spec(content, 0) {
                        Err(error) => Err(error_inside(bang + 2, error)),
                        Ok((rules, trailing_separator)) => {
                            let semi_token = punct_at(stream, bang + 3, ';');
                            let end = if semi_token {
                                bang + 4
                            } else {
                                bang + 3
                            };
                            if end < stream.len() {
                                Err(error_at(stream, ParseErrorKind::UnexpectedToken, end))
                            } else {
                                Ok(
                                    MacroRulesSpec {
                                        attrs,
                                        path,
                                        ident: stream[bang + 1]->Ident_0,
                                        delimiter,
                                        rules,
                                        trailing_separator,
                                        semi_token,
                                    },
                                )
                            }
                        },
                    },
                }
            },
        },
    }
}

} // verus!

//! The parser of macro definitions.

use crate::grammar::{
    attrs_spec, delimited_spec, double_colon_at, error_at, error_inside, fat_arrow_at,
    is_reserved, is_segment_text, joint_at, message_of, name_at, parse_spec, path_spec,
    prepended, punct_at, rule_spec, rules_spec, segment_at, segments_spec, ParseError,
    ParseErrorKind, ParseErrorSpec,
};
use crate::macro_rules::{
    macro_rules_tokens, Attribute, AttributeSpec, MacroDelimiter, MacroRules, MacroRulesRule,
    Path, PathSpec, RuleSpec,
};
use crate::round_trip::{lemma_parse_then_print, macro_rules_wf, respelled};
use crate::text::text_equal;
use crate::token::{
    copy_stream, lemma_group_view, GroupDelimiter, PunctSpacing, Token, TokenSpec,
};
use vstd::prelude::*;

verus! {

/// Whether `text` is one of the words that cannot name a macro.
pub fn is_reserved_word(text: &str) -> (reserved: bool)
    ensures
        reserved == is_reserved(text@),
{
    text_equal(text, "_")
        || text_equal(text, "abstract")
        || text_equal(text, "as")
        || text_equal(text, "become")
        || text_equal(text, "box")
        || text_equal(text, "break")
        || text_equal(text, "const")
        || text_equal(text, "continue")
        || text_equal(text, "crate")
        || text_equal(text, "do")
        || text_equal(text, "else")
        || text_equal(text, "enum")
        || text_equal(text, "extern")
        || text_equal(text, "false")
        || text_equal(text, "final")
        || text_equal(text, "fn")
        || text_equal(text, "for")
        || text_equal(text, "if")
        || text_equal(text, "impl")
        || text_equal(text, "in")
        || text_equal(text, "let")
        || text_equal(text, "loop")
        || text_equal(text, "macro")
        || text_equal(text, "match")
        || text_equal(text, "mod")
        || text_equal(text, "move")
        || text_equal(text, "mut")
        || text_equal(text, "override")
        || text_equal(text, "priv")
        || text_equal(text, "pub")
        || text_equal(text, "ref")
        || text_equal(text, "return")
        || text_equal(text, "Self")
        || text_equal(text, "self")
        || text_equal(text, "static")
        || text_equal(text, "struct")
        || text_equal(text, "super")
        || text_equal(text, "trait")
        || text_equal(text, "true")
        || text_equal(text, "type")
        || text_equal(text, "typeof")
        || text_equal(text, "unsafe")
        || text_equal(text, "unsized")
        || text_equal(text, "use")
        || text_equal(text, "virtual")
        || text_equal(text, "where")
        || text_equal(text, "while")
        || text_equal(text, "yield")
}

/// Whether `text` is a word that can stand in a path.
pub fn is_segment_word(text: &str) -> (segment: bool)
    ensures
        segment == is_segment_text(text@),
{
    !is_reserved_word(text)
        || text_equal(text, "super")
        || text_equal(text, "self")
        || text_equal(text, "Self")
        || text_equal(text, "crate")
}

impl ParseError {
    /// What the parser says of the error: what is missing, and before that,
    /// for a missing identifier, path or pair of square brackets, that the
    /// input ended, where it did.
    pub fn message(&self) -> (message: String)
        ensures
            message@ == message_of(self@),
    {
        let expected = match self.kind {
            ParseErrorKind::ExpectedSquareBrackets => String::from_str("expected square brackets"),
            ParseErrorKind::ExpectedPath => String::from_str("expected path"),
            ParseErrorKind::ExpectedPathSegment => String::from_str("expected path segment"),
            ParseErrorKind::ExpectedBang => String::from_str("expected `!`"),
            ParseErrorKind::ExpectedIdentifier => String::from_str("expected identifier"),
            ParseErrorKind::ExpectedDelimitedGroup => String::from_str("expected delimited group"),
            ParseErrorKind::ExpectedFatArrow => String::from_str("expected `=>`"),
            ParseErrorKind::ExpectedSemicolon => String::from_str("expected `;`"),
            ParseErrorKind::UnexpectedToken => String::from_str("unexpected token"),
        };
        let tells_of_end = match self.kind {
            ParseErrorKind::ExpectedSquareBrackets => true,
            ParseErrorKind::ExpectedPath => true,
            ParseErrorKind::ExpectedPathSegment => true,
            ParseErrorKind::ExpectedIdentifier => true,
            _ => false,
        };
        if self.at_end && tells_of_end {
            String::from_str("unexpected end of input, ").concat(expected.as_str())
        } else {
            expected
        }
    }
}

fn error(stream: &Vec<Token>, kind: ParseErrorKind, index: usize) -> (error: ParseError)
    ensures
        error@ == error_at(stream.deep_view(), kind, index as int),
{
    ParseError { kind, index, inside: None, at_end: index >= stream.len() }
}

fn inside(index: usize, inner: ParseError) -> (error: ParseError)
    ensures
        error@ == error_inside(index as int, inner@),
{
    ParseError { kind: inner.kind, index, inside: Some(inner.index), at_end: inner.at_end }
}

fn punct_is(stream: &Vec<Token>, at: usize, ch: char) -> (found: bool)
    ensures
        found == punct_at(stream.deep_view(), at as int, ch),
        found ==> at < stream.len(),
{
    if at >= stream.len() {
        return false;
    }
    match &stream[at] {
        Token::Punct(found, _) => *found == ch,
        _ => false,
    }
}

fn joint_is(stream: &Vec<Token>, at: usize, ch: char) -> (found: bool)
    ensures
        found == joint_at(stream.deep_view(), at as int, ch),
        found ==> at < stream.len(),
{
    if at >= stream.len() {
        return false;
    }
    match &stream[at] {
        Token::Punct(found, PunctSpacing::Joint) => *found == ch,
        _ => false,
    }
}

fn double_colon_is(stream: &Vec<Token>, at: usize) -> (found: bool)
    ensures
        found == double_colon_at(stream.deep_view(), at as int),
        found ==> at + 1 < stream.len(),
{
    joint_is(stream, at, ':') && punct_is(stream, at + 1, ':')
}

fn fat_arrow_is(stream: &Vec<Token>, at: usize) -> (found: bool)
    ensures
        found == fat_arrow_at(stream.deep_view(), at as int),
        found ==> at + 1 < stream.len(),
{
    joint_is(stream, at, '=') && punct_is(stream, at + 1, '>')
}

fn segment_is(stream: &Vec<Token>, at: usize) -> (found: bool)
    ensures
        found == segment_at(stream.deep_view(), at as int),
        found ==> at < stream.len(),
{
    if at >= stream.len() {
        return false;
    }
    match &stream[at] {
        Token::Ident(text) => is_segment_word(text.as_str()),
        _ => false,
    }
}

fn name_is(stream: &Vec<Token>, at: usize) -> (found: bool)
    ensures
        found == name_at(stream.deep_view(), at as int),
        found ==> at < stream.len(),
{
    if at >= stream.len() {
        return false;
    }
    match &stream[at] {
        Token::Ident(text) => !is_reserved_word(text.as_str()),
        _ => false,
    }
}

fn ident_text(stream: &Vec<Token>, at: usize) -> (text: String)
    requires
        at < stream.len(),
        stream.deep_view()[at as int] is Ident,
    ensures
        text@ == stream.deep_view()[at as int]->Ident_0,
{
    match &stream[at] {
        Token::Ident(text) => text.clone(),
        _ => String::new(),
    }
}

/// The brackets and the inside of the group at place `at` of the stream.
/// A place without a group, or with a group in invisible brackets, is
/// the error `ExpectedDelimitedGroup` at that place.
pub fn parse_macro_delimeter(stream: &Vec<Token>, at: usize) -> (parsed: Result<
    (MacroDelimiter, Vec<Token>),
    ParseError,
>)
    ensures
        match parsed {
            Ok((delimiter, content)) => delimited_spec(stream.deep_view(), at as int) == Ok::<
                _,
                ParseErrorSpec,
            >((delimiter, content.deep_view())),
            Err(error) => delimited_spec(stream.deep_view(), at as int) == Err::<
                (MacroDelimiter, Seq<TokenSpec>),
                _,
            >(error@),
        },
{
    if at >= stream.len() {
        return Err(error(stream, ParseErrorKind::ExpectedDelimitedGroup, at));
    }
    match &stream[at] {
        Token::Group(delimiter, content) => {
            proof {
                lemma_group_view(*delimiter, *content);
            }
            match delimiter {
                GroupDelimiter::Parenthesis => Ok((MacroDelimiter::Paren, copy_stream(content))),
                GroupDelimiter::Brace => Ok((MacroDelimiter::Brace, copy_stream(content))),
                GroupDelimiter::Bracket => Ok((MacroDelimiter::Bracket, copy_stream(content))),
                GroupDelimiter::Invisible => Err(
                    error(stream, ParseErrorKind::ExpectedDelimitedGroup, at),
                ),
            }
        },
        _ => Err(error(stream, ParseErrorKind::ExpectedDelimitedGroup, at)),
    }
}

impl Path {
    /// The path that begins at place `at` of the stream, and the place after
    /// it: `::` or not, then identifiers with `::` between them, as far as
    /// they go. `ExpectedPath` where no identifier begins the path,
    /// `ExpectedPathSegment` where none follows a `::`.
    pub fn parse_mod_style(stream: &Vec<Token>, at: usize) -> (parsed: Result<
        (Path, usize),
        ParseError,
    >)
        ensures
            match parsed {
                Ok((path, end)) => {
                    &&& path_spec(stream.deep_view(), at as int) == Ok::<_, ParseErrorSpec>(
                        (path.deep_view(), end as int),
                    )
                    &&& at < end <= stream.len()
                },
                Err(error) => path_spec(stream.deep_view(), at as int) == Err::<(PathSpec, int), _>(
                    error@,
                ),
            },
    {
        let ghost tokens = stream.deep_view();
        let leading_colon = double_colon_is(stream, at);
        let start = if leading_colon {
            at + 2
        } else {
            at
        };
        if !segment_is(stream, start) {
            return Err(error(stream, ParseErrorKind::ExpectedPath, start));
        }
        let mut segments: Vec<String> = Vec::new();
        let mut place = start;
        assert(segments.deep_view() =~= Seq::empty());
        assert(segments_spec(tokens, start as int) == prepended(
            segments.deep_view(),
            segments_spec(tokens, place as int),
        )) by {
            let found = segments_spec(tokens, place as int);
            if found is Ok {
                assert(segments.deep_view() + found->Ok_0.0 =~= found->Ok_0.0);
            }
        }
        loop
            invariant
                tokens == stream.deep_view(),
                leading_colon == double_colon_at(tokens, at as int),
                start == if leading_colon {
                    at + 2
                } else {
                    at as int
                },
                start <= place < stream.len(),
                segment_at(tokens, start as int),
                segment_at(tokens, place as int),
                segments_spec(tokens, start as int) == prepended(
                    segments.deep_view(),
                    segments_spec(tokens, place as int),
                ),
            decreases stream.len() - place,
        {
            let ghost before = segments.deep_view();
            let ghost name = tokens[place as int]->Ident_0;
            segments.push(ident_text(stream, place));
            assert(segments.deep_view() =~= before + seq![name]);
            if !double_colon_is(stream, place + 1) {
                return Ok((Path { leading_colon, segments }, place + 1));
            }
            if !segment_is(stream, place + 3) {
                assert(segments_spec(tokens, place + 3) == Err::<(Seq<Seq<char>>, int), _>(
                    error_at(tokens, ParseErrorKind::ExpectedPathSegment, place + 3),
                ));
                return Err(error(stream, ParseErrorKind::ExpectedPathSegment, place + 3));
            }
            proof {
                let found = segments_spec(tokens, place + 3);
                if found is Ok {
                    assert(before + (seq![name] + found->Ok_0.0) =~= (before + seq![name])
                        + found->Ok_0.0);
                }
            }
            place = place + 3;
        }
    }
}

fn copy_from(stream: &Vec<Token>, from: usize) -> (copy: Vec<Token>)
    requires
        from <= stream.len(),
    ensures
        copy.deep_view() == stream.deep_view().skip(from as int),
{
    let mut copy: Vec<Token> = Vec::new();
    let mut i: usize = from;
    while i < stream.len()
        invariant
            from <= i <= stream.len(),
            copy.len() == i - from,
            forall|j: int| 0 <= j < i - from ==> copy@[j]@ == stream@[from + j]@,
        decreases stream.len() - i,
    {
        copy.push(stream[i].clone());
        i += 1;
    }
    assert(copy.deep_view() =~= stream.deep_view().skip(from as int));
    copy
}

impl Attribute {
    /// The attributes that begin at place `at` of the stream, and the place
    /// after them: as long as `#` stands there, an attribute, which is `#`
    /// and a group in square brackets that begins with a path.
    /// `ExpectedSquareBrackets` where no such group follows a `#`; within
    /// the group, the errors of the path.
    pub fn parse_outer(stream: &Vec<Token>, at: usize) -> (parsed: Result<
        (Vec<Attribute>, usize),
        ParseError,
    >)
        ensures
            match parsed {
                Ok((attrs, end)) => {
                    &&& attrs_spec(stream.deep_view(), at as int) == Ok::<_, ParseErrorSpec>(
                        (attrs.deep_view(), end as int),
                    )
                    &&& at <= end
                    &&& at <= stream.len() ==> end <= stream.len()
                },
                Err(error) => attrs_spec(stream.deep_view(), at as int) == Err::<
                    (Seq<AttributeSpec>, int),
                    _,
                >(error@),
            },
    {
        let ghost tokens = stream.deep_view();
        let mut attrs: Vec<Attribute> = Vec::new();
        let mut place = at;
        assert(attrs.deep_view() =~= Seq::empty());
        assert(attrs_spec(tokens, at as int) == prepended(
            attrs.deep_view(),
            attrs_spec(tokens, place as int),
        )) by {
            let found = attrs_spec(tokens, place as int);
            if found is Ok {
                assert(attrs.deep_view() + found->Ok_0.0 =~= found->Ok_0.0);
            }
        }
        loop
            invariant
                tokens == stream.deep_view(),
                at <= place,
                at <= stream.len() ==> place <= stream.len(),
                attrs_spec(tokens, at as int) == prepended(
                    attrs.deep_view(),
                    attrs_spec(tokens, place as int),
                ),
            decreases stream.len() - place,
        {
            let ghost before = attrs.deep_view();
            if !punct_is(stream, place, '#') {
                assert(before + Seq::<AttributeSpec>::empty() =~= before);
                return Ok((attrs, place));
            }
            if place + 1 >= stream.len() {
                return Err(error(stream, ParseErrorKind::ExpectedSquareBrackets, place + 1));
            }
            match &stream[place + 1] {
                Token::Group(GroupDelimiter::Bracket, content) => {
                    proof {
                        lemma_group_view(GroupDelimiter::Bracket, *content);
                    }
                    match Path::parse_mod_style(content, 0) {
                        Err(error) => {
                            return Err(inside(place + 1, error));
                        },
                        Ok((path, used)) => {
                            let ghost attribute = AttributeSpec {
                                path: path.deep_view(),
                                tokens: content.deep_view().skip(used as int),
                            };
                            let rest = copy_from(content, used);
                            attrs.push(Attribute { path, tokens: rest });
                            proof {
                                assert(attrs.deep_view() =~= before + seq![attribute]);
                                let found = attrs_spec(tokens, place + 2);
                                if found is Ok {
                                    assert(before + (seq![attribute] + found->Ok_0.0) =~= (before
                                        + seq![attribute]) + found->Ok_0.0);
                                }
                            }
                            place = place + 2;
                        },
                    }
                },
                _ => {
                    return Err(error(stream, ParseErrorKind::ExpectedSquareBrackets, place + 1));
                },
            }
        }
    }
}

impl MacroRulesRule {
    /// The rule at place `at` of the stream, and the place after it: a
    /// pattern in visible brackets, `=>`, and a body in visible brackets.
    /// `ExpectedDelimitedGroup` at the place of a missing pattern or body,
    /// `ExpectedFatArrow` at the place of a missing `=>`.
    pub fn parse(stream: &Vec<Token>, at: usize) -> (parsed: Result<
        (MacroRulesRule, usize),
        ParseError,
    >)
        ensures
            match parsed {
                Ok((rule, end)) => {
                    &&& rule_spec(stream.deep_view(), at as int) == Ok::<_, ParseErrorSpec>(
                        (rule.deep_view(), end as int),
                    )
                    &&& end == at + 4
                    &&& end <= stream.len()
                },
                Err(error) => rule_spec(stream.deep_view(), at as int) == Err::<(RuleSpec, int), _>(
                    error@,
                ),
            },
    {
        let (rule_delimiter, rule) = match parse_macro_delimeter(stream, at) {
            Ok(found) => found,
            Err(error) => {
                return Err(error);
            },
        };
        assert(at < stream.len());
        if !fat_arrow_is(stream, at + 1) {
            return Err(error(stream, ParseErrorKind::ExpectedFatArrow, at + 1));
        }
        let (body_delimiter, body) = match parse_macro_delimeter(stream, at + 3) {
            Ok(found) => found,
            Err(error) => {
                return Err(error);
            },
        };
        Ok((MacroRulesRule { rule_delimiter, rule, body_delimiter, body }, at + 4))
    }
}

/// `first` before the rules that `rest` holds.
pub open spec fn rules_prepended(
    first: Seq<RuleSpec>,
    rest: Result<(Seq<RuleSpec>, bool), ParseErrorSpec>,
) -> Result<(Seq<RuleSpec>, bool), ParseErrorSpec> {
    match rest {
        Ok((rules, trailing)) => Ok((first + rules, trailing)),
        Err(error) => Err(error),
    }
}

/// The rules that the whole stream spells, and whether a `;` follows the
/// last one: rules with one `;` between each two. `ExpectedSemicolon` at the
/// place of a missing `;`; at the place of a missing rule, the errors of
/// the rule.
pub fn parse_terminated(stream: &Vec<Token>) -> (parsed: Result<
    (Vec<MacroRulesRule>, bool),
    ParseError,
>)
    ensures
        match parsed {
            Ok((rules, trailing)) => rules_spec(stream.deep_view(), 0) == Ok::<_, ParseErrorSpec>(
                (rules.deep_view(), trailing),
            ),
            Err(error) => rules_spec(stream.deep_view(), 0) == Err::<(Seq<RuleSpec>, bool), _>(
                error@,
            ),
        },
{
    let ghost tokens = stream.deep_view();
    let mut rules: Vec<MacroRulesRule> = Vec::new();
    let mut place: usize = 0;
    assert(rules.deep_view() =~= Seq::empty());
    assert(rules_spec(tokens, 0) == rules_prepended(
        rules.deep_view(),
        rules_spec(tokens, place as int),
    )) by {
        let found = rules_spec(tokens, place as int);
        if found is Ok {
            assert(rules.deep_view() + found->Ok_0.0 =~= found->Ok_0.0);
        }
    }
    if stream.len() == 0 {
        return Ok((rules, false));
    }
    loop
        invariant
            tokens == stream.deep_view(),
            place < stream.len(),
            rules_spec(tokens, 0) == rules_prepended(
                rules.deep_view(),
                rules_spec(tokens, place as int),
            ),
        decreases stream.len() - place,
    {
        let ghost before = rules.deep_view();
        let (rule, next) = match MacroRulesRule::parse(stream, place) {
            Ok(found) => found,
            Err(error) => {
                return Err(error);
            },
        };
        let ghost parsed = rule.deep_view();
        rules.push(rule);
        assert(rules.deep_view() =~= before + seq![parsed]);
        if next >= stream.len() {
            return Ok((rules, false));
        }
        if !punct_is(stream, next, ';') {
            return Err(error(stream, ParseErrorKind::ExpectedSemicolon, next));
        }
        if next + 1 >= stream.len() {
            return Ok((rules, true));
        }
        proof {
            let found = rules_spec(tokens, next + 1);
            if found is Ok {
                assert(before + (seq![parsed] + found->Ok_0.0) =~= (before + seq![parsed])
                    + found->Ok_0.0);
            }
        }
        place = next + 1;
    }
}

impl MacroRules {
    /// The macro definition that the stream spells: attributes, a path, `!`,
    /// a name, the rules in visible brackets, and a `;` or not. An error
    /// tells the first place where the stream stops spelling one, and what
    /// was missing there. What is parsed can be printed and parsed again,
    /// and printing it gives the stream back as a printer spaces it.
    pub fn parse(stream: &Vec<Token>) -> (parsed: Result<MacroRules, ParseError>)
        ensures
            match parsed {
                Ok(mac_rules) => {
                    &&& parse_spec(stream.deep_view()) == Ok::<_, ParseErrorSpec>(
                        mac_rules.deep_view(),
                    )
                    &&& macro_rules_wf(mac_rules.deep_view())
                    &&& macro_rules_tokens(mac_rules.deep_view()) == respelled(stream.deep_view())
                },
                Err(error) => parse_spec(stream.deep_view()) == Err::<
                    crate::macro_rules::MacroRulesSpec,
                    _,
                >(error@),
            },
    {
        let (attrs, after_attrs) = match Attribute::parse_outer(stream, 0) {
            Ok(found) => found,
            Err(error) => {
                return Err(error);
            },
        };
        let (path, bang) = match Path::parse_mod_style(stream, after_attrs) {
            Ok(found) => found,
            Err(error) => {
                return Err(error);
            },
        };
        if !punct_is(stream, bang, '!') {
            return Err(error(stream, ParseErrorKind::ExpectedBang, bang));
        }
        if !name_is(stream, bang + 1) {
            return Err(error(stream, ParseErrorKind::ExpectedIdentifier, bang + 1));
        }
        let ident = ident_text(stream, bang + 1);
        let (delimiter, content) = match parse_macro_delimeter(stream, bang + 2) {
            Ok(found) => found,
            Err(error) => {
                return Err(error);
            },
        };
        assert(bang + 2 < stream.len());
        let (rules, trailing_separator) = match parse_terminated(&content) {
            Ok(found) => found,
            Err(error) => {
                return Err(inside(bang + 2, error));
            },
        };
        let semi_token = punct_is(stream, bang + 3, ';');
        let end = if semi_token {
            bang + 4
        } else {
            bang + 3
        };
        if end < stream.len() {
            return Err(error(stream, ParseErrorKind::UnexpectedToken, end));
        }
        proof {
            lemma_parse_then_print(stream.deep_view());
        }
        Ok(MacroRules { attrs, path, ident, delimiter, rules, trailing_separator, semi_token })
    }
}

} // verus!

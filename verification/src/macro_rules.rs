//! The model of a `macro_rules!` definition and its printing as tokens.

use crate::token::{
    copy_stream, extend_with_copy, push_group, push_ident, push_punct, GroupDelimiter,
    PunctSpacing, Token, TokenSpec,
};
use vstd::prelude::*;

verus! {

/// The brackets around a macro's rules, a pattern or a body.
#[derive(Clone, Copy, Debug, PartialEq, Eq, Structural)]
pub enum MacroDelimiter {
    Paren,
    Brace,
    Bracket,
}

/// A path of identifiers joined by `::`, as it names a macro or an attribute.
#[derive(Debug, PartialEq, Eq)]
pub struct Path {
    pub leading_colon: bool,
    pub segments: Vec<String>,
}

/// An outer attribute `#[path tokens]`. A documentation comment is the
/// attribute `#[doc = "..."]`.
#[derive(Debug, PartialEq, Eq)]
pub struct Attribute {
    pub path: Path,
    pub tokens: Vec<Token>,
}

/// One rule of a macro: a pattern and a body, each in brackets of its own.
#[derive(Debug, PartialEq, Eq)]
pub struct MacroRulesRule {
    pub rule_delimiter: MacroDelimiter,
    pub rule: Vec<Token>,
    pub body_delimiter: MacroDelimiter,
    pub body: Vec<Token>,
}

/// A macro definition: `#[attrs] path! ident { rules }`, with the rules
/// separated by `;`.
#[derive(Debug, PartialEq, Eq)]
pub struct MacroRules {
    pub attrs: Vec<Attribute>,
    pub path: Path,
    pub ident: String,
    pub delimiter: MacroDelimiter,
    pub rules: Vec<MacroRulesRule>,
    /// Whether a `;` follows the last rule.
    pub trailing_separator: bool,
    /// Whether a `;` follows the brackets of the rules.
    pub semi_token: bool,
}

/// The mathematical value of a `Path`.
pub struct PathSpec {
    pub leading_colon: bool,
    pub segments: Seq<Seq<char>>,
}

/// The mathematical value of an `Attribute`.
pub struct AttributeSpec {
    pub path: PathSpec,
    pub tokens: Seq<TokenSpec>,
}

/// The mathematical value of a `MacroRulesRule`.
pub struct RuleSpec {
    pub rule_delimiter: MacroDelimiter,
    pub rule: Seq<TokenSpec>,
    pub body_delimiter: MacroDelimiter,
    pub body: Seq<TokenSpec>,
}

/// The mathematical value of a `MacroRules`.
pub struct MacroRulesSpec {
    pub attrs: Seq<AttributeSpec>,
    pub path: PathSpec,
    pub ident: Seq<char>,
    pub delimiter: MacroDelimiter,
    pub rules: Seq<RuleSpec>,
    pub trailing_separator: bool,
    pub semi_token: bool,
}

impl DeepView for Path {
    type V = PathSpec;

    open spec fn deep_view(&self) -> PathSpec {
        PathSpec { leading_colon: self.leading_colon, segments: self.segments.deep_view() }
    }
}

impl DeepView for Attribute {
    type V = AttributeSpec;

    open spec fn deep_view(&self) -> AttributeSpec {
        AttributeSpec { path: self.path.deep_view(), tokens: self.tokens.deep_view() }
    }
}

impl DeepView for MacroRulesRule {
    type V = RuleSpec;

    open spec fn deep_view(&self) -> RuleSpec {
        RuleSpec {
            rule_delimiter: self.rule_delimiter,
            rule: self.rule.deep_view(),
            body_delimiter: self.body_delimiter,
            body: self.body.deep_view(),
        }
    }
}

impl DeepView for MacroRules {
    type V = MacroRulesSpec;

    open spec fn deep_view(&self) -> MacroRulesSpec {
        MacroRulesSpec {
            attrs: self.attrs.deep_view(),
            path: self.path.deep_view(),
            ident: self.ident@,
            delimiter: self.delimiter,
            rules: self.rules.deep_view(),
            trailing_separator: self.trailing_separator,
            semi_token: self.semi_token,
        }
    }
}

/// The brackets of a group that stand for a macro delimiter.
pub open spec fn group_delimiter(delimiter: MacroDelimiter) -> GroupDelimiter {
    match delimiter {
        MacroDelimiter::Paren => GroupDelimiter::Parenthesis,
        MacroDelimiter::Brace => GroupDelimiter::Brace,
        MacroDelimiter::Bracket => GroupDelimiter::Bracket,
    }
}

/// The token `;`.
pub open spec fn separator() -> Seq<TokenSpec> {
    seq![TokenSpec::Punct(';', PunctSpacing::Alone)]
}

/// The tokens of `::`.
pub open spec fn double_colon() -> Seq<TokenSpec> {
    seq![TokenSpec::Punct(':', PunctSpacing::Joint), TokenSpec::Punct(':', PunctSpacing::Alone)]
}

/// The segments as identifiers with `::` between them.
pub open spec fn segments_tokens(segments: Seq<Seq<char>>) -> Seq<TokenSpec>
    decreases segments.len(),
{
    if segments.len() == 0 {
        Seq::empty()
    } else if segments.len() == 1 {
        seq![TokenSpec::Ident(segments[0])]
    } else {
        seq![TokenSpec::Ident(segments[0])] + double_colon() + segments_tokens(
            segments.drop_first(),
        )
    }
}

/// The tokens of a path.
pub open spec fn path_tokens(path: PathSpec) -> Seq<TokenSpec> {
    if path.leading_colon {
        double_colon() + segments_tokens(path.segments)
    } else {
        segments_tokens(path.segments)
    }
}

/// The tokens of an attribute: `#`, then its path and tokens in square brackets.
pub open spec fn attribute_tokens(attribute: AttributeSpec) -> Seq<TokenSpec> {
    seq![
        TokenSpec::Punct('#', PunctSpacing::Alone),
        TokenSpec::Group(GroupDelimiter::Bracket, path_tokens(attribute.path) + attribute.tokens),
    ]
}

/// The tokens of the attributes, one after the other.
pub open spec fn attrs_tokens(attrs: Seq<AttributeSpec>) -> Seq<TokenSpec>
    decreases attrs.len(),
{
    if attrs.len() == 0 {
        Seq::empty()
    } else {
        attribute_tokens(attrs[0]) + attrs_tokens(attrs.drop_first())
    }
}

/// The tokens of a rule: the pattern in its brackets, `=>`, the body in its brackets.
pub open spec fn rule_tokens(rule: RuleSpec) -> Seq<TokenSpec> {
    seq![
        TokenSpec::Group(group_delimiter(rule.rule_delimiter), rule.rule),
        TokenSpec::Punct('=', PunctSpacing::Joint),
        TokenSpec::Punct('>', PunctSpacing::Alone),
        TokenSpec::Group(group_delimiter(rule.body_delimiter), rule.body),
    ]
}

/// The tokens of the rules with `;` between them, and after the last one
/// where `trailing` says so.
pub open spec fn rules_tokens(rules: Seq<RuleSpec>, trailing: bool) -> Seq<TokenSpec>
    decreases rules.len(),
{
    if rules.len() == 0 {
        Seq::empty()
    } else if rules.len() == 1 {
        if trailing {
            rule_tokens(rules[0]) + separator()
        } else {
            rule_tokens(rules[0])
        }
    } else {
        rule_tokens(rules[0]) + separator() + rules_tokens(rules.drop_first(), trailing)
    }
}

/// The tokens of a macro definition.
pub open spec fn macro_rules_tokens(mac_rules: MacroRulesSpec) -> Seq<TokenSpec> {
    let head = attrs_tokens(mac_rules.attrs) + path_tokens(mac_rules.path) + seq![
        TokenSpec::Punct('!', PunctSpacing::Alone),
        TokenSpec::Ident(mac_rules.ident),
        TokenSpec::Group(
            group_delimiter(mac_rules.delimiter),
            rules_tokens(mac_rules.rules, mac_rules.trailing_separator),
        ),
    ];
    if mac_rules.semi_token {
        head + separator()
    } else {
        head
    }
}

fn copy_segments(segments: &Vec<String>) -> (copy: Vec<String>)
    ensures
        copy.deep_view() == segments.deep_view(),
{
    let mut copy: Vec<String> = Vec::new();
    let mut i: usize = 0;
    while i < segments.len()
        invariant
            i <= segments.len(),
            copy.len() == i,
            forall|j: int| 0 <= j < i ==> copy@[j]@ == segments@[j]@,
        decreases segments.len() - i,
    {
        copy.push(segments[i].clone());
        i += 1;
    }
    assert(copy.deep_view() =~= segments.deep_view());
    copy
}

impl MacroDelimiter {
    /// The brackets of a group that stand for this delimiter.
    pub fn group_delimiter(&self) -> (delimiter: GroupDelimiter)
        ensures
            delimiter == group_delimiter(*self),
    {
        match self {
            MacroDelimiter::Paren => GroupDelimiter::Parenthesis,
            MacroDelimiter::Brace => GroupDelimiter::Brace,
            MacroDelimiter::Bracket => GroupDelimiter::Bracket,
        }
    }
}

/// Appends to `tokens` the group that holds `content` in the brackets of `delim`.
pub fn macro_delimiter_surround(
    delim: &MacroDelimiter,
    tokens: &mut Vec<Token>,
    content: Vec<Token>,
)
    ensures
        final(tokens).deep_view() == old(tokens).deep_view().push(
            TokenSpec::Group(group_delimiter(*delim), content.deep_view()),
        ),
{
    push_group(tokens, delim.group_delimiter(), content);
}

fn push_double_colon(tokens: &mut Vec<Token>)
    ensures
        final(tokens).deep_view() == old(tokens).deep_view() + double_colon(),
{
    let ghost before = tokens.deep_view();
    push_punct(tokens, ':', PunctSpacing::Joint);
    push_punct(tokens, ':', PunctSpacing::Alone);
    assert(tokens.deep_view() =~= before + double_colon());
}

impl Clone for Path {
    fn clone(&self) -> (copy: Self)
        ensures
            copy.deep_view() == self.deep_view(),
    {
        Path { leading_colon: self.leading_colon, segments: copy_segments(&self.segments) }
    }
}

impl Path {
    /// Appends the tokens of the path to `tokens`.
    pub fn to_tokens(&self, tokens: &mut Vec<Token>)
        ensures
            final(tokens).deep_view() == old(tokens).deep_view() + path_tokens(self.deep_view()),
    {
        let ghost before = tokens.deep_view();
        let ghost segments = self.segments.deep_view();
        if self.leading_colon {
            push_double_colon(tokens);
        }
        let ghost start = tokens.deep_view();
        let ghost mut done: Seq<TokenSpec> = Seq::empty();
        let mut i: usize = 0;
        assert(segments.skip(0) =~= segments);
        assert(start =~= start + done);
        assert(segments_tokens(segments) =~= done + segments_tokens(segments.skip(0)));
        while i < self.segments.len()
            invariant
                i <= self.segments.len(),
                segments == self.segments.deep_view(),
                tokens.deep_view() == start + done,
                segments_tokens(segments) == done + segments_tokens(segments.skip(i as int)),
            decreases self.segments.len() - i,
        {
            let ghost rest = segments.skip(i as int);
            assert(rest.drop_first() =~= segments.skip(i + 1));
            assert(rest[0] == self.segments@[i as int]@);
            push_ident(tokens, self.segments[i].as_str());
            if i + 1 < self.segments.len() {
                push_double_colon(tokens);
                proof {
                    let more = done + seq![TokenSpec::Ident(rest[0])] + double_colon();
                    assert(tokens.deep_view() =~= start + more);
                    assert(segments_tokens(segments) =~= more + segments_tokens(
                        segments.skip(i + 1),
                    ));
                    done = more;
                }
            } else {
                proof {
                    let more = done + seq![TokenSpec::Ident(rest[0])];
                    assert(tokens.deep_view() =~= start + more);
                    assert(segments_tokens(segments.skip(i + 1)) =~= Seq::empty());
                    assert(segments_tokens(segments) =~= more + segments_tokens(
                        segments.skip(i + 1),
                    ));
                    done = more;
                }
            }
            i += 1;
        }
        proof {
            assert(segments_tokens(segments.skip(i as int)) =~= Seq::empty());
            assert(done =~= segments_tokens(segments));
            assert(tokens.deep_view() =~= before + path_tokens(self.deep_view()));
        }
    }
}

impl Clone for Attribute {
    fn clone(&self) -> (copy: Self)
        ensures
            copy.deep_view() == self.deep_view(),
    {
        Attribute { path: self.path.clone(), tokens: copy_stream(&self.tokens) }
    }
}

impl Attribute {
    /// Appends the tokens of the attribute to `tokens`.
    pub fn to_tokens(&self, tokens: &mut Vec<Token>)
        ensures
            final(tokens).deep_view() == old(tokens).deep_view() + attribute_tokens(
                self.deep_view(),
            ),
    {
        let ghost before = tokens.deep_view();
        push_punct(tokens, '#', PunctSpacing::Alone);
        let mut content: Vec<Token> = Vec::new();
        assert(content.deep_view() =~= Seq::empty());
        self.path.to_tokens(&mut content);
        extend_with_copy(&mut content, &self.tokens);
        assert(content.deep_view() =~= path_tokens(self.path.deep_view())
            + self.tokens.deep_view());
        push_group(tokens, GroupDelimiter::Bracket, content);
        assert(tokens.deep_view() =~= before + attribute_tokens(self.deep_view()));
    }
}

impl Clone for MacroRulesRule {
    fn clone(&self) -> (copy: Self)
        ensures
            copy.deep_view() == self.deep_view(),
    {
        MacroRulesRule {
            rule_delimiter: self.rule_delimiter,
            rule: copy_stream(&self.rule),
            body_delimiter: self.body_delimiter,
            body: copy_stream(&self.body),
        }
    }
}

impl MacroRulesRule {
    /// Appends the tokens of the rule to `tokens`: the pattern in its
    /// brackets, `=>`, and the body in its brackets.
    pub fn to_tokens(&self, tokens: &mut Vec<Token>)
        ensures
            final(tokens).deep_view() == old(tokens).deep_view() + rule_tokens(self.deep_view()),
    {
        let ghost before = tokens.deep_view();
        macro_delimiter_surround(&self.rule_delimiter, tokens, copy_stream(&self.rule));
        push_punct(tokens, '=', PunctSpacing::Joint);
        push_punct(tokens, '>', PunctSpacing::Alone);
        macro_delimiter_surround(&self.body_delimiter, tokens, copy_stream(&self.body));
        assert(tokens.deep_view() =~= before + rule_tokens(self.deep_view()));
    }
}

fn copy_attrs(attrs: &Vec<Attribute>) -> (copy: Vec<Attribute>)
    ensures
        copy.deep_view() == attrs.deep_view(),
{
    let mut copy: Vec<Attribute> = Vec::new();
    let mut i: usize = 0;
    while i < attrs.len()
        invariant
            i <= attrs.len(),
            copy.len() == i,
            forall|j: int| 0 <= j < i ==> copy@[j].deep_view() == attrs@[j].deep_view(),
        decreases attrs.len() - i,
    {
        copy.push(attrs[i].clone());
        i += 1;
    }
    assert(copy.deep_view() =~= attrs.deep_view());
    copy
}

fn copy_rules(rules: &Vec<MacroRulesRule>) -> (copy: Vec<MacroRulesRule>)
    ensures
        copy.deep_view() == rules.deep_view(),
{
    let mut copy: Vec<MacroRulesRule> = Vec::new();
    let mut i: usize = 0;
    while i < rules.len()
        invariant
            i <= rules.len(),
            copy.len() == i,
            forall|j: int| 0 <= j < i ==> copy@[j].deep_view() == rules@[j].deep_view(),
        decreases rules.len() - i,
    {
        copy.push(rules[i].clone());
        i += 1;
    }
    assert(copy.deep_view() =~= rules.deep_view());
    copy
}

/// Appends the tokens of the attributes to `tokens`.
pub fn attrs_to_tokens(attrs: &Vec<Attribute>, tokens: &mut Vec<Token>)
    ensures
        final(tokens).deep_view() == old(tokens).deep_view() + attrs_tokens(attrs.deep_view()),
{
    let ghost before = tokens.deep_view();
    let ghost all = attrs.deep_view();
    let ghost mut done: Seq<TokenSpec> = Seq::empty();
    let mut i: usize = 0;
    assert(all.skip(0) =~= all);
    assert(before =~= before + done);
    assert(attrs_tokens(all) =~= done + attrs_tokens(all.skip(0)));
    while i < attrs.len()
        invariant
            i <= attrs.len(),
            all == attrs.deep_view(),
            tokens.deep_view() == before + done,
            attrs_tokens(all) == done + attrs_tokens(all.skip(i as int)),
        decreases attrs.len() - i,
    {
        let ghost rest = all.skip(i as int);
        assert(rest.drop_first() =~= all.skip(i + 1));
        assert(rest[0] == attrs@[i as int].deep_view());
        attrs[i].to_tokens(tokens);
        proof {
            let more = done + attribute_tokens(rest[0]);
            assert(tokens.deep_view() =~= before + more);
            assert(attrs_tokens(all) =~= more + attrs_tokens(all.skip(i + 1)));
            done = more;
        }
        i += 1;
    }
    proof {
        assert(attrs_tokens(all.skip(i as int)) =~= Seq::empty());
        assert(done =~= attrs_tokens(all));
    }
}

/// Appends the tokens of the rules to `tokens`, with `;` between them, and
/// after the last one where `trailing` says so.
pub fn rules_to_tokens(rules: &Vec<MacroRulesRule>, trailing: bool, tokens: &mut Vec<Token>)
    ensures
        final(tokens).deep_view() == old(tokens).deep_view() + rules_tokens(
            rules.deep_view(),
            trailing,
        ),
{
    let ghost before = tokens.deep_view();
    let ghost all = rules.deep_view();
    let ghost mut done: Seq<TokenSpec> = Seq::empty();
    let mut i: usize = 0;
    assert(all.skip(0) =~= all);
    assert(before =~= before + done);
    assert(rules_tokens(all, trailing) =~= done + rules_tokens(all.skip(0), trailing));
    while i < rules.len()
        invariant
            i <= rules.len(),
            all == rules.deep_view(),
            tokens.deep_view() == before + done,
            rules_tokens(all, trailing) == done + rules_tokens(all.skip(i as int), trailing),
        decreases rules.len() - i,
    {
        let ghost rest = all.skip(i as int);
        assert(rest.drop_first() =~= all.skip(i + 1));
        assert(rest[0] == rules@[i as int].deep_view());
        rules[i].to_tokens(tokens);
        if i + 1 < rules.len() || trailing {
            push_punct(tokens, ';', PunctSpacing::Alone);
            proof {
                let more = done + rule_tokens(rest[0]) + separator();
                assert(tokens.deep_view() =~= before + more);
                if i + 1 == rules.len() {
                    assert(rules_tokens(all.skip(i + 1), trailing) =~= Seq::empty());
                }
                assert(rules_tokens(all, trailing) =~= more + rules_tokens(
                    all.skip(i + 1),
                    trailing,
                ));
                done = more;
            }
        } else {
            proof {
                let more = done + rule_tokens(rest[0]);
                assert(tokens.deep_view() =~= before + more);
                assert(rules_tokens(all.skip(i + 1), trailing) =~= Seq::empty());
                assert(rules_tokens(all, trailing) =~= more + rules_tokens(
                    all.skip(i + 1),
                    trailing,
                ));
                done = more;
            }
        }
        i += 1;
    }
    proof {
        assert(rules_tokens(all.skip(i as int), trailing) =~= Seq::empty());
        assert(done =~= rules_tokens(all, trailing));
    }
}

impl Clone for MacroRules {
    fn clone(&self) -> (copy: Self)
        ensures
            copy.deep_view() == self.deep_view(),
    {
        MacroRules {
            attrs: copy_attrs(&self.attrs),
            path: self.path.clone(),
            ident: self.ident.clone(),
            delimiter: self.delimiter,
            rules: copy_rules(&self.rules),
            trailing_separator: self.trailing_separator,
            semi_token: self.semi_token,
        }
    }
}

impl MacroRules {
    /// Appends the tokens of the definition to `tokens`: the attributes, the
    /// path, `!`, the name, the rules in their brackets and the `;` after
    /// them, where there is one.
    pub fn to_tokens(&self, tokens: &mut Vec<Token>)
        ensures
            final(tokens).deep_view() == old(tokens).deep_view() + macro_rules_tokens(
                self.deep_view(),
            ),
    {
        let ghost before = tokens.deep_view();
        attrs_to_tokens(&self.attrs, tokens);
        self.path.to_tokens(tokens);
        push_punct(tokens, '!', PunctSpacing::Alone);
        push_ident(tokens, self.ident.as_str());
        let mut content: Vec<Token> = Vec::new();
        assert(content.deep_view() =~= Seq::empty());
        rules_to_tokens(&self.rules, self.trailing_separator, &mut content);
        assert(content.deep_view() =~= rules_tokens(
            self.rules.deep_view(),
            self.trailing_separator,
        ));
        macro_delimiter_surround(&self.delimiter, tokens, content);
        if self.semi_token {
            push_punct(tokens, ';', PunctSpacing::Alone);
        }
        assert(tokens.deep_view() =~= before + macro_rules_tokens(self.deep_view()));
    }
}

} // verus!

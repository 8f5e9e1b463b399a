//! Printing and parsing undo each other.

use crate::grammar::{
    attrs_spec, delimited_at, double_colon_at, fat_arrow_at, is_reserved, is_segment_text,
    macro_delimiter, name_at, parse_spec, path_spec, punct_at, rule_spec, rules_spec,
    segment_at, segments_spec, ParseErrorSpec,
};
use crate::macro_rules::{
    attribute_tokens, attrs_tokens, double_colon, group_delimiter, macro_rules_tokens,
    path_tokens, rule_tokens, rules_tokens, segments_tokens, separator, AttributeSpec,
    MacroDelimiter, MacroRulesSpec, PathSpec, RuleSpec,
};
use crate::token::{GroupDelimiter, PunctSpacing, TokenSpec};
use vstd::prelude::*;

verus! {

/// A path that can be parsed again: at least one segment, each a word that
/// can stand in a path.
pub open spec fn path_wf(path: PathSpec) -> bool {
    &&& path.segments.len() > 0
    &&& forall|i: int| 0 <= i < path.segments.len() ==> is_segment_text(#[trigger] path.segments[i])
}

/// An attribute that can be parsed again: its path can, and its tokens do
/// not go on with `::`.
pub open spec fn attribute_wf(attribute: AttributeSpec) -> bool {
    &&& path_wf(attribute.path)
    &&& !double_colon_at(attribute.tokens, 0)
}

/// A macro definition that can be parsed again: its attributes and its path
/// can, its name is not a reserved word, and a `;` after the last rule needs
/// a rule before it.
pub open spec fn macro_rules_wf(mac_rules: MacroRulesSpec) -> bool {
    &&& forall|i: int|
        0 <= i < mac_rules.attrs.len() ==> attribute_wf(#[trigger] mac_rules.attrs[i])
    &&& path_wf(mac_rules.path)
    &&& !is_reserved(mac_rules.ident)
    &&& mac_rules.trailing_separator ==> mac_rules.rules.len() > 0
}

proof fn lemma_segments_tokens_len(segments: Seq<Seq<char>>)
    requires
        segments.len() > 0,
    ensures
        segments_tokens(segments).len() == 3 * segments.len() - 2,
        segments_tokens(segments)[0] == TokenSpec::Ident(segments[0]),
    decreases segments.len(),
{
    if segments.len() > 1 {
        lemma_segments_tokens_len(segments.drop_first());
    }
}

proof fn lemma_segments_parse(
    stream: Seq<TokenSpec>,
    at: int,
    segments: Seq<Seq<char>>,
)
    requires
        segments.len() > 0,
        forall|i: int| 0 <= i < segments.len() ==> is_segment_text(#[trigger] segments[i]),
        0 <= at,
        at + segments_tokens(segments).len() <= stream.len(),
        stream.subrange(at, at + segments_tokens(segments).len()) == segments_tokens(segments),
        !double_colon_at(stream, at + segments_tokens(segments).len()),
    ensures
        segments_spec(stream, at) == Ok::<_, ParseErrorSpec>(
            (segments, at + segments_tokens(segments).len()),
        ),
    decreases segments.len(),
{
    let printed = segments_tokens(segments);
    let n = printed.len() as int;
    lemma_segments_tokens_len(segments);
    assert(stream[at] == stream.subrange(at, at + n)[0]);
    assert(segment_at(stream, at));
    if segments.len() == 1 {
        assert(segments =~= seq![segments[0]]);
    } else {
        let rest = segments.drop_first();
        lemma_segments_tokens_len(rest);
        let rest_printed = segments_tokens(rest);
        assert(printed == seq![TokenSpec::Ident(segments[0])] + double_colon() + rest_printed);
        assert(stream[at + 1] == stream.subrange(at, at + n)[1]);
        assert(stream[at + 2] == stream.subrange(at, at + n)[2]);
        assert(double_colon_at(stream, at + 1));
        assert(stream.subrange(at + 3, at + 3 + rest_printed.len()) =~= rest_printed) by {
            assert forall|k: int| 0 <= k < rest_printed.len() implies stream.subrange(
                at + 3,
                at + 3 + rest_printed.len(),
            )[k] == rest_printed[k] by {
                assert(stream.subrange(at, at + n)[k + 3] == printed[k + 3]);
            }
        }
        assert forall|i: int| 0 <= i < rest.len() implies is_segment_text(#[trigger] rest[i]) by {
            assert(rest[i] == segments[i + 1]);
        }
        lemma_segments_parse(stream, at + 3, rest);
        assert(seq![segments[0]] + rest =~= segments);
    }
}

proof fn lemma_path_parse(stream: Seq<TokenSpec>, at: int, path: PathSpec)
    requires
        path_wf(path),
        0 <= at,
        at + path_tokens(path).len() <= stream.len(),
        stream.subrange(at, at + path_tokens(path).len()) == path_tokens(path),
        !double_colon_at(stream, at + path_tokens(path).len()),
    ensures
        path_spec(stream, at) == Ok::<_, ParseErrorSpec>((path, at + path_tokens(path).len())),
        path_tokens(path).len() > 0,
        !punct_at(path_tokens(path), 0, '#'),
{
    let printed = path_tokens(path);
    let n = printed.len() as int;
    let inner = segments_tokens(path.segments);
    lemma_segments_tokens_len(path.segments);
    assert(stream[at] == stream.subrange(at, at + n)[0]);
    if path.leading_colon {
        assert(stream[at + 1] == stream.subrange(at, at + n)[1]);
        assert(double_colon_at(stream, at));
        assert(stream.subrange(at + 2, at + 2 + inner.len()) =~= inner) by {
            assert forall|k: int| 0 <= k < inner.len() implies stream.subrange(
                at + 2,
                at + 2 + inner.len(),
            )[k] == inner[k] by {
                assert(stream.subrange(at, at + n)[k + 2] == printed[k + 2]);
            }
        }
        lemma_segments_parse(stream, at + 2, path.segments);
    } else {
        assert(!double_colon_at(stream, at));
        lemma_segments_parse(stream, at, path.segments);
    }
}

proof fn lemma_attrs_tokens_len(attrs: Seq<AttributeSpec>)
    ensures
        attrs_tokens(attrs).len() == 2 * attrs.len(),
    decreases attrs.len(),
{
    if attrs.len() > 0 {
        lemma_attrs_tokens_len(attrs.drop_first());
    }
}

proof fn lemma_attrs_parse(stream: Seq<TokenSpec>, at: int, attrs: Seq<AttributeSpec>)
    requires
        forall|i: int| 0 <= i < attrs.len() ==> attribute_wf(#[trigger] attrs[i]),
        0 <= at,
        at + attrs_tokens(attrs).len() <= stream.len(),
        stream.subrange(at, at + attrs_tokens(attrs).len()) == attrs_tokens(attrs),
        !punct_at(stream, at + attrs_tokens(attrs).len(), '#'),
    ensures
        attrs_spec(stream, at) == Ok::<_, ParseErrorSpec>((attrs, at + attrs_tokens(attrs).len())),
    decreases attrs.len(),
{
    let printed = attrs_tokens(attrs);
    let n = printed.len() as int;
    lemma_attrs_tokens_len(attrs);
    if attrs.len() > 0 {
        let first = attrs[0];
        let rest = attrs.drop_first();
        lemma_attrs_tokens_len(rest);
        let rest_printed = attrs_tokens(rest);
        assert(printed == attribute_tokens(first) + rest_printed);
        assert(stream[at] == stream.subrange(at, at + n)[0]);
        assert(stream[at + 1] == stream.subrange(at, at + n)[1]);
        let head = path_tokens(first.path);
        let content = head + first.tokens;
        assert(stream[at + 1] == TokenSpec::Group(GroupDelimiter::Bracket, content));
        assert(attribute_wf(first));
        assert(!double_colon_at(content, head.len() as int)) by {
            if double_colon_at(content, head.len() as int) {
                assert(content[head.len() as int] == first.tokens[0]);
                assert(content[head.len() as int + 1] == first.tokens[1]);
                assert(double_colon_at(first.tokens, 0));
            }
        }
        assert(content.subrange(0, head.len() as int) =~= head);
        lemma_path_parse(content, 0, first.path);
        assert(content.skip(head.len() as int) =~= first.tokens);
        assert(stream.subrange(at + 2, at + 2 + rest_printed.len()) =~= rest_printed) by {
            assert forall|k: int| 0 <= k < rest_printed.len() implies stream.subrange(
                at + 2,
                at + 2 + rest_printed.len(),
            )[k] == rest_printed[k] by {
                assert(stream.subrange(at, at + n)[k + 2] == printed[k + 2]);
            }
        }
        assert forall|i: int| 0 <= i < rest.len() implies attribute_wf(#[trigger] rest[i]) by {
            assert(rest[i] == attrs[i + 1]);
        }
        lemma_attrs_parse(stream, at + 2, rest);
        assert(seq![first] + rest =~= attrs);
        assert(seq![AttributeSpec { path: first.path, tokens: first.tokens }] == seq![first]);
    } else {
        assert(attrs =~= Seq::empty());
    }
}

proof fn lemma_delimiters(delimiter: MacroDelimiter)
    ensures
        group_delimiter(delimiter) != GroupDelimiter::Invisible,
        macro_delimiter(group_delimiter(delimiter)) == Some(delimiter),
{
}

proof fn lemma_rule_parse(stream: Seq<TokenSpec>, at: int, rule: RuleSpec)
    requires
        0 <= at,
        at + 4 <= stream.len(),
        stream.subrange(at, at + 4) == rule_tokens(rule),
    ensures
        rule_spec(stream, at) == Ok::<_, ParseErrorSpec>((rule, at + 4)),
{
    lemma_delimiters(rule.rule_delimiter);
    lemma_delimiters(rule.body_delimiter);
    assert(stream[at] == stream.subrange(at, at + 4)[0]);
    assert(stream[at + 1] == stream.subrange(at, at + 4)[1]);
    assert(stream[at + 2] == stream.subrange(at, at + 4)[2]);
    assert(stream[at + 3] == stream.subrange(at, at + 4)[3]);
    assert(delimited_at(stream, at));
    assert(fat_arrow_at(stream, at + 1));
    assert(delimited_at(stream, at + 3));
}

proof fn lemma_rules_tokens_len(rules: Seq<RuleSpec>, trailing: bool)
    ensures
        rules.len() > 0 ==> rules_tokens(rules, trailing).len() == 5 * rules.len() - (if trailing {
            0int
        } else {
            1int
        }),
        rules.len() == 0 ==> rules_tokens(rules, trailing).len() == 0,
    decreases rules.len(),
{
    if rules.len() > 1 {
        lemma_rules_tokens_len(rules.drop_first(), trailing);
    }
}

proof fn lemma_rules_parse(stream: Seq<TokenSpec>, at: int, rules: Seq<RuleSpec>, trailing: bool)
    requires
        0 <= at <= stream.len(),
        stream.subrange(at, stream.len() as int) == rules_tokens(rules, trailing),
        trailing ==> rules.len() > 0,
    ensures
        rules_spec(stream, at) == Ok::<_, ParseErrorSpec>((rules, trailing)),
    decreases rules.len(),
{
    let printed = rules_tokens(rules, trailing);
    let end = stream.len() as int;
    lemma_rules_tokens_len(rules, trailing);
    assert(stream.subrange(at, end).len() == end - at);
    if rules.len() == 0 {
        assert(rules =~= Seq::empty());
    } else {
        let first = rules[0];
        assert(stream.subrange(at, at + 4) =~= rule_tokens(first)) by {
            assert forall|k: int| 0 <= k < 4 implies stream.subrange(at, at + 4)[k] == rule_tokens(
                first,
            )[k] by {
                assert(stream.subrange(at, end)[k] == printed[k]);
            }
        }
        lemma_rule_parse(stream, at, first);
        if rules.len() == 1 {
            assert(rules =~= seq![first]);
            if trailing {
                assert(stream[at + 4] == stream.subrange(at, end)[4]);
            }
        } else {
            let rest = rules.drop_first();
            lemma_rules_tokens_len(rest, trailing);
            let rest_printed = rules_tokens(rest, trailing);
            assert(printed == rule_tokens(first) + separator() + rest_printed);
            assert(stream[at + 4] == stream.subrange(at, end)[4]);
            assert(stream.subrange(at + 5, end) =~= rest_printed) by {
                assert forall|k: int| 0 <= k < rest_printed.len() implies stream.subrange(
                    at + 5,
                    end,
                )[k] == rest_printed[k] by {
                    assert(stream.subrange(at, end)[k + 5] == printed[k + 5]);
                }
            }
            lemma_rules_parse(stream, at + 5, rest, trailing);
            assert(seq![first] + rest =~= rules);
        }
    }
}

/// What is printed can be parsed again, and gives back the definition that
/// was printed.
pub proof fn lemma_print_then_parse(mac_rules: MacroRulesSpec)
    requires
        macro_rules_wf(mac_rules),
    ensures
        parse_spec(macro_rules_tokens(mac_rules)) == Ok::<_, ParseErrorSpec>(mac_rules),
{
    let stream = macro_rules_tokens(mac_rules);
    let attrs = attrs_tokens(mac_rules.attrs);
    let path = path_tokens(mac_rules.path);
    let inside = rules_tokens(mac_rules.rules, mac_rules.trailing_separator);
    let group = TokenSpec::Group(group_delimiter(mac_rules.delimiter), inside);
    let a = attrs.len() as int;
    let p = a + path.len();
    lemma_segments_tokens_len(mac_rules.path.segments);
    lemma_delimiters(mac_rules.delimiter);
    assert(path.len() > 0);
    assert(stream[a] == path[0]);
    assert(!punct_at(stream, a, '#'));
    assert(stream.subrange(0, a) =~= attrs);
    lemma_attrs_parse(stream, 0, mac_rules.attrs);
    assert(stream.subrange(a, p) =~= path);
    assert(stream[p] == TokenSpec::Punct('!', PunctSpacing::Alone));
    lemma_path_parse(stream, a, mac_rules.path);
    assert(stream[p + 1] == TokenSpec::Ident(mac_rules.ident));
    assert(stream[p + 2] == group);
    assert(punct_at(stream, p, '!'));
    assert(name_at(stream, p + 1));
    assert(delimited_at(stream, p + 2));
    assert(inside.subrange(0, inside.len() as int) =~= inside);
    lemma_rules_parse(inside, 0, mac_rules.rules, mac_rules.trailing_separator);
    if mac_rules.semi_token {
        assert(stream[p + 3] == TokenSpec::Punct(';', PunctSpacing::Alone));
        assert(stream.len() == p + 4);
    } else {
        assert(stream.len() == p + 3);
    }
}

/// Whether the punctuation token at place `i` is joined to a punctuation
/// token after it.
pub open spec fn joins_next(stream: Seq<TokenSpec>, i: int) -> bool {
    &&& 0 <= i
    &&& i + 1 < stream.len()
    &&& stream[i] matches TokenSpec::Punct(_, spacing)
    &&& spacing == PunctSpacing::Joint
    &&& stream[i + 1] is Punct
}

/// The token at place `i` as a printer spaces it: a punctuation token is
/// joined to what follows only where a punctuation token follows.
pub open spec fn plain_token(stream: Seq<TokenSpec>, i: int) -> TokenSpec {
    match stream[i] {
        TokenSpec::Punct(ch, _) => TokenSpec::Punct(
            ch,
            if joins_next(stream, i) {
                PunctSpacing::Joint
            } else {
                PunctSpacing::Alone
            },
        ),
        token => token,
    }
}

/// The tokens of the stream as a printer spaces them. Groups stay as they are.
pub open spec fn plain(stream: Seq<TokenSpec>) -> Seq<TokenSpec> {
    Seq::new(stream.len(), |i: int| plain_token(stream, i))
}

/// The inside of an attribute's brackets, with its path as a printer spaces it.
pub open spec fn plain_attribute(content: Seq<TokenSpec>) -> Seq<TokenSpec> {
    match path_spec(content, 0) {
        Ok((_, used)) => plain(content).take(used) + content.skip(used),
        Err(_) => content,
    }
}

/// The place of the group that holds the rules: the last token of a
/// definition, or the one before a last `;`.
pub open spec fn rules_place(stream: Seq<TokenSpec>) -> int {
    if stream.len() > 0 && stream.last() is Group {
        stream.len() - 1
    } else {
        stream.len() - 2
    }
}

/// The token at place `i` of a definition as a printer spaces it, within
/// the group of the rules and within the path of an attribute too.
pub open spec fn respelled_token(stream: Seq<TokenSpec>, i: int) -> TokenSpec {
    match stream[i] {
        TokenSpec::Group(delimiter, inside) => if i == rules_place(stream) {
            TokenSpec::Group(delimiter, plain(inside))
        } else {
            TokenSpec::Group(delimiter, plain_attribute(inside))
        },
        _ => plain_token(stream, i),
    }
}

/// The tokens of a definition as a printer spaces them: the stream itself,
/// but that a punctuation token which the grammar reads is joined to what
/// follows only where a punctuation token follows. Patterns, bodies and what
/// follows the path of an attribute stay as they are.
pub open spec fn respelled(stream: Seq<TokenSpec>) -> Seq<TokenSpec> {
    Seq::new(stream.len(), |i: int| respelled_token(stream, i))
}

proof fn lemma_segments_print(stream: Seq<TokenSpec>, at: int)
    requires
        0 <= at,
        segments_spec(stream, at) is Ok,
    ensures
        ({
            let (segments, end) = segments_spec(stream, at)->Ok_0;
            &&& segments.len() > 0
            &&& forall|i: int| 0 <= i < segments.len() ==> is_segment_text(#[trigger] segments[i])
            &&& at < end <= stream.len()
            &&& !double_colon_at(stream, end)
            &&& stream[end - 1] is Ident
            &&& forall|i: int| at <= i < end ==> !(#[trigger] stream[i] is Group)
            &&& plain(stream).subrange(at, end) == segments_tokens(segments)
        }),
    decreases stream.len() - at,
{
    let (segments, end) = segments_spec(stream, at)->Ok_0;
    let name = stream[at]->Ident_0;
    if double_colon_at(stream, at + 1) {
        let found = segments_spec(stream, at + 3);
        assert(found is Ok);
        lemma_segments_print(stream, at + 3);
        let (rest, rest_end) = found->Ok_0;
        assert(segments == seq![name] + rest);
        assert(end == rest_end);
        assert(segments.drop_first() =~= rest);
        assert(segment_at(stream, at + 3));
        let printed = seq![TokenSpec::Ident(name)] + double_colon() + segments_tokens(rest);
        assert(segments_tokens(segments) == printed);
        assert(plain(stream).subrange(at, end) =~= printed) by {
            assert(plain(stream).subrange(at, end).len() == printed.len());
            assert forall|k: int| 0 <= k < printed.len() implies plain(stream).subrange(at, end)[k]
                == printed[k] by {
                if k >= 3 {
                    assert(plain(stream).subrange(at + 3, end)[k - 3] == segments_tokens(rest)[k
                        - 3]);
                }
            }
        }
        assert forall|i: int| 0 <= i < segments.len() implies is_segment_text(
            #[trigger] segments[i],
        ) by {
            if i > 0 {
                assert(segments[i] == rest[i - 1]);
            }
        }
    } else {
        assert(segments == seq![name]);
        assert(plain(stream).subrange(at, end) =~= segments_tokens(segments));
    }
}

proof fn lemma_path_print(stream: Seq<TokenSpec>, at: int)
    requires
        0 <= at,
        path_spec(stream, at) is Ok,
    ensures
        ({
            let (path, end) = path_spec(stream, at)->Ok_0;
            &&& path_wf(path)
            &&& at < end <= stream.len()
            &&& !double_colon_at(stream, end)
            &&& !punct_at(stream, at, '#')
            &&& stream[end - 1] is Ident
            &&& forall|i: int| at <= i < end ==> !(#[trigger] stream[i] is Group)
            &&& plain(stream).subrange(at, end) == path_tokens(path)
        }),
{
    let (path, end) = path_spec(stream, at)->Ok_0;
    if double_colon_at(stream, at) {
        lemma_segments_print(stream, at + 2);
        assert(segment_at(stream, at + 2));
        let inner = segments_tokens(path.segments);
        assert(plain(stream).subrange(at, end) =~= double_colon() + inner) by {
            assert forall|k: int| 0 <= k < end - at implies plain(stream).subrange(at, end)[k] == (
            double_colon() + inner)[k] by {
                if k >= 2 {
                    assert(plain(stream).subrange(at + 2, end)[k - 2] == inner[k - 2]);
                }
            }
        }
    } else {
        lemma_segments_print(stream, at);
    }
}

/// The attributes of the stream between two places, each as a printer spaces
/// it: `#` alone, and the brackets with a plain path.
pub open spec fn plain_attrs(stream: Seq<TokenSpec>, from: int, to: int) -> Seq<TokenSpec> {
    Seq::new(
        (to - from) as nat,
        |k: int|
            match stream[from + k] {
                TokenSpec::Group(delimiter, inside) => TokenSpec::Group(
                    delimiter,
                    plain_attribute(inside),
                ),
                _ => plain_token(stream, from + k),
            },
    )
}

proof fn lemma_attrs_print(stream: Seq<TokenSpec>, at: int)
    requires
        0 <= at <= stream.len(),
        attrs_spec(stream, at) is Ok,
    ensures
        ({
            let (attrs, end) = attrs_spec(stream, at)->Ok_0;
            &&& forall|i: int| 0 <= i < attrs.len() ==> attribute_wf(#[trigger] attrs[i])
            &&& at <= end <= stream.len()
            &&& !punct_at(stream, end, '#')
            &&& plain_attrs(stream, at, end) == attrs_tokens(attrs)
        }),
    decreases stream.len() - at,
{
    let (attrs, end) = attrs_spec(stream, at)->Ok_0;
    if punct_at(stream, at, '#') {
        let content = stream[at + 1]->Group_1;
        let parsed = path_spec(content, 0);
        assert(parsed is Ok);
        let (path, used) = parsed->Ok_0;
        lemma_path_print(content, 0);
        let found = attrs_spec(stream, at + 2);
        assert(found is Ok);
        lemma_attrs_print(stream, at + 2);
        let (rest, rest_end) = found->Ok_0;
        let first = AttributeSpec { path, tokens: content.skip(used) };
        assert(attrs == seq![first] + rest);
        assert(attrs.drop_first() =~= rest);
        assert(end == rest_end);
        assert(attribute_wf(first)) by {
            if double_colon_at(first.tokens, 0) {
                assert(first.tokens[0] == content[used]);
                assert(first.tokens[1] == content[used + 1]);
                assert(double_colon_at(content, used));
            }
        }
        assert forall|i: int| 0 <= i < attrs.len() implies attribute_wf(#[trigger] attrs[i]) by {
            if i > 0 {
                assert(attrs[i] == rest[i - 1]);
            }
        }
        assert(plain(content).take(used) =~= plain(content).subrange(0, used));
        assert(plain_attribute(content) == path_tokens(path) + first.tokens);
        let printed = attribute_tokens(first) + attrs_tokens(rest);
        assert(attrs_tokens(attrs) == printed);
        assert(plain_attrs(stream, at, end) =~= printed) by {
            assert(plain_attrs(stream, at + 2, end).len() == attrs_tokens(rest).len());
            assert forall|k: int| 0 <= k < end - at implies plain_attrs(stream, at, end)[k]
                == printed[k] by {
                if k >= 2 {
                    assert(plain_attrs(stream, at + 2, end)[k - 2] == attrs_tokens(rest)[k - 2]);
                }
            }
        }
    } else {
        assert(plain_attrs(stream, at, end) =~= attrs_tokens(attrs));
    }
}

proof fn lemma_delimiters_back(delimiter: GroupDelimiter)
    requires
        delimiter != GroupDelimiter::Invisible,
    ensures
        group_delimiter(macro_delimiter(delimiter)->0) == delimiter,
{
}

proof fn lemma_rule_print(stream: Seq<TokenSpec>, at: int)
    requires
        0 <= at,
        rule_spec(stream, at) is Ok,
    ensures
        ({
            let (rule, end) = rule_spec(stream, at)->Ok_0;
            &&& end == at + 4
            &&& end <= stream.len()
            &&& plain(stream).subrange(at, end) == rule_tokens(rule)
        }),
{
    let (rule, end) = rule_spec(stream, at)->Ok_0;
    assert(delimited_at(stream, at));
    assert(fat_arrow_at(stream, at + 1));
    assert(delimited_at(stream, at + 3));
    lemma_delimiters_back(stream[at]->Group_0);
    lemma_delimiters_back(stream[at + 3]->Group_0);
    assert(plain(stream).subrange(at, end) =~= rule_tokens(rule));
}

proof fn lemma_rules_print(stream: Seq<TokenSpec>, at: int)
    requires
        0 <= at <= stream.len(),
        rules_spec(stream, at) is Ok,
    ensures
        ({
            let (rules, trailing) = rules_spec(stream, at)->Ok_0;
            &&& trailing ==> rules.len() > 0
            &&& plain(stream).subrange(at, stream.len() as int) == rules_tokens(rules, trailing)
        }),
    decreases stream.len() - at,
{
    let (rules, trailing) = rules_spec(stream, at)->Ok_0;
    let end = stream.len() as int;
    if at >= stream.len() {
        assert(plain(stream).subrange(at, end) =~= rules_tokens(rules, trailing));
    } else {
        let parsed = rule_spec(stream, at);
        assert(parsed is Ok);
        lemma_rule_print(stream, at);
        let (rule, next) = parsed->Ok_0;
        let head = rule_tokens(rule);
        assert(plain(stream).subrange(at, at + 4) == head);
        if next >= stream.len() {
            assert(rules == seq![rule]);
            assert(plain(stream).subrange(at, end) =~= rules_tokens(rules, trailing));
        } else if next + 1 >= stream.len() {
            assert(rules == seq![rule]);
            assert(plain(stream).subrange(at, end) =~= head + separator()) by {
                assert forall|k: int| 0 <= k < 5 implies plain(stream).subrange(at, end)[k] == (head
                    + separator())[k] by {
                    if k < 4 {
                        assert(plain(stream).subrange(at, at + 4)[k] == head[k]);
                    }
                }
            }
        } else {
            let found = rules_spec(stream, next + 1);
            assert(found is Ok);
            lemma_rules_print(stream, next + 1);
            let (rest, rest_trailing) = found->Ok_0;
            assert(rules == seq![rule] + rest);
            assert(rules.drop_first() =~= rest);
            assert(rule_spec(stream, next + 1) is Ok);
            assert(rest.len() > 0);
            let tail = rules_tokens(rest, trailing);
            let printed = head + separator() + tail;
            assert(rules_tokens(rules, trailing) == printed);
            assert(delimited_at(stream, next + 1));
            assert(plain(stream).subrange(at, end) =~= printed) by {
                assert(plain(stream).subrange(at + 5, end).len() == tail.len());
                assert forall|k: int| 0 <= k < end - at implies plain(stream).subrange(at, end)[k]
                    == printed[k] by {
                    if k < 4 {
                        assert(plain(stream).subrange(at, at + 4)[k] == head[k]);
                    } else if k >= 5 {
                        assert(plain(stream).subrange(at + 5, end)[k - 5] == tail[k - 5]);
                    }
                }
            }
        }
    }
}

/// What is parsed is a definition that can be parsed again, and printing it
/// gives the stream back as a printer spaces it.
pub proof fn lemma_parse_then_print(stream: Seq<TokenSpec>)
    requires
        parse_spec(stream) is Ok,
    ensures
        macro_rules_wf(parse_spec(stream)->Ok_0),
        macro_rules_tokens(parse_spec(stream)->Ok_0) == respelled(stream),
{
    let mac_rules = parse_spec(stream)->Ok_0;
    let found_attrs = attrs_spec(stream, 0);
    assert(found_attrs is Ok);
    lemma_attrs_print(stream, 0);
    let (attrs, a) = found_attrs->Ok_0;
    let found_path = path_spec(stream, a);
    assert(found_path is Ok);
    lemma_path_print(stream, a);
    let (path, p) = found_path->Ok_0;
    assert(punct_at(stream, p, '!'));
    assert(name_at(stream, p + 1));
    assert(delimited_at(stream, p + 2));
    let content = stream[p + 2]->Group_1;
    assert(rules_spec(content, 0) is Ok);
    lemma_rules_print(content, 0);
    lemma_delimiters_back(stream[p + 2]->Group_0);
    assert(plain(content).subrange(0, content.len() as int) =~= plain(content));
    assert(rules_place(stream) == p + 2);
    let printed = macro_rules_tokens(mac_rules);
    let head = attrs_tokens(attrs);
    let middle = path_tokens(path);
    assert(head.len() == a);
    assert(middle.len() == p - a);
    assert(printed.len() == stream.len());
    let tail = seq![
        TokenSpec::Punct('!', PunctSpacing::Alone),
        TokenSpec::Ident(mac_rules.ident),
        TokenSpec::Group(
            group_delimiter(mac_rules.delimiter),
            rules_tokens(mac_rules.rules, mac_rules.trailing_separator),
        ),
    ];
    assert(printed == if mac_rules.semi_token {
        head + middle + tail + separator()
    } else {
        head + middle + tail
    });
    assert forall|k: int| 0 <= k < stream.len() implies printed[k] == respelled(stream)[k] by {
        if k < a {
            assert(plain_attrs(stream, 0, a)[k] == head[k]);
            assert(printed[k] == head[k]);
        } else if k < p {
            assert(plain(stream).subrange(a, p)[k - a] == middle[k - a]);
            assert(printed[k] == middle[k - a]);
            assert(!(stream[k] is Group));
        } else if k < p + 3 {
            assert(printed[k] == tail[k - p]);
        } else {
            assert(printed[k] == separator()[0]);
        }
    }
    assert(printed =~= respelled(stream));
}

/// Every punctuation token of the stream that is joined to the next token
/// stands before a punctuation token. Within groups anything goes.
pub open spec fn spaced_plainly(stream: Seq<TokenSpec>) -> bool {
    forall|i: int|
        0 <= i < stream.len() && (#[trigger] stream[i] matches TokenSpec::Punct(_, spacing)
            && spacing == PunctSpacing::Joint) ==> joins_next(stream, i)
}

proof fn lemma_plain_of_spaced_plainly(stream: Seq<TokenSpec>)
    requires
        spaced_plainly(stream),
    ensures
        plain(stream) == stream,
{
    assert forall|i: int| 0 <= i < stream.len() implies plain_token(stream, i) == stream[i] by {
        match stream[i] {
            TokenSpec::Punct(ch, spacing) => {
                if spacing == PunctSpacing::Joint {
                    assert(joins_next(stream, i));
                }
            },
            _ => {},
        }
    }
    assert(plain(stream) =~= stream);
}

/// A stream is spaced as a printer spaces it where it is spaced plainly, and
/// each group of it is spaced plainly inside: in the text of a program, that
/// is each stream without a lifetime in these places.
pub proof fn lemma_spaced_plainly_is_respelled(stream: Seq<TokenSpec>)
    requires
        spaced_plainly(stream),
        forall|i: int|
            0 <= i < stream.len() && (#[trigger] stream[i] is Group) ==> spaced_plainly(
                stream[i]->Group_1,
            ),
    ensures
        respelled(stream) == stream,
{
    lemma_plain_of_spaced_plainly(stream);
    assert forall|i: int| 0 <= i < stream.len() implies respelled_token(stream, i)
        == stream[i] by {
        match stream[i] {
            TokenSpec::Group(delimiter, inside) => {
                assert(stream[i] is Group);
                lemma_plain_of_spaced_plainly(inside);
                if path_spec(inside, 0) is Ok {
                    lemma_path_print(inside, 0);
                    let used = path_spec(inside, 0)->Ok_0.1;
                    assert(inside.take(used) + inside.skip(used) =~= inside);
                }
            },
            _ => {
                assert(plain(stream)[i] == stream[i]);
            },
        }
    }
    assert(respelled(stream) =~= stream);
}

/// Parsing and then printing gives the stream back, token for token, where
/// it is spaced as a printer spaces it.
pub proof fn lemma_parse_then_print_identity(stream: Seq<TokenSpec>)
    requires
        parse_spec(stream) is Ok,
        respelled(stream) == stream,
    ensures
        macro_rules_tokens(parse_spec(stream)->Ok_0) == stream,
{
    lemma_parse_then_print(stream);
}

} // verus!

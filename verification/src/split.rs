//! The split of a macro definition in three: what each of the three
//! definitions holds, and what holds of the split.

use crate::config::{config_after, config_spec, path_is, path_is_ident, ArgumentSpec, ConfigSpec};
use crate::grammar::{is_reserved, parse_spec, ParseErrorSpec};
use crate::macro_rules::{
    attribute_tokens, attrs_tokens, macro_rules_tokens, path_tokens, segments_tokens, Attribute,
    AttributeSpec, MacroRulesSpec, PathSpec, RuleSpec,
};
use crate::replace_macro_invocs::{replaced, starts_with_marker};
use crate::round_trip::{attribute_wf, lemma_print_then_parse, macro_rules_wf};
use crate::text::text_starts_with;
use crate::token::{
    push_group, push_ident, push_punct, GroupDelimiter, PunctSpacing, Token, TokenSpec,
};
use vstd::prelude::*;

verus! {

/// The marker of internal rules where none is given: the token `@`.
pub open spec fn default_marker() -> Seq<TokenSpec> {
    seq![TokenSpec::Punct('@', PunctSpacing::Joint)]
}

/// The name without the `r#` of a raw identifier.
pub open spec fn unraw(name: Seq<char>) -> Seq<char> {
    if "r#"@.is_prefix_of(name) {
        name.skip(2)
    } else {
        name
    }
}

/// The name of the hidden macro where none is given: `__` before the
/// macro's name.
pub open spec fn default_internal(name: Seq<char>) -> Seq<char> {
    "__"@ + unraw(name)
}

/// The marker that the options ask for.
pub open spec fn marker_of(config: ConfigSpec) -> Seq<TokenSpec> {
    match config.priv_marker {
        Some(marker) => marker,
        None => default_marker(),
    }
}

/// The name of the hidden macro that the options ask for.
pub open spec fn internal_of(config: ConfigSpec, name: Seq<char>) -> Seq<char> {
    match config.priv_ident {
        Some(ident) => ident,
        None => default_internal(name),
    }
}

/// The rule with the invocations of internal rules in its body redirected.
pub open spec fn rewritten_rule(
    rule: RuleSpec,
    public: Seq<char>,
    internal: Seq<char>,
    marker: Seq<TokenSpec>,
) -> RuleSpec {
    RuleSpec { body: replaced(rule.body, public, internal, marker), ..rule }
}

/// Whether the rule is internal: the text of its pattern starts with the
/// text of the marker.
pub open spec fn is_internal_rule(rule: RuleSpec, marker: Seq<TokenSpec>) -> bool {
    starts_with_marker(rule.rule, marker)
}

/// Of the first `n` rules, in their order and rewritten, the internal ones
/// where `want_internal` holds, else the others.
pub open spec fn rules_split(
    rules: Seq<RuleSpec>,
    n: int,
    public: Seq<char>,
    internal: Seq<char>,
    marker: Seq<TokenSpec>,
    want_internal: bool,
) -> Seq<RuleSpec>
    decreases n,
{
    if n <= 0 || n > rules.len() {
        Seq::empty()
    } else {
        let before = rules_split(rules, n - 1, public, internal, marker, want_internal);
        if is_internal_rule(rules[n - 1], marker) == want_internal {
            before.push(rewritten_rule(rules[n - 1], public, internal, marker))
        } else {
            before
        }
    }
}

/// All rules, in their order and rewritten.
pub open spec fn rewritten_rules(
    rules: Seq<RuleSpec>,
    public: Seq<char>,
    internal: Seq<char>,
    marker: Seq<TokenSpec>,
) -> Seq<RuleSpec> {
    Seq::new(rules.len(), |i: int| rewritten_rule(rules[i], public, internal, marker))
}

/// The rules of the public macro.
pub open spec fn public_rules(
    mac_rules: MacroRulesSpec,
    internal: Seq<char>,
    marker: Seq<TokenSpec>,
) -> Seq<RuleSpec> {
    rules_split(
        mac_rules.rules,
        mac_rules.rules.len() as int,
        mac_rules.ident,
        internal,
        marker,
        false,
    )
}

/// The rules of the hidden macro.
pub open spec fn internal_rules(
    mac_rules: MacroRulesSpec,
    internal: Seq<char>,
    marker: Seq<TokenSpec>,
) -> Seq<RuleSpec> {
    rules_split(
        mac_rules.rules,
        mac_rules.rules.len() as int,
        mac_rules.ident,
        internal,
        marker,
        true,
    )
}

/// Whether the attribute leaves: a `doc` attribute always, `macro_export`
/// where `drop_export` holds.
pub open spec fn attr_dropped(attribute: AttributeSpec, drop_export: bool) -> bool {
    path_is(attribute.path, "doc"@) || (drop_export && path_is(attribute.path, "macro_export"@))
}

/// Of the first `n` attributes, in their order, those that stay.
pub open spec fn attrs_kept(attrs: Seq<AttributeSpec>, n: int, drop_export: bool) -> Seq<
    AttributeSpec,
>
    decreases n,
{
    if n <= 0 || n > attrs.len() {
        Seq::empty()
    } else {
        let before = attrs_kept(attrs, n - 1, drop_export);
        if attr_dropped(attrs[n - 1], drop_export) {
            before
        } else {
            before.push(attrs[n - 1])
        }
    }
}

/// The macro as its documentation shows it: the definition with the rules
/// that are not internal.
pub open spec fn public_shell(
    mac_rules: MacroRulesSpec,
    internal: Seq<char>,
    marker: Seq<TokenSpec>,
) -> MacroRulesSpec {
    MacroRulesSpec {
        rules: public_rules(mac_rules, internal, marker),
        trailing_separator: false,
        ..mac_rules
    }
}

/// The hidden macro: the definition under the name `internal`, with the
/// internal rules, and without its documentation.
pub open spec fn hidden_definition(
    mac_rules: MacroRulesSpec,
    internal: Seq<char>,
    marker: Seq<TokenSpec>,
) -> MacroRulesSpec {
    MacroRulesSpec {
        attrs: attrs_kept(mac_rules.attrs, mac_rules.attrs.len() as int, false),
        ident: internal,
        rules: internal_rules(mac_rules, internal, marker),
        trailing_separator: false,
        ..mac_rules
    }
}

/// The macro for its own crate: the definition as it was written, without
/// its documentation and without its export.
pub open spec fn shadow(mac_rules: MacroRulesSpec) -> MacroRulesSpec {
    MacroRulesSpec {
        attrs: attrs_kept(mac_rules.attrs, mac_rules.attrs.len() as int, true),
        ..mac_rules
    }
}

/// The tokens of the attribute `#[name(argument)]`.
pub open spec fn call_attribute(name: Seq<char>, argument: Seq<char>) -> Seq<TokenSpec> {
    seq![
        TokenSpec::Punct('#', PunctSpacing::Alone),
        TokenSpec::Group(
            GroupDelimiter::Bracket,
            seq![
                TokenSpec::Ident(name),
                TokenSpec::Group(GroupDelimiter::Parenthesis, seq![TokenSpec::Ident(argument)]),
            ],
        ),
    ]
}

/// The three definitions that take the place of one: the public macro, the
/// hidden macro under `#[doc(hidden)]`, and the macro for its own crate
/// under `#[allow(unused_macros)]`.
pub open spec fn split_tokens(
    mac_rules: MacroRulesSpec,
    internal: Seq<char>,
    marker: Seq<TokenSpec>,
) -> Seq<TokenSpec> {
    macro_rules_tokens(public_shell(mac_rules, internal, marker)) + call_attribute(
        "doc"@,
        "hidden"@,
    ) + macro_rules_tokens(hidden_definition(mac_rules, internal, marker)) + call_attribute(
        "allow"@,
        "unused_macros"@,
    ) + macro_rules_tokens(shadow(mac_rules))
}

/// What the transform gives for a definition. Where it does not run, or
/// finds no internal rule, the definition as it is; else the three
/// definitions.
pub open spec fn transformed(
    config: ConfigSpec,
    documenting: bool,
    mac_rules: MacroRulesSpec,
) -> Seq<TokenSpec> {
    let marker = marker_of(config);
    let internal = internal_of(config, mac_rules.ident);
    if !config.run_always && !documenting {
        macro_rules_tokens(mac_rules)
    } else if internal_rules(mac_rules, internal, marker).len() == 0 {
        macro_rules_tokens(mac_rules)
    } else {
        split_tokens(mac_rules, internal, marker)
    }
}

/// `all` holds the items of `left` and those of `right`, each of them once,
/// and the items of each side in the order of that side.
pub open spec fn interleaves<T>(left: Seq<T>, right: Seq<T>, all: Seq<T>) -> bool
    decreases all.len(),
{
    if all.len() == 0 {
        left.len() == 0 && right.len() == 0
    } else {
        ||| (left.len() > 0 && left.last() == all.last() && interleaves(
            left.drop_last(),
            right,
            all.drop_last(),
        ))
        ||| (right.len() > 0 && right.last() == all.last() && interleaves(
            left,
            right.drop_last(),
            all.drop_last(),
        ))
    }
}

/// Where the transform is not forced and no documentation is built, it
/// gives the definition as it is.
pub proof fn lemma_transform_disabled(config: ConfigSpec, mac_rules: MacroRulesSpec)
    requires
        !config.run_always,
    ensures
        transformed(config, false, mac_rules) == macro_rules_tokens(mac_rules),
{
}

proof fn lemma_split_of_unmarked(
    rules: Seq<RuleSpec>,
    n: int,
    public: Seq<char>,
    internal: Seq<char>,
    marker: Seq<TokenSpec>,
)
    requires
        0 <= n <= rules.len(),
        forall|i: int| 0 <= i < rules.len() ==> !is_internal_rule(#[trigger] rules[i], marker),
    ensures
        rules_split(rules, n, public, internal, marker, true).len() == 0,
    decreases n,
{
    if n > 0 {
        lemma_split_of_unmarked(rules, n - 1, public, internal, marker);
    }
}

/// Where no rule has a pattern whose text starts with the text of the
/// marker, the transform gives the definition as it is.
pub proof fn lemma_no_internal_rule(
    config: ConfigSpec,
    documenting: bool,
    mac_rules: MacroRulesSpec,
)
    requires
        forall|i: int|
            0 <= i < mac_rules.rules.len() ==> !is_internal_rule(
                #[trigger] mac_rules.rules[i],
                marker_of(config),
            ),
    ensures
        transformed(config, documenting, mac_rules) == macro_rules_tokens(mac_rules),
{
    lemma_split_of_unmarked(
        mac_rules.rules,
        mac_rules.rules.len() as int,
        mac_rules.ident,
        internal_of(config, mac_rules.ident),
        marker_of(config),
    );
}

proof fn lemma_split_interleaves(
    rules: Seq<RuleSpec>,
    n: int,
    public: Seq<char>,
    internal: Seq<char>,
    marker: Seq<TokenSpec>,
)
    requires
        0 <= n <= rules.len(),
    ensures
        ({
            let left = rules_split(rules, n, public, internal, marker, false);
            let right = rules_split(rules, n, public, internal, marker, true);
            &&& interleaves(left, right, rewritten_rules(rules, public, internal, marker).take(n))
            &&& left.len() + right.len() == n
            &&& forall|i: int|
                0 <= i < left.len() ==> !is_internal_rule(#[trigger] left[i], marker)
            &&& forall|i: int|
                0 <= i < right.len() ==> is_internal_rule(#[trigger] right[i], marker)
        }),
    decreases n,
{
    let all = rewritten_rules(rules, public, internal, marker);
    if n > 0 {
        lemma_split_interleaves(rules, n - 1, public, internal, marker);
        assert(all.take(n).drop_last() =~= all.take(n - 1));
        assert(all.take(n).last() == rewritten_rule(rules[n - 1], public, internal, marker));
        let left = rules_split(rules, n, public, internal, marker, false);
        let right = rules_split(rules, n, public, internal, marker, true);
        let left_before = rules_split(rules, n - 1, public, internal, marker, false);
        let right_before = rules_split(rules, n - 1, public, internal, marker, true);
        if is_internal_rule(rules[n - 1], marker) {
            assert(right.drop_last() =~= right_before);
            assert(left == left_before);
        } else {
            assert(left.drop_last() =~= left_before);
            assert(right == right_before);
        }
    }
}

/// The split loses and repeats nothing: the rewritten rules of the
/// definition are those of the public macro and those of the hidden macro,
/// each rule once, and each macro has its rules in the order of the
/// definition. The hidden macro has the internal rules and the public macro
/// the others. The macro for its own crate keeps all rules as they were.
pub proof fn lemma_split_complete(
    mac_rules: MacroRulesSpec,
    internal: Seq<char>,
    marker: Seq<TokenSpec>,
)
    ensures
        ({
            let public = public_rules(mac_rules, internal, marker);
            let hidden = internal_rules(mac_rules, internal, marker);
            &&& interleaves(
                public,
                hidden,
                rewritten_rules(mac_rules.rules, mac_rules.ident, internal, marker),
            )
            &&& public.len() + hidden.len() == mac_rules.rules.len()
            &&& forall|i: int|
                0 <= i < public.len() ==> !is_internal_rule(#[trigger] public[i], marker)
            &&& forall|i: int|
                0 <= i < hidden.len() ==> is_internal_rule(#[trigger] hidden[i], marker)
            &&& public_shell(mac_rules, internal, marker).rules == public
            &&& hidden_definition(mac_rules, internal, marker).rules == hidden
            &&& shadow(mac_rules).rules == mac_rules.rules
        }),
{
    let all = rewritten_rules(mac_rules.rules, mac_rules.ident, internal, marker);
    lemma_split_interleaves(
        mac_rules.rules,
        mac_rules.rules.len() as int,
        mac_rules.ident,
        internal,
        marker,
    );
    assert(all.take(mac_rules.rules.len() as int) =~= all);
}

proof fn lemma_attrs_kept_wf(attrs: Seq<AttributeSpec>, n: int, drop_export: bool)
    requires
        0 <= n <= attrs.len(),
        forall|i: int| 0 <= i < attrs.len() ==> attribute_wf(#[trigger] attrs[i]),
    ensures
        forall|i: int|
            0 <= i < attrs_kept(attrs, n, drop_export).len() ==> attribute_wf(
                #[trigger] attrs_kept(attrs, n, drop_export)[i],
            ),
    decreases n,
{
    if n > 0 {
        lemma_attrs_kept_wf(attrs, n - 1, drop_export);
        let before = attrs_kept(attrs, n - 1, drop_export);
        let kept = attrs_kept(attrs, n, drop_export);
        assert forall|i: int| 0 <= i < kept.len() implies attribute_wf(#[trigger] kept[i]) by {
            if i < before.len() {
                assert(kept[i] == before[i]);
            } else {
                assert(kept[i] == attrs[n - 1]);
            }
        }
    }
}

/// The attribute `#[name(argument)]`.
pub open spec fn call_attribute_spec(name: Seq<char>, argument: Seq<char>) -> AttributeSpec {
    AttributeSpec {
        path: PathSpec { leading_colon: false, segments: seq![name] },
        tokens: seq![
            TokenSpec::Group(GroupDelimiter::Parenthesis, seq![TokenSpec::Ident(argument)]),
        ],
    }
}

/// The definition with one more attribute before its own.
pub open spec fn with_attribute(
    attribute: AttributeSpec,
    mac_rules: MacroRulesSpec,
) -> MacroRulesSpec {
    MacroRulesSpec { attrs: seq![attribute] + mac_rules.attrs, ..mac_rules }
}

proof fn lemma_reserved_words()
    ensures
        !is_reserved("doc"@),
        !is_reserved("allow"@),
        forall|name: Seq<char>| !is_reserved(#[trigger] default_internal(name)),
{
    reveal_strlit("doc");
    reveal_strlit("allow");
    reveal_strlit("__");
    reveal_strlit("_");
    reveal_strlit("abstract");
    reveal_strlit("as");
    reveal_strlit("become");
    reveal_strlit("box");
    reveal_strlit("break");
    reveal_strlit("const");
    reveal_strlit("continue");
    reveal_strlit("crate");
    reveal_strlit("do");
    reveal_strlit("else");
    reveal_strlit("enum");
    reveal_strlit("extern");
    reveal_strlit("false");
    reveal_strlit("final");
    reveal_strlit("fn");
    reveal_strlit("for");
    reveal_strlit("if");
    reveal_strlit("impl");
    reveal_strlit("in");
    reveal_strlit("let");
    reveal_strlit("loop");
    reveal_strlit("macro");
    reveal_strlit("match");
    reveal_strlit("mod");
    reveal_strlit("move");
    reveal_strlit("mut");
    reveal_strlit("override");
    reveal_strlit("priv");
    reveal_strlit("pub");
    reveal_strlit("ref");
    reveal_strlit("return");
    reveal_strlit("Self");
    reveal_strlit("self");
    reveal_strlit("static");
    reveal_strlit("struct");
    reveal_strlit("super");
    reveal_strlit("trait");
    reveal_strlit("true");
    reveal_strlit("type");
    reveal_strlit("typeof");
    reveal_strlit("unsafe");
    reveal_strlit("unsized");
    reveal_strlit("use");
    reveal_strlit("virtual");
    reveal_strlit("where");
    reveal_strlit("while");
    reveal_strlit("yield");
    assert forall|word: Seq<char>| #[trigger] is_reserved(word) implies {
        &&& word.len() > 0
        &&& word.len() != 5 || word[4] != 'w'
        &&& word.len() != 3 || word[0] != 'd'
        &&& word.len() == 1 || word[0] != '_'
    } by {}
    assert forall|name: Seq<char>| !is_reserved(#[trigger] default_internal(name)) by {
        let word = default_internal(name);
        assert(word.len() >= 2);
        assert(word[0] == "__"@[0]);
    }
}

proof fn lemma_config_ident(arguments: Seq<ArgumentSpec>, n: int)
    requires
        0 <= n <= arguments.len(),
        config_after(arguments, n) is Ok,
    ensures
        config_after(arguments, n)->Ok_0.priv_ident matches Some(ident) ==> !is_reserved(ident),
    decreases n,
{
    if n > 0 {
        lemma_config_ident(arguments, n - 1);
    }
}

/// The name of the hidden macro is never a reserved word, whatever the
/// arguments say.
pub proof fn lemma_internal_is_no_reserved_word(arguments: Seq<ArgumentSpec>, name: Seq<char>)
    requires
        config_spec(arguments) is Ok,
    ensures
        !is_reserved(internal_of(config_spec(arguments)->Ok_0, name)),
{
    lemma_config_ident(arguments, arguments.len() as int);
    lemma_reserved_words();
}

proof fn lemma_call_attribute_tokens(name: Seq<char>, argument: Seq<char>)
    ensures
        attribute_tokens(call_attribute_spec(name, argument)) == call_attribute(name, argument),
{
    let attribute = call_attribute_spec(name, argument);
    assert(path_tokens(attribute.path) =~= seq![TokenSpec::Ident(name)]) by {
        reveal_with_fuel(segments_tokens, 2);
    }
    assert(path_tokens(attribute.path) + attribute.tokens =~= seq![
        TokenSpec::Ident(name),
        TokenSpec::Group(GroupDelimiter::Parenthesis, seq![TokenSpec::Ident(argument)]),
    ]);
}

proof fn lemma_with_attribute(attribute: AttributeSpec, mac_rules: MacroRulesSpec)
    ensures
        macro_rules_tokens(with_attribute(attribute, mac_rules)) == attribute_tokens(attribute)
            + macro_rules_tokens(mac_rules),
        attribute_wf(attribute) && macro_rules_wf(mac_rules) ==> macro_rules_wf(
            with_attribute(attribute, mac_rules),
        ),
{
    let more = with_attribute(attribute, mac_rules);
    assert(more.attrs.drop_first() =~= mac_rules.attrs);
    assert(attrs_tokens(more.attrs) == attribute_tokens(attribute) + attrs_tokens(
        mac_rules.attrs,
    ));
    assert(macro_rules_tokens(more) =~= attribute_tokens(attribute) + macro_rules_tokens(
        mac_rules,
    ));
    if attribute_wf(attribute) && macro_rules_wf(mac_rules) {
        assert forall|i: int| 0 <= i < more.attrs.len() implies attribute_wf(
            #[trigger] more.attrs[i],
        ) by {
            if i > 0 {
                assert(more.attrs[i] == mac_rules.attrs[i - 1]);
            }
        }
    }
}

/// What the transform gives for a definition with an internal rule is three
/// definitions, one after the other, each of which parses again: the public
/// macro, the hidden macro with `#[doc(hidden)]` before its attributes, and
/// the macro for its own crate with `#[allow(unused_macros)]` before its
/// attributes.
pub proof fn lemma_split_is_three_definitions(
    mac_rules: MacroRulesSpec,
    internal: Seq<char>,
    marker: Seq<TokenSpec>,
)
    requires
        macro_rules_wf(mac_rules),
        !is_reserved(internal),
    ensures
        ({
            let public = public_shell(mac_rules, internal, marker);
            let hidden = with_attribute(
                call_attribute_spec("doc"@, "hidden"@),
                hidden_definition(mac_rules, internal, marker),
            );
            let own = with_attribute(
                call_attribute_spec("allow"@, "unused_macros"@),
                shadow(mac_rules),
            );
            &&& split_tokens(mac_rules, internal, marker) == macro_rules_tokens(public)
                + macro_rules_tokens(hidden) + macro_rules_tokens(own)
            &&& parse_spec(macro_rules_tokens(public)) == Ok::<_, ParseErrorSpec>(public)
            &&& parse_spec(macro_rules_tokens(hidden)) == Ok::<_, ParseErrorSpec>(hidden)
            &&& parse_spec(macro_rules_tokens(own)) == Ok::<_, ParseErrorSpec>(own)
        }),
{
    let public = public_shell(mac_rules, internal, marker);
    let bare_hidden = hidden_definition(mac_rules, internal, marker);
    let bare_own = shadow(mac_rules);
    let doc_hidden = call_attribute_spec("doc"@, "hidden"@);
    let allow_unused = call_attribute_spec("allow"@, "unused_macros"@);
    let n = mac_rules.attrs.len() as int;
    lemma_attrs_kept_wf(mac_rules.attrs, n, false);
    lemma_attrs_kept_wf(mac_rules.attrs, n, true);
    lemma_reserved_words();
    assert(doc_hidden.path.segments[0] == "doc"@);
    assert(allow_unused.path.segments[0] == "allow"@);
    lemma_call_attribute_tokens("doc"@, "hidden"@);
    lemma_call_attribute_tokens("allow"@, "unused_macros"@);
    lemma_with_attribute(doc_hidden, bare_hidden);
    lemma_with_attribute(allow_unused, bare_own);
    lemma_print_then_parse(public);
    lemma_print_then_parse(with_attribute(doc_hidden, bare_hidden));
    lemma_print_then_parse(with_attribute(allow_unused, bare_own));
    assert(split_tokens(mac_rules, internal, marker) =~= macro_rules_tokens(public)
        + macro_rules_tokens(with_attribute(doc_hidden, bare_hidden)) + macro_rules_tokens(
        with_attribute(allow_unused, bare_own),
    ));
}

/// The name of the hidden macro where none is given: `__` before the
/// macro's name, without the `r#` of a raw identifier.
pub fn default_priv_ident(pub_ident: &str) -> (ident: String)
    ensures
        ident@ == default_internal(pub_ident@),
{
    let prefix = String::from_str("__");
    if text_starts_with(pub_ident, "r#") {
        proof {
            reveal_strlit("r#");
        }
        let bare = pub_ident.substring_char(2, pub_ident.unicode_len());
        assert(bare@ =~= pub_ident@.skip(2));
        prefix.concat(bare)
    } else {
        prefix.concat(pub_ident)
    }
}

/// The attributes that stay, in their order: all but those named `doc`
/// and, where `drop_export` holds, `macro_export`.
pub fn retain_attrs(attrs: &Vec<Attribute>, drop_export: bool) -> (kept: Vec<Attribute>)
    ensures
        kept.deep_view() == attrs_kept(attrs.deep_view(), attrs.len() as int, drop_export),
{
    let mut kept: Vec<Attribute> = Vec::new();
    let mut i: usize = 0;
    assert(kept.deep_view() =~= Seq::empty());
    while i < attrs.len()
        invariant
            i <= attrs.len(),
            kept.deep_view() == attrs_kept(attrs.deep_view(), i as int, drop_export),
        decreases attrs.len() - i,
    {
        let ghost before = kept.deep_view();
        assert(attrs.deep_view()[i as int] == attrs@[i as int].deep_view());
        let attribute = &attrs[i];
        let dropped = path_is_ident(&attribute.path, "doc") || (drop_export && path_is_ident(
            &attribute.path,
            "macro_export",
        ));
        if !dropped {
            kept.push(attribute.clone());
            assert(kept.deep_view() =~= before.push(attrs.deep_view()[i as int]));
        }
        i += 1;
    }
    kept
}

/// Appends the tokens of the attribute `#[name(argument)]` to `tokens`.
pub fn push_call_attribute(tokens: &mut Vec<Token>, name: &str, argument: &str)
    ensures
        final(tokens).deep_view() == old(tokens).deep_view() + call_attribute(name@, argument@),
{
    let ghost before = tokens.deep_view();
    push_punct(tokens, '#', PunctSpacing::Alone);
    let mut inner: Vec<Token> = Vec::new();
    assert(inner.deep_view() =~= Seq::empty());
    push_ident(&mut inner, argument);
    assert(inner.deep_view() =~= seq![TokenSpec::Ident(argument@)]);
    let mut content: Vec<Token> = Vec::new();
    assert(content.deep_view() =~= Seq::empty());
    push_ident(&mut content, name);
    push_group(&mut content, GroupDelimiter::Parenthesis, inner);
    assert(content.deep_view() =~= seq![
        TokenSpec::Ident(name@),
        TokenSpec::Group(GroupDelimiter::Parenthesis, seq![TokenSpec::Ident(argument@)]),
    ]);
    push_group(tokens, GroupDelimiter::Bracket, content);
    assert(tokens.deep_view() =~= before + call_attribute(name@, argument@));
}

/// The marker of internal rules where none is given: the token `@`.
pub fn default_priv_marker() -> (marker: Vec<Token>)
    ensures
        marker.deep_view() == default_marker(),
{
    let mut marker: Vec<Token> = Vec::new();
    marker.push(Token::Punct('@', PunctSpacing::Joint));
    assert(marker.deep_view() =~= default_marker());
    marker
}

} // verus!

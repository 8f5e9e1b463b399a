//! Hides the internal rules of a `macro_rules!` definition from its
//! documentation.
//!
//! A macro often has rules that only its own rules invoke, each marked by
//! a token such as `@` at the start of its pattern. The documentation of the
//! macro lists them all the same. `clean_docs` splits the
//! definition in three: the macro with its other rules alone, a hidden twin
//! that takes the internal rules, and the whole macro once more without its
//! export, so that the rules still find each other by the macro's name within
//! its crate. Invocations of internal rules are redirected to the twin.

pub mod config;
pub mod grammar;
pub mod macro_rules;
pub mod parse;
pub mod replace_macro_invocs;
pub mod round_trip;
pub mod split;
pub mod text;
pub mod token;

use crate::config::{
    config_spec, Argument, ArgumentSpec, Config, ConfigError, ConfigErrorSpec, ConfigSpec,
};
use crate::grammar::{parse_spec, ParseError, ParseErrorSpec};
use crate::macro_rules::{macro_rules_tokens, MacroRules, MacroRulesRule};
use crate::replace_macro_invocs::{is_marked, replace_macro_invocs};
use crate::round_trip::{lemma_parse_then_print, respelled};
use crate::split::{
    call_attribute_spec, default_priv_ident, default_priv_marker, hidden_definition,
    internal_of, internal_rules, lemma_internal_is_no_reserved_word,
    lemma_split_is_three_definitions, marker_of, public_shell, push_call_attribute,
    retain_attrs, rewritten_rule, rules_split, shadow, split_tokens, transformed,
    with_attribute,
};
use crate::text::{stream_text, text_of, text_view};
use crate::token::{copy_stream, Token, TokenSpec};
use vstd::prelude::*;

verus! {

/// Why `clean_docs` gives no tokens.
#[derive(Debug, PartialEq, Eq)]
pub enum CleanDocsError {
    /// The item is no macro definition.
    Parse(ParseError),
    /// The arguments set no options.
    Config(ConfigError),
}

/// The mathematical value of a `CleanDocsError`.
pub enum CleanDocsErrorSpec {
    Parse(ParseErrorSpec),
    Config(ConfigErrorSpec),
}

impl DeepView for CleanDocsError {
    type V = CleanDocsErrorSpec;

    open spec fn deep_view(&self) -> CleanDocsErrorSpec {
        match self {
            CleanDocsError::Parse(error) => CleanDocsErrorSpec::Parse(error@),
            CleanDocsError::Config(error) => CleanDocsErrorSpec::Config(error.deep_view()),
        }
    }
}

/// What `clean_docs` gives for the arguments and the tokens of an item: the
/// error of an item that is no macro definition, else the error of the
/// arguments, else what the transform gives for the definition.
pub open spec fn clean_docs_spec(
    arguments: Seq<ArgumentSpec>,
    item: Seq<TokenSpec>,
    documenting: bool,
) -> Result<Seq<TokenSpec>, CleanDocsErrorSpec> {
    match parse_spec(item) {
        Err(error) => Err(CleanDocsErrorSpec::Parse(error)),
        Ok(mac_rules) => match config_spec(arguments) {
            Err(error) => Err(CleanDocsErrorSpec::Config(error)),
            Ok(config) => Ok(transformed(config, documenting, mac_rules)),
        },
    }
}

/// The tokens of the definition.
fn printed(mac_rules: &MacroRules) -> (tokens: Vec<Token>)
    ensures
        tokens.deep_view() == macro_rules_tokens(mac_rules.deep_view()),
{
    let mut tokens: Vec<Token> = Vec::new();
    assert(tokens.deep_view() =~= Seq::empty());
    mac_rules.to_tokens(&mut tokens);
    assert(tokens.deep_view() =~= macro_rules_tokens(mac_rules.deep_view()));
    tokens
}

/// The transform of a macro definition.
///
/// The arguments set the options; the first one that is refused is the
/// error. Where neither `always` is set nor documentation is built,
/// the definition comes back as it is. Else every rule has the invocations
/// of internal rules in its body redirected to the hidden macro, and the
/// rules whose pattern, as text, starts with the marker go to the hidden
/// macro, the others to the public one, each in their order. Where no rule is
/// internal, the definition comes back as it is; else the public macro, the
/// hidden macro and the macro for its own crate.
pub fn clean_docs_impl(
    args: &Vec<Argument>,
    documenting: bool,
    mac_rules: MacroRules,
) -> (out: Result<Vec<Token>, ConfigError>)
    ensures
        match out {
            Ok(tokens) => {
                &&& config_spec(args.deep_view()) is Ok
                &&& tokens.deep_view() == transformed(
                    config_spec(args.deep_view())->Ok_0,
                    documenting,
                    mac_rules.deep_view(),
                )
            },
            Err(error) => config_spec(args.deep_view()) == Err::<ConfigSpec, _>(error.deep_view()),
        },
{
    let config = match Config::from_args(args) {
        Ok(config) => config,
        Err(error) => {
            return Err(error);
        },
    };
    let ghost options = config.deep_view();
    let ghost definition = mac_rules.deep_view();
    if !config.run_always && !documenting {
        return Ok(printed(&mac_rules));
    }
    let priv_marker = match config.priv_marker {
        Some(marker) => marker,
        None => default_priv_marker(),
    };
    let priv_ident = match config.priv_ident {
        Some(ident) => ident,
        None => default_priv_ident(mac_rules.ident.as_str()),
    };
    let ghost marker = priv_marker.deep_view();
    let ghost internal = priv_ident@;
    assert(marker == marker_of(options));
    assert(internal == internal_of(options, definition.ident));
    let marker_text = stream_text(&priv_marker);

    let mut pub_rules: Vec<MacroRulesRule> = Vec::new();
    let mut priv_rules: Vec<MacroRulesRule> = Vec::new();
    assert(pub_rules.deep_view() =~= Seq::empty());
    assert(priv_rules.deep_view() =~= Seq::empty());
    let mut i: usize = 0;
    while i < mac_rules.rules.len()
        invariant
            i <= mac_rules.rules.len(),
            definition == mac_rules.deep_view(),
            marker == priv_marker.deep_view(),
            internal == priv_ident@,
            text_view(marker_text) == text_of(marker),
            pub_rules.deep_view() == rules_split(
                definition.rules,
                i as int,
                definition.ident,
                internal,
                marker,
                false,
            ),
            priv_rules.deep_view() == rules_split(
                definition.rules,
                i as int,
                definition.ident,
                internal,
                marker,
                true,
            ),
        decreases mac_rules.rules.len() - i,
    {
        let ghost public_before = pub_rules.deep_view();
        let ghost private_before = priv_rules.deep_view();
        assert(definition.rules[i as int] == mac_rules.rules@[i as int].deep_view());
        let rule = &mac_rules.rules[i];
        let body = replace_macro_invocs(
            copy_stream(&rule.body),
            mac_rules.ident.as_str(),
            priv_ident.as_str(),
            &priv_marker,
        );
        let rewritten = MacroRulesRule {
            rule_delimiter: rule.rule_delimiter,
            rule: copy_stream(&rule.rule),
            body_delimiter: rule.body_delimiter,
            body,
        };
        assert(rewritten.deep_view() == rewritten_rule(
            definition.rules[i as int],
            definition.ident,
            internal,
            marker,
        ));
        let pattern_text = stream_text(&rule.rule);
        if is_marked(&pattern_text, &marker_text) {
            priv_rules.push(rewritten);
            assert(priv_rules.deep_view() =~= private_before.push(
                rewritten_rule(definition.rules[i as int], definition.ident, internal, marker),
            ));
        } else {
            pub_rules.push(rewritten);
            assert(pub_rules.deep_view() =~= public_before.push(
                rewritten_rule(definition.rules[i as int], definition.ident, internal, marker),
            ));
        }
        i += 1;
    }

    if priv_rules.len() == 0 {
        assert(priv_rules.deep_view().len() == 0);
        return Ok(printed(&mac_rules));
    }
    assert(priv_rules.deep_view().len() != 0);
    let hidden_attrs = retain_attrs(&mac_rules.attrs, false);
    let shadow_attrs = retain_attrs(&mac_rules.attrs, true);
    let MacroRules { attrs, path, ident, delimiter, rules, trailing_separator, semi_token } =
        mac_rules;
    let pub_mac_rules = MacroRules {
        attrs,
        path: path.clone(),
        ident: ident.clone(),
        delimiter,
        rules: pub_rules,
        trailing_separator: false,
        semi_token,
    };
    let priv_mac_rules = MacroRules {
        attrs: hidden_attrs,
        path: path.clone(),
        ident: priv_ident,
        delimiter,
        rules: priv_rules,
        trailing_separator: false,
        semi_token,
    };
    let shadow_mac_rules = MacroRules {
        attrs: shadow_attrs,
        path,
        ident,
        delimiter,
        rules,
        trailing_separator,
        semi_token,
    };
    assert(pub_mac_rules.deep_view() == public_shell(definition, internal, marker));
    assert(priv_mac_rules.deep_view() == hidden_definition(definition, internal, marker));
    assert(shadow_mac_rules.deep_view() == shadow(definition));

    let mut tokens: Vec<Token> = Vec::new();
    assert(tokens.deep_view() =~= Seq::empty());
    pub_mac_rules.to_tokens(&mut tokens);
    push_call_attribute(&mut tokens, "doc", "hidden");
    priv_mac_rules.to_tokens(&mut tokens);
    push_call_attribute(&mut tokens, "allow", "unused_macros");
    shadow_mac_rules.to_tokens(&mut tokens);
    assert(tokens.deep_view() =~= split_tokens(definition, internal, marker));
    Ok(tokens)
}

/// Hides the internal rules of a macro definition from its documentation.
///
/// `args` are the arguments of the attribute, `item` the tokens that it
/// stands on, and `documenting` tells whether documentation is built. The
/// item is parsed as a macro definition, and the definition is transformed
/// as `clean_docs_impl` says. An item that is no macro definition is
/// the error of the parser, whatever the arguments hold.
pub fn clean_docs(
    args: &Vec<Argument>,
    item: &Vec<Token>,
    documenting: bool,
) -> (out: Result<Vec<Token>, CleanDocsError>)
    ensures
        match out {
            Ok(tokens) => clean_docs_spec(args.deep_view(), item.deep_view(), documenting) == Ok::<
                _,
                CleanDocsErrorSpec,
            >(tokens.deep_view()),
            Err(error) => clean_docs_spec(args.deep_view(), item.deep_view(), documenting) == Err::<
                Seq<TokenSpec>,
                _,
            >(error.deep_view()),
        },
{
    let mac_rules = match MacroRules::parse(item) {
        Ok(mac_rules) => mac_rules,
        Err(error) => {
            return Err(CleanDocsError::Parse(error));
        },
    };
    match clean_docs_impl(args, documenting, mac_rules) {
        Ok(tokens) => Ok(tokens),
        Err(error) => Err(CleanDocsError::Config(error)),
    }
}

/// What `clean_docs` gives, where it gives tokens, is the item as a printer
/// spaces it, or the three definitions that take its place.
pub proof fn lemma_clean_docs_output(
    arguments: Seq<ArgumentSpec>,
    item: Seq<TokenSpec>,
    documenting: bool,
)
    requires
        clean_docs_spec(arguments, item, documenting) is Ok,
    ensures
        ({
            let out = clean_docs_spec(arguments, item, documenting)->Ok_0;
            let mac_rules = parse_spec(item)->Ok_0;
            let config = config_spec(arguments)->Ok_0;
            let internal = internal_of(config, mac_rules.ident);
            let marker = marker_of(config);
            let public = public_shell(mac_rules, internal, marker);
            let hidden = with_attribute(
                call_attribute_spec("doc"@, "hidden"@),
                hidden_definition(mac_rules, internal, marker),
            );
            let own = with_attribute(
                call_attribute_spec("allow"@, "unused_macros"@),
                shadow(mac_rules),
            );
            ||| out == respelled(item)
            ||| {
                &&& config.run_always || documenting
                &&& internal_rules(mac_rules, internal, marker).len() > 0
                &&& out == macro_rules_tokens(public) + macro_rules_tokens(hidden)
                    + macro_rules_tokens(own)
                &&& parse_spec(macro_rules_tokens(public)) == Ok::<_, ParseErrorSpec>(public)
                &&& parse_spec(macro_rules_tokens(hidden)) == Ok::<_, ParseErrorSpec>(hidden)
                &&& parse_spec(macro_rules_tokens(own)) == Ok::<_, ParseErrorSpec>(own)
            }
        }),
{
    let mac_rules = parse_spec(item)->Ok_0;
    let config = config_spec(arguments)->Ok_0;
    lemma_parse_then_print(item);
    lemma_internal_is_no_reserved_word(arguments, mac_rules.ident);
    lemma_split_is_three_definitions(
        mac_rules,
        internal_of(config, mac_rules.ident),
        marker_of(config),
    );
}

/// Where the item is a macro definition and the transform does not run,
/// `clean_docs` gives the item back as a printer spaces it: token for
/// token, where it is spaced so already.
pub proof fn lemma_clean_docs_disabled(
    arguments: Seq<ArgumentSpec>,
    item: Seq<TokenSpec>,
)
    requires
        parse_spec(item) is Ok,
        config_spec(arguments) is Ok,
        !config_spec(arguments)->Ok_0.run_always,
    ensures
        clean_docs_spec(arguments, item, false) == Ok::<_, CleanDocsErrorSpec>(respelled(item)),
{
    lemma_parse_then_print(item);
}

} // verus!

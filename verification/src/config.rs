//! The options of the transform, as they come with the attribute.

use crate::grammar::is_reserved;
use crate::macro_rules::{path_tokens, Path, PathSpec};
use crate::parse::is_reserved_word;
use crate::text::{lexed, stream_text, text_equal, text_of, text_view, tokens_of_text};
use crate::token::{Token, TokenSpec};
use vstd::prelude::*;

verus! {

/// The literal on the right of an argument.
#[derive(Debug, PartialEq, Eq)]
pub enum ArgumentValue {
    Bool(bool),
    Str(String),
    /// A literal of another kind.
    Other,
}

/// One argument of the attribute.
#[derive(Debug, PartialEq, Eq)]
pub enum Argument {
    /// `path = literal`
    NameValue(Path, ArgumentValue),
    /// An argument of another form. It changes nothing.
    Other,
}

/// The options that the arguments set. What they leave unset falls to its
/// default when the transform runs.
#[derive(Debug, PartialEq, Eq)]
pub struct Config {
    /// Whether the transform runs when no documentation is built.
    pub run_always: bool,
    /// The tokens that begin the pattern of an internal rule.
    pub priv_marker: Option<Vec<Token>>,
    /// The name of the macro that takes the internal rules.
    pub priv_ident: Option<String>,
}

/// What is wrong with an argument.
#[derive(Debug, PartialEq, Eq)]
pub enum ConfigErrorKind {
    /// An unknown name, or a value of the wrong kind. Holds the path of the
    /// argument.
    InvalidArgument(Path),
    /// The text given for `impl` holds no tokens. Holds the text.
    InvalidTokens(String),
    /// The text given for `internal` is no identifier. Holds the text.
    ExpectedIdentifier(String),
}

/// Why the arguments set no options: the place of the first argument that
/// is refused, counted from 0, and what is wrong with it.
#[derive(Debug, PartialEq, Eq)]
pub struct ConfigError {
    pub index: usize,
    pub kind: ConfigErrorKind,
}

/// The mathematical value of an `ArgumentValue`.
pub enum ArgumentValueSpec {
    Bool(bool),
    Str(Seq<char>),
    Other,
}

/// The mathematical value of an `Argument`.
pub enum ArgumentSpec {
    NameValue(PathSpec, ArgumentValueSpec),
    Other,
}

/// The mathematical value of a `Config`.
pub struct ConfigSpec {
    pub run_always: bool,
    pub priv_marker: Option<Seq<TokenSpec>>,
    pub priv_ident: Option<Seq<char>>,
}

/// The mathematical value of a `ConfigErrorKind`.
pub enum ConfigErrorKindSpec {
    InvalidArgument(PathSpec),
    InvalidTokens(Seq<char>),
    ExpectedIdentifier(Seq<char>),
}

/// The mathematical value of a `ConfigError`.
pub struct ConfigErrorSpec {
    pub index: int,
    pub kind: ConfigErrorKindSpec,
}

impl DeepView for ArgumentValue {
    type V = ArgumentValueSpec;

    open spec fn deep_view(&self) -> ArgumentValueSpec {
        match self {
            ArgumentValue::Bool(value) => ArgumentValueSpec::Bool(*value),
            ArgumentValue::Str(text) => ArgumentValueSpec::Str(text@),
            ArgumentValue::Other => ArgumentValueSpec::Other,
        }
    }
}

impl DeepView for Argument {
    type V = ArgumentSpec;

    open spec fn deep_view(&self) -> ArgumentSpec {
        match self {
            Argument::NameValue(path, value) => ArgumentSpec::NameValue(
                path.deep_view(),
                value.deep_view(),
            ),
            Argument::Other => ArgumentSpec::Other,
        }
    }
}

impl DeepView for Config {
    type V = ConfigSpec;

    open spec fn deep_view(&self) -> ConfigSpec {
        ConfigSpec {
            run_always: self.run_always,
            priv_marker: match self.priv_marker {
                Some(marker) => Some(marker.deep_view()),
                None => None,
            },
            priv_ident: match self.priv_ident {
                Some(ident) => Some(ident@),
                None => None,
            },
        }
    }
}

impl DeepView for ConfigErrorKind {
    type V = ConfigErrorKindSpec;

    open spec fn deep_view(&self) -> ConfigErrorKindSpec {
        match self {
            ConfigErrorKind::InvalidArgument(path) => ConfigErrorKindSpec::InvalidArgument(
                path.deep_view(),
            ),
            ConfigErrorKind::InvalidTokens(text) => ConfigErrorKindSpec::InvalidTokens(text@),
            ConfigErrorKind::ExpectedIdentifier(text) => ConfigErrorKindSpec::ExpectedIdentifier(
                text@,
            ),
        }
    }
}

impl DeepView for ConfigError {
    type V = ConfigErrorSpec;

    open spec fn deep_view(&self) -> ConfigErrorSpec {
        ConfigErrorSpec { index: self.index as int, kind: self.kind.deep_view() }
    }
}

/// The options before any argument: the transform runs only where
/// documentation is built, with the default marker and the default name.
pub open spec fn default_config() -> ConfigSpec {
    ConfigSpec { run_always: false, priv_marker: None, priv_ident: None }
}

/// Whether the path is the single identifier `name`.
pub open spec fn path_is(path: PathSpec, name: Seq<char>) -> bool {
    !path.leading_colon && path.segments == seq![name]
}

/// The identifier that the text holds: the text is one identifier, and no
/// reserved word.
pub open spec fn ident_of_text(text: Seq<char>) -> Option<Seq<char>> {
    match lexed(text) {
        Some(tokens) => if tokens.len() == 1 && tokens[0] is Ident && !is_reserved(
            tokens[0]->Ident_0,
        ) {
            Some(tokens[0]->Ident_0)
        } else {
            None
        },
        None => None,
    }
}

/// The options after one more argument. `always` takes a boolean, `impl`
/// a text that holds tokens, `internal` a text that holds an identifier.
/// Any other name, and a value of another kind, is an invalid argument.
pub open spec fn config_with(config: ConfigSpec, argument: ArgumentSpec) -> Result<
    ConfigSpec,
    ConfigErrorKindSpec,
> {
    match argument {
        ArgumentSpec::Other => Ok(config),
        ArgumentSpec::NameValue(path, value) => {
            if path_is(path, "always"@) && value is Bool {
                Ok(ConfigSpec { run_always: value->Bool_0, ..config })
            } else if path_is(path, "impl"@) && value is Str {
                match lexed(value->Str_0) {
                    Some(marker) => Ok(ConfigSpec { priv_marker: Some(marker), ..config }),
                    None => Err(ConfigErrorKindSpec::InvalidTokens(value->Str_0)),
                }
            } else if path_is(path, "internal"@) && value is Str {
                match ident_of_text(value->Str_0) {
                    Some(ident) => Ok(ConfigSpec { priv_ident: Some(ident), ..config }),
                    None => Err(ConfigErrorKindSpec::ExpectedIdentifier(value->Str_0)),
                }
            } else {
                Err(ConfigErrorKindSpec::InvalidArgument(path))
            }
        },
    }
}

/// The options after the first `n` arguments, or the error of the first
/// argument among them that is refused.
pub open spec fn config_after(arguments: Seq<ArgumentSpec>, n: int) -> Result<
    ConfigSpec,
    ConfigErrorSpec,
>
    decreases n,
{
    if n <= 0 || n > arguments.len() {
        Ok(default_config())
    } else {
        match config_after(arguments, n - 1) {
            Ok(config) => match config_with(config, arguments[n - 1]) {
                Ok(config) => Ok(config),
                Err(kind) => Err(ConfigErrorSpec { index: n - 1, kind }),
            },
            Err(error) => Err(error),
        }
    }
}

/// The options that the arguments set.
pub open spec fn config_spec(arguments: Seq<ArgumentSpec>) -> Result<ConfigSpec, ConfigErrorSpec> {
    config_after(arguments, arguments.len() as int)
}

proof fn lemma_config_error_stays(arguments: Seq<ArgumentSpec>, n: int, m: int)
    requires
        0 <= n <= m <= arguments.len(),
        config_after(arguments, n) is Err,
    ensures
        config_after(arguments, m) == config_after(arguments, n),
    decreases m - n,
{
    if n < m {
        lemma_config_error_stays(arguments, n, m - 1);
    }
}

/// Whether the path is the single identifier `name`.
pub fn path_is_ident(path: &Path, name: &str) -> (is: bool)
    ensures
        is == path_is(path.deep_view(), name@),
{
    if path.leading_colon || path.segments.len() != 1 {
        proof {
            if path.segments.len() != 1 {
                assert(path.segments.deep_view().len() != seq![name@].len());
            }
        }
        return false;
    }
    let same = text_equal(path.segments[0].as_str(), name);
    proof {
        assert(path.segments.deep_view()[0] == path.segments@[0]@);
        if same {
            assert(path.segments.deep_view() =~= seq![name@]);
        }
    }
    same
}

/// The identifier that the text holds, where it is one identifier and no
/// reserved word.
pub fn parse_ident(text: &str) -> (ident: Option<String>)
    ensures
        text_view(ident) == ident_of_text(text@),
{
    match tokens_of_text(text) {
        Some(tokens) => {
            if tokens.len() != 1 {
                return None;
            }
            match &tokens[0] {
                Token::Ident(name) => {
                    if is_reserved_word(name.as_str()) {
                        None
                    } else {
                        Some(name.clone())
                    }
                },
                _ => None,
            }
        },
        None => None,
    }
}

/// What is said of the error: of an invalid argument `invalid argument: `
/// and the text of the argument's path, where the path has a text.
pub open spec fn config_message(error: ConfigErrorSpec) -> Option<Seq<char>> {
    match error.kind {
        ConfigErrorKindSpec::InvalidArgument(path) => match text_of(path_tokens(path)) {
            Some(name) => Some("invalid argument: "@ + name),
            None => None,
        },
        ConfigErrorKindSpec::InvalidTokens(_) => Some("Invalid tokens"@),
        ConfigErrorKindSpec::ExpectedIdentifier(_) => Some("Expected valid identifier"@),
    }
}

impl ConfigError {
    /// What is said of the error.
    pub fn message(&self) -> (message: Option<String>)
        ensures
            text_view(message) == config_message(self.deep_view()),
    {
        match &self.kind {
            ConfigErrorKind::InvalidArgument(path) => {
                let mut tokens: Vec<Token> = Vec::new();
                assert(tokens.deep_view() =~= Seq::empty());
                path.to_tokens(&mut tokens);
                assert(tokens.deep_view() =~= path_tokens(path.deep_view()));
                match stream_text(&tokens) {
                    Some(name) => Some(
                        String::from_str("invalid argument: ").concat(name.as_str()),
                    ),
                    None => None,
                }
            },
            ConfigErrorKind::InvalidTokens(_) => Some(String::from_str("Invalid tokens")),
            ConfigErrorKind::ExpectedIdentifier(_) => Some(
                String::from_str("Expected valid identifier"),
            ),
        }
    }
}

impl Config {
    /// The options that the arguments set, or the error of the first
    /// argument that is refused.
    pub fn from_args(args: &Vec<Argument>) -> (config: Result<Config, ConfigError>)
        ensures
            match config {
                Ok(config) => config_spec(args.deep_view()) == Ok::<_, ConfigErrorSpec>(
                    config.deep_view(),
                ),
                Err(error) => config_spec(args.deep_view()) == Err::<ConfigSpec, _>(
                    error.deep_view(),
                ),
            },
    {
        let mut config = Config { run_always: false, priv_marker: None, priv_ident: None };
        let mut i: usize = 0;
        while i < args.len()
            invariant
                i <= args.len(),
                config_after(args.deep_view(), i as int) == Ok::<_, ConfigErrorSpec>(
                    config.deep_view(),
                ),
            decreases args.len() - i,
        {
            assert(args.deep_view()[i as int] == args@[i as int].deep_view());
            proof {
                if config_after(args.deep_view(), i + 1) is Err {
                    lemma_config_error_stays(args.deep_view(), i + 1, args.len() as int);
                }
            }
            match &args[i] {
                Argument::Other => {},
                Argument::NameValue(path, value) => {
                    let always = path_is_ident(path, "always");
                    let marker = path_is_ident(path, "impl");
                    let internal = path_is_ident(path, "internal");
                    match value {
                        ArgumentValue::Bool(value) => {
                            if always {
                                config.run_always = *value;
                            } else {
                                return Err(
                                    ConfigError {
                                        index: i,
                                        kind: ConfigErrorKind::InvalidArgument(path.clone()),
                                    },
                                );
                            }
                        },
                        ArgumentValue::Str(text) => {
                            if marker {
                                match tokens_of_text(text.as_str()) {
                                    Some(tokens) => {
                                        config.priv_marker = Some(tokens);
                                    },
                                    None => {
                                        return Err(
                                            ConfigError {
                                                index: i,
                                                kind: ConfigErrorKind::InvalidTokens(text.clone()),
                                            },
                                        );
                                    },
                                }
                            } else if internal {
                                match parse_ident(text.as_str()) {
                                    Some(ident) => {
                                        config.priv_ident = Some(ident);
                                    },
                                    None => {
                                        return Err(
                                            ConfigError {
                                                index: i,
                                                kind: ConfigErrorKind::ExpectedIdentifier(
                                                    text.clone(),
                                                ),
                                            },
                                        );
                                    },
                                }
                            } else {
                                return Err(
                                    ConfigError {
                                        index: i,
                                        kind: ConfigErrorKind::InvalidArgument(path.clone()),
                                    },
                                );
                            }
                        },
                        ArgumentValue::Other => {
                            return Err(
                                    ConfigError {
                                        index: i,
                                        kind: ConfigErrorKind::InvalidArgument(path.clone()),
                                    },
                                );
                        },
                    }
                },
            }
            i += 1;
        }
        Ok(config)
    }
}

} // verus!

use clean_macro_docs::config::{
    parse_ident, path_is_ident, Argument, ArgumentValue, Config, ConfigError, ConfigErrorKind,
};
use clean_macro_docs::macro_rules::Path;
use clean_macro_docs::text::tokens_of_text;
use clean_macro_docs::token::{PunctSpacing, Token};

fn path(segments: &[&str]) -> Path {
    Path { leading_colon: false, segments: segments.iter().map(|s| s.to_string()).collect() }
}

fn bool_arg(name: &str, value: bool) -> Argument {
    Argument::NameValue(path(&[name]), ArgumentValue::Bool(value))
}

fn str_arg(name: &str, value: &str) -> Argument {
    Argument::NameValue(path(&[name]), ArgumentValue::Str(value.to_string()))
}

#[test]
fn no_arguments_set_nothing() {
    assert_eq!(
        Config::from_args(&vec![]),
        Ok(Config { run_always: false, priv_marker: None, priv_ident: None })
    );
    assert_eq!(
        Config::from_args(&vec![Argument::Other, Argument::Other]),
        Ok(Config { run_always: false, priv_marker: None, priv_ident: None })
    );
}

#[test]
fn every_option() {
    let args = vec![
        str_arg("impl", "#internal"),
        str_arg("internal", "__internal_mac"),
        bool_arg("always", true),
    ];
    assert_eq!(
        Config::from_args(&args),
        Ok(Config {
            run_always: true,
            priv_marker: Some(vec![
                Token::Punct('#', PunctSpacing::Alone),
                Token::Ident("internal".to_string())
            ]),
            priv_ident: Some("__internal_mac".to_string()),
        })
    );
}

#[test]
fn the_last_value_stays() {
    let args = vec![
        bool_arg("always", true),
        str_arg("impl", "@"),
        bool_arg("always", false),
        str_arg("impl", "^internal"),
    ];
    let config = Config::from_args(&args).unwrap();
    assert!(!config.run_always);
    assert_eq!(config.priv_marker, tokens_of_text("^internal"));
    assert_eq!(config.priv_ident, None);
}

#[test]
fn invalid_arguments() {
    let invalid = |argument: Argument, name: &[&str]| {
        assert_eq!(
            Config::from_args(&vec![bool_arg("always", true), argument]),
            Err(ConfigError { index: 1, kind: ConfigErrorKind::InvalidArgument(path(name)) })
        );
    };
    invalid(bool_arg("sometimes", true), &["sometimes"]);
    invalid(str_arg("always", "true"), &["always"]);
    invalid(bool_arg("impl", true), &["impl"]);
    invalid(bool_arg("internal", false), &["internal"]);
    invalid(Argument::NameValue(path(&["always"]), ArgumentValue::Other), &["always"]);
    invalid(Argument::NameValue(path(&["impl"]), ArgumentValue::Other), &["impl"]);
    invalid(
        Argument::NameValue(path(&["a", "always"]), ArgumentValue::Bool(true)),
        &["a", "always"],
    );
    let leading = Path { leading_colon: true, segments: vec!["always".to_string()] };
    assert_eq!(
        Config::from_args(&vec![Argument::NameValue(leading.clone(), ArgumentValue::Bool(true))]),
        Err(ConfigError { index: 0, kind: ConfigErrorKind::InvalidArgument(leading) })
    );
}

#[test]
fn the_first_error_stays() {
    let args = vec![
        str_arg("impl", "("),
        bool_arg("never", true),
        str_arg("internal", "1"),
    ];
    assert_eq!(
        Config::from_args(&args),
        Err(ConfigError { index: 0, kind: ConfigErrorKind::InvalidTokens("(".to_string()) })
    );
    let args = vec![
        Argument::Other,
        str_arg("internal", "1"),
        str_arg("impl", "("),
    ];
    assert_eq!(
        Config::from_args(&args),
        Err(ConfigError { index: 1, kind: ConfigErrorKind::ExpectedIdentifier("1".to_string()) })
    );
}

#[test]
fn config_messages() {
    let message = |kind| ConfigError { index: 0, kind }.message();
    assert_eq!(
        message(ConfigErrorKind::InvalidArgument(path(&["sometimes"]))),
        Some("invalid argument: sometimes".to_string())
    );
    assert_eq!(
        message(ConfigErrorKind::InvalidArgument(path(&["a", "b"]))),
        Some("invalid argument: a :: b".to_string())
    );
    assert_eq!(message(ConfigErrorKind::InvalidArgument(path(&["not a word"]))), None);
    assert_eq!(
        message(ConfigErrorKind::InvalidTokens("(".to_string())),
        Some("Invalid tokens".to_string())
    );
    assert_eq!(
        message(ConfigErrorKind::ExpectedIdentifier("1".to_string())),
        Some("Expected valid identifier".to_string())
    );
}

#[test]
fn identifiers() {
    assert_eq!(parse_ident("__internal_mac"), Some("__internal_mac".to_string()));
    assert_eq!(parse_ident(" spaced "), Some("spaced".to_string()));
    assert_eq!(parse_ident("r#fn"), Some("r#fn".to_string()));
    assert_eq!(parse_ident("fn"), None);
    assert_eq!(parse_ident("_"), None);
    assert_eq!(parse_ident("a b"), None);
    assert_eq!(parse_ident("a::b"), None);
    assert_eq!(parse_ident("1"), None);
    assert_eq!(parse_ident("(a)"), None);
    assert_eq!(parse_ident(""), None);
    assert_eq!(parse_ident("("), None);
}

#[test]
fn single_identifier_paths() {
    assert!(path_is_ident(&path(&["doc"]), "doc"));
    assert!(!path_is_ident(&path(&["doc"]), "macro_export"));
    assert!(!path_is_ident(&path(&["doc", "doc"]), "doc"));
    assert!(!path_is_ident(&path(&[]), "doc"));
    assert!(!path_is_ident(&Path { leading_colon: true, segments: vec!["doc".to_string()] }, "doc"));
}

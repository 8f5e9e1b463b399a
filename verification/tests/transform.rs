use clean_macro_docs::config::{Argument, ArgumentValue, ConfigError, ConfigErrorKind};
use clean_macro_docs::grammar::{ParseError, ParseErrorKind};
use clean_macro_docs::macro_rules::{Attribute, MacroRules, Path};
use clean_macro_docs::text::{stream_text, tokens_of_text};
use clean_macro_docs::token::{PunctSpacing, Token};
use clean_macro_docs::split::{default_priv_ident, default_priv_marker, retain_attrs};
use clean_macro_docs::{clean_docs, clean_docs_impl, CleanDocsError};

fn lex(text: &str) -> Vec<Token> {
    tokens_of_text(text).expect("the text holds tokens")
}

fn path(name: &str) -> Path {
    Path { leading_colon: false, segments: vec![name.to_string()] }
}

fn always(value: bool) -> Argument {
    Argument::NameValue(path("always"), ArgumentValue::Bool(value))
}

fn text_arg(name: &str, value: &str) -> Argument {
    Argument::NameValue(path(name), ArgumentValue::Str(value.to_string()))
}

fn transform(arguments: Vec<Argument>, definition: &str) -> Vec<Token> {
    clean_docs(&arguments, &lex(definition), false).expect("a macro definition")
}

const SIMPLE: &str = "
    #[macro_export]
    macro_rules! simple_macro {
        (@impl $e:expr) => {
            format!(\"{}\", $e)
        };
        ($e:expr) => {
            simple_macro!(@impl $e)
        };
    }";

#[test]
fn simple_output() {
    let expected = "
        #[macro_export]
        macro_rules! simple_macro {
            ($e:expr) => {
                $crate::__simple_macro!(@impl $e)
            }
        }

        #[doc(hidden)]
        #[macro_export]
        macro_rules! __simple_macro {
            (@impl $e:expr) => {
                format!(\"{}\", $e)
            }
        }

        #[allow(unused_macros)]
        macro_rules! simple_macro {
            (@impl $e:expr) => {
                format!(\"{}\", $e)
            };
            ($e:expr) => {
                simple_macro!(@impl $e)
            };
        }";
    let out = transform(vec![always(true)], SIMPLE);
    assert_eq!(out, lex(expected));
    assert_eq!(
        stream_text(&out),
        Some(
            "# [macro_export] macro_rules ! simple_macro { ($ e : expr) => \
             { $ crate :: __simple_macro ! (@ impl $ e) } } \
             # [doc (hidden)] # [macro_export] macro_rules ! __simple_macro \
             { (@ impl $ e : expr) => { format ! (\"{}\" , $ e) } } \
             # [allow (unused_macros)] macro_rules ! simple_macro \
             { (@ impl $ e : expr) => { format ! (\"{}\" , $ e) } ; \
             ($ e : expr) => { simple_macro ! (@ impl $ e) } ; }"
                .to_string()
        )
    );
}

const CUSTOM_IMPL: &str = "
    #[macro_export]
    macro_rules! custom_impl_macro {
        (^internal $e:expr) => {
            format!(\"{}\", $e)
        };
        ($e:expr) => {
            custom_impl_macro!(^internal $e)
        };
    }";

#[test]
fn custom_impl_output() {
    let expected = "
        #[macro_export]
        macro_rules! custom_impl_macro {
            ($e:expr) => {
                $crate::__custom_impl_macro!(^internal $e)
            }
        }

        #[doc(hidden)]
        #[macro_export]
        macro_rules! __custom_impl_macro {
            (^internal $e:expr) => {
                format!(\"{}\", $e)
            }
        }

        #[allow(unused_macros)]
        macro_rules! custom_impl_macro {
            (^internal $e:expr) => {
                format!(\"{}\", $e)
            };
            ($e:expr) => {
                custom_impl_macro!(^internal $e)
            };
        }";
    let out = transform(vec![text_arg("impl", "^internal"), always(true)], CUSTOM_IMPL);
    assert_eq!(out, lex(expected));
    // With the default marker no rule is internal.
    assert_eq!(transform(vec![always(true)], CUSTOM_IMPL), lex(CUSTOM_IMPL));
}

#[test]
fn custom_marker_and_name() {
    let definition = "
        #[macro_export]
        macro_rules! custom_impl_macro {
            (#internal $e:expr) => {
                format!(\"{}\", $e)
            };
            (@impl $e:expr) => {
                custom_impl_macro!(#internal $e)
            };
            ($e:expr) => {
                custom_impl_macro!(@impl $e)
            };
        }";
    let expected = "
        #[macro_export]
        macro_rules! custom_impl_macro {
            (@impl $e:expr) => {
                $crate::__custom_impl_macro!(#internal $e)
            };
            ($e:expr) => {
                custom_impl_macro!(@impl $e)
            }
        }

        #[doc(hidden)]
        #[macro_export]
        macro_rules! __custom_impl_macro {
            (#internal $e:expr) => {
                format!(\"{}\", $e)
            }
        }

        #[allow(unused_macros)]
        macro_rules! custom_impl_macro {
            (#internal $e:expr) => {
                format!(\"{}\", $e)
            };
            (@impl $e:expr) => {
                custom_impl_macro!(#internal $e)
            };
            ($e:expr) => {
                custom_impl_macro!(@impl $e)
            };
        }";
    let arguments = vec![
        text_arg("impl", "#internal"),
        text_arg("internal", "__custom_impl_macro"),
        always(true),
    ];
    assert_eq!(transform(arguments, definition), lex(expected));
    let renamed = vec![
        always(true),
        text_arg("internal", "hidden_twin"),
        text_arg("impl", "#internal"),
    ];
    assert_eq!(
        transform(renamed, definition),
        lex(&expected.replace("__custom_impl_macro", "hidden_twin"))
    );
}

#[test]
fn multiple_internal_output() {
    let definition = "
        #[macro_export]
        macro_rules! multiple_internal_macro {
            (@impl[0] $e:expr) => {
                multiple_internal_macro!(@impl[1] ->[$e]<-)
            };
            (@impl[1] $($t:tt)+) => {
                multiple_internal_macro!(@impl[2] stringify!($($t)+))
            };
            (@impl[2] $e:expr) => {
                format!(\"{}\", $e)
            };
            ($e:expr) => {
                multiple_internal_macro!(@impl[0] $e)
            };
        }";
    let expected = "
        #[macro_export]
        macro_rules! multiple_internal_macro {
            ($e:expr) => {
                $crate::__multiple_internal_macro!(@impl[0] $e)
            }
        }

        #[doc(hidden)]
        #[macro_export]
        macro_rules! __multiple_internal_macro {
            (@impl[0] $e:expr) => {
                $crate::__multiple_internal_macro!(@impl[1] ->[$e]<-)
            };
            (@impl[1] $($t:tt)+) => {
                $crate::__multiple_internal_macro!(@impl[2] stringify!($($t)+))
            };
            (@impl[2] $e:expr) => {
                format!(\"{}\", $e)
            }
        }

        #[allow(unused_macros)]
        macro_rules! multiple_internal_macro {
            (@impl[0] $e:expr) => {
                multiple_internal_macro!(@impl[1] ->[$e]<-)
            };
            (@impl[1] $($t:tt)+) => {
                multiple_internal_macro!(@impl[2] stringify!($($t)+))
            };
            (@impl[2] $e:expr) => {
                format!(\"{}\", $e)
            };
            ($e:expr) => {
                multiple_internal_macro!(@impl[0] $e)
            };
        }";
    assert_eq!(transform(vec![always(true)], definition), lex(expected));
}

#[test]
fn multiple_public_output() {
    let definition = "
        #[macro_export]
        macro_rules! multiple_public_macro {
            (@impl[parens] $e:expr) => {
                format!(\"({})\", $e)
            };
            (() $e:expr) => {
                multiple_public_macro!(@impl[parens] $e)
            };
            (@impl[braces] $e:expr) => {
                format!(\"{{{}}}\", $e)
            };
            ({} $e:expr) => {
                multiple_public_macro!(@impl[braces] $e)
            };
            (@impl[brackets] $e:expr) => {
                format!(\"[{}]\", $e)
            };
            ([] $e:expr) => {
                multiple_public_macro!(@impl[brackets] $e)
            };
        }";
    let expected = "
        #[macro_export]
        macro_rules! multiple_public_macro {
            (() $e:expr) => {
                $crate::__multiple_public_macro!(@impl[parens] $e)
            };
            ({} $e:expr) => {
                $crate::__multiple_public_macro!(@impl[braces] $e)
            };
            ([] $e:expr) => {
                $crate::__multiple_public_macro!(@impl[brackets] $e)
            }
        }

        #[doc(hidden)]
        #[macro_export]
        macro_rules! __multiple_public_macro {
            (@impl[parens] $e:expr) => {
                format!(\"({})\", $e)
            };
            (@impl[braces] $e:expr) => {
                format!(\"{{{}}}\", $e)
            };
            (@impl[brackets] $e:expr) => {
                format!(\"[{}]\", $e)
            }
        }
        #[allow(unused_macros)]";
    let out = transform(vec![always(true)], definition);
    let mut shadow = lex(definition);
    shadow.drain(0..2);
    let mut all = lex(expected);
    all.extend(shadow);
    assert_eq!(out, all);
}

const NO_INTERNAL: &str = "
    #[macro_export]
    macro_rules! no_internal_macro {
        ($e:expr) => {
            format!(\"{}\", $e)
        };
    }";

#[test]
fn no_internal_output() {
    assert_eq!(transform(vec![always(true)], NO_INTERNAL), lex(NO_INTERNAL));
    // The body is not rewritten either, though it invokes the macro.
    let invoking = "macro_rules! m { (a) => { m!(b) }; (b) => { m!(@ c) } }";
    assert_eq!(transform(vec![always(true)], invoking), lex(invoking));
    let empty = "macro_rules! m {}";
    assert_eq!(transform(vec![always(true)], empty), lex(empty));
}

#[test]
fn runs_only_where_it_is_asked_to() {
    let item = lex(SIMPLE);
    let split = transform(vec![always(true)], SIMPLE);
    assert_ne!(split, item);
    let run = |arguments: Vec<Argument>, documenting| clean_docs(&arguments, &item, documenting);
    assert_eq!(run(vec![], false), Ok(item.clone()));
    assert_eq!(run(vec![always(false)], false), Ok(item.clone()));
    assert_eq!(run(vec![text_arg("impl", "@"), Argument::Other], false), Ok(item.clone()));
    assert_eq!(run(vec![always(true), always(false)], false), Ok(item.clone()));
    assert_eq!(run(vec![], true), Ok(split.clone()));
    assert_eq!(run(vec![always(false)], true), Ok(split.clone()));
    assert_eq!(run(vec![always(true)], true), Ok(split.clone()));
    assert_eq!(run(vec![always(true)], false), Ok(split));
}

#[test]
fn a_definition_that_is_not_split_is_printed_anew() {
    // A `!` that is joined to the name comes back alone.
    let mut item = lex("macro_rules! m {}");
    item[1] = Token::Punct('!', PunctSpacing::Joint);
    assert_eq!(clean_docs(&vec![], &item, false), Ok(lex("macro_rules! m {}")));
}

#[test]
fn errors_of_the_item_come_first() {
    let bad_item = lex("macro_rules simple_macro {}");
    let bad_arguments = vec![always(true), text_arg("never", "x")];
    let parse_error =
        ParseError { kind: ParseErrorKind::ExpectedBang, index: 1, inside: None, at_end: false };
    assert_eq!(clean_docs(&vec![], &bad_item, true), Err(CleanDocsError::Parse(parse_error)));
    assert_eq!(
        clean_docs(&bad_arguments, &bad_item, true),
        Err(CleanDocsError::Parse(parse_error))
    );
    let config_error = |index, kind| ConfigError { index, kind };
    assert_eq!(
        clean_docs(&bad_arguments, &lex(SIMPLE), false),
        Err(CleanDocsError::Config(config_error(
            1,
            ConfigErrorKind::InvalidArgument(path("never"))
        )))
    );
    assert_eq!(
        clean_docs(&vec![text_arg("impl", "}")], &lex(SIMPLE), false),
        Err(CleanDocsError::Config(config_error(
            0,
            ConfigErrorKind::InvalidTokens("}".to_string())
        )))
    );
    assert_eq!(
        clean_docs(&vec![always(true), always(true), text_arg("internal", "a b")], &lex(SIMPLE), false),
        Err(CleanDocsError::Config(config_error(
            2,
            ConfigErrorKind::ExpectedIdentifier("a b".to_string())
        )))
    );
    let mac_rules = MacroRules::parse(&lex(SIMPLE)).unwrap();
    assert_eq!(
        clean_docs_impl(&bad_arguments, true, mac_rules.clone()),
        Err(config_error(1, ConfigErrorKind::InvalidArgument(path("never"))))
    );
    assert_eq!(
        clean_docs_impl(&vec![always(true)], false, mac_rules),
        Ok(transform(vec![always(true)], SIMPLE))
    );
}

#[test]
fn documentation_and_export_leave_the_copies() {
    let definition = "
        /// Documented.
        #[doc = \"More.\"]
        #[macro_export]
        #[doc(alias = \"n\")]
        #[cfg(test)]
        #[a::doc]
        macro_rules! m {
            (@a) => { 1 };
            () => { m!(@a) };
        }";
    let expected = "
        /// Documented.
        #[doc = \"More.\"]
        #[macro_export]
        #[doc(alias = \"n\")]
        #[cfg(test)]
        #[a::doc]
        macro_rules! m {
            () => { $crate::__m!(@a) }
        }

        #[doc(hidden)]
        #[macro_export]
        #[cfg(test)]
        #[a::doc]
        macro_rules! __m {
            (@a) => { 1 }
        }

        #[allow(unused_macros)]
        #[cfg(test)]
        #[a::doc]
        macro_rules! m {
            (@a) => { 1 };
            () => { m!(@a) };
        }";
    assert_eq!(transform(vec![always(true)], definition), lex(expected));
}

#[test]
fn keeps_the_attributes_that_stay() {
    let attribute = |name: &str| Attribute { path: path(name), tokens: lex("(x)") };
    let attrs = vec![
        attribute("doc"),
        attribute("macro_export"),
        attribute("cfg"),
        attribute("doc"),
        Attribute {
            path: Path { leading_colon: true, segments: vec!["doc".to_string()] },
            tokens: vec![],
        },
    ];
    assert_eq!(
        retain_attrs(&attrs, false),
        vec![attrs[1].clone(), attrs[2].clone(), attrs[4].clone()]
    );
    assert_eq!(retain_attrs(&attrs, true), vec![attrs[2].clone(), attrs[4].clone()]);
    assert_eq!(retain_attrs(&vec![], true), vec![]);
}

#[test]
fn the_brackets_and_the_last_semicolon_stay() {
    let definition = "macro_rules! m ( [@a] => (1); {} => [m![@a]]; );";
    let expected = "
        macro_rules! m ( {} => [$crate::__m![@a]] );
        #[doc(hidden)]
        macro_rules! __m ( [@a] => (1) );
        #[allow(unused_macros)]
        macro_rules! m ( [@a] => (1); {} => [m![@a]]; );";
    assert_eq!(transform(vec![always(true)], definition), lex(expected));
}

#[test]
fn a_macro_of_internal_rules_alone() {
    let definition = "macro_rules! m { (@a) => { m!(@b) }; (@b) => { 2 } }";
    let expected = "
        macro_rules! m {}
        #[doc(hidden)]
        macro_rules! __m { (@a) => { $crate::__m!(@b) }; (@b) => { 2 } }
        #[allow(unused_macros)]
        macro_rules! m { (@a) => { m!(@b) }; (@b) => { 2 } }";
    assert_eq!(transform(vec![always(true)], definition), lex(expected));
}

#[test]
fn the_path_of_the_definition_stays() {
    let definition = "::std::macro_rules! m { (@a) => { 1 }; () => { m!(@a) } }";
    let expected = "
        ::std::macro_rules! m { () => { $crate::__m!(@a) } }
        #[doc(hidden)]
        ::std::macro_rules! __m { (@a) => { 1 } }
        #[allow(unused_macros)]
        ::std::macro_rules! m { (@a) => { 1 }; () => { m!(@a) } }";
    assert_eq!(transform(vec![always(true)], definition), lex(expected));
}

#[test]
fn default_name_of_the_hidden_macro() {
    assert_eq!(default_priv_ident("simple_macro"), "__simple_macro");
    assert_eq!(default_priv_ident("m"), "__m");
    assert_eq!(default_priv_ident("r#type"), "__type");
    assert_eq!(default_priv_ident("r"), "__r");
    assert_eq!(default_priv_ident("__m"), "____m");
    assert_eq!(default_priv_marker(), vec![Token::Punct('@', PunctSpacing::Joint)]);
    let definition = "macro_rules! r#try { (@a) => { 1 }; () => { r#try!(@a) } }";
    let expected = "
        macro_rules! r#try { () => { $crate::__try!(@a) } }
        #[doc(hidden)]
        macro_rules! __try { (@a) => { 1 } }
        #[allow(unused_macros)]
        macro_rules! r#try { (@a) => { 1 }; () => { r#try!(@a) } }";
    assert_eq!(transform(vec![always(true)], definition), lex(expected));
}

#[test]
fn every_rule_goes_to_one_side_in_its_order() {
    let definition = "macro_rules! m {
        (@a) => { a };
        (b) => { b };
        (@c) => { c };
        (@d) => { d };
        (e) => { e };
        (f @) => { f }
    }";
    let out = transform(vec![always(true)], definition);
    let expected = "
        macro_rules! m { (b) => { b }; (e) => { e }; (f @) => { f } }
        #[doc(hidden)]
        macro_rules! __m { (@a) => { a }; (@c) => { c }; (@d) => { d } }
        #[allow(unused_macros)]
        macro_rules! m {
            (@a) => { a }; (b) => { b }; (@c) => { c }; (@d) => { d }; (e) => { e }; (f @) => { f }
        }";
    assert_eq!(out, lex(expected));
}

use clean_macro_docs::replace_macro_invocs::replace_macro_invocs;
use clean_macro_docs::text::tokens_of_text;
use clean_macro_docs::token::{GroupDelimiter, PunctSpacing, Token};

fn lex(text: &str) -> Vec<Token> {
    tokens_of_text(text).expect("the text holds tokens")
}

fn at_marker() -> Vec<Token> {
    vec![Token::Punct('@', PunctSpacing::Joint)]
}

fn replace(body: &str) -> Vec<Token> {
    replace_macro_invocs(lex(body), "mac", "__mac", &at_marker())
}

#[test]
fn redirects_a_marked_invocation() {
    assert_eq!(replace("mac!(@impl $e)"), lex("$crate::__mac!(@impl $e)"));
    assert_eq!(replace("mac![@impl $e]"), lex("$crate::__mac![@impl $e]"));
    assert_eq!(replace("mac!{@impl $e}"), lex("$crate::__mac!{@impl $e}"));
    assert_eq!(replace("mac!(@)"), lex("$crate::__mac!(@)"));
    assert_eq!(
        replace("let x = mac!(@a 1) + mac!(@b 2);"),
        lex("let x = $crate::__mac!(@a 1) + $crate::__mac!(@b 2);")
    );
}

#[test]
fn the_path_has_five_tokens() {
    assert_eq!(
        replace("mac!(@)"),
        vec![
            Token::Punct('$', PunctSpacing::Alone),
            Token::Ident("crate".to_string()),
            Token::Punct(':', PunctSpacing::Joint),
            Token::Punct(':', PunctSpacing::Alone),
            Token::Ident("__mac".to_string()),
            Token::Punct('!', PunctSpacing::Alone),
            Token::Group(
                GroupDelimiter::Parenthesis,
                vec![Token::Punct('@', PunctSpacing::Alone)]
            ),
        ]
    );
}

#[test]
fn leaves_an_unmarked_invocation() {
    for body in [
        "mac!($e)",
        "mac!()",
        "mac!(impl @)",
        "mac!(# impl)",
        "other!(@impl $e)",
        "__mac!(@impl $e)",
        "mac(@impl $e)",
        "mac ! x (@impl)",
        "mac!",
        "mac",
        "!(@impl)",
        "mac ? (@impl)",
        "mac ! @impl",
        "format!(\"{}\", $e)",
        "",
    ] {
        assert_eq!(replace(body), lex(body), "{}", body);
    }
}

#[test]
fn leaves_a_group_in_invisible_brackets() {
    let mut body = lex("mac!");
    body.push(Token::Group(GroupDelimiter::Invisible, lex("@impl")));
    assert_eq!(replace_macro_invocs(body.clone(), "mac", "__mac", &at_marker()), body);
}

#[test]
fn the_bang_may_be_joined() {
    let mut body = vec![
        Token::Ident("mac".to_string()),
        Token::Punct('!', PunctSpacing::Joint),
    ];
    body.extend(lex("(@impl)"));
    let out = replace_macro_invocs(body, "mac", "__mac", &at_marker());
    assert_eq!(out.len(), 7);
    assert_eq!(out[4], Token::Ident("__mac".to_string()));
    assert_eq!(out[5], Token::Punct('!', PunctSpacing::Joint));
}

#[test]
fn redirects_within_nested_groups() {
    assert_eq!(
        replace("{ [ ( mac!(@impl $e) ) ] }"),
        lex("{ [ ( $crate::__mac!(@impl $e) ) ] }")
    );
    assert_eq!(
        replace("a { b [ c ( d { mac!(@x) e } f ) g ] h } mac!(y)"),
        lex("a { b [ c ( d { $crate::__mac!(@x) e } f ) g ] h } mac!(y)")
    );
    // Within the arguments of another invocation, redirected or not.
    assert_eq!(
        replace("mac!(@a mac!(@b mac!(c mac!(@d))))"),
        lex("$crate::__mac!(@a $crate::__mac!(@b mac!(c $crate::__mac!(@d))))")
    );
    assert_eq!(
        replace("vec![mac!(@impl 1), mac!(2)]"),
        lex("vec![$crate::__mac!(@impl 1), mac!(2)]")
    );
}

#[test]
fn redirects_within_a_group_in_invisible_brackets() {
    let body = vec![Token::Group(GroupDelimiter::Invisible, lex("mac!(@impl)"))];
    let expected = vec![Token::Group(GroupDelimiter::Invisible, lex("$crate::__mac!(@impl)"))];
    assert_eq!(replace_macro_invocs(body, "mac", "__mac", &at_marker()), expected);
}

#[test]
fn uses_the_given_marker_and_names() {
    let marker = lex("#internal");
    assert_eq!(
        replace_macro_invocs(
            lex("custom_impl_macro!(#internal $e)"),
            "custom_impl_macro",
            "__custom_impl_macro",
            &marker
        ),
        lex("$crate::__custom_impl_macro!(#internal $e)")
    );
    assert_eq!(
        replace_macro_invocs(lex("m!(@impl $e) m!(#internal)"), "m", "hidden", &marker),
        lex("m!(@impl $e) $crate::hidden!(#internal)")
    );
    // A marker of several tokens has to be there whole.
    assert_eq!(
        replace_macro_invocs(lex("m!(# $e) m!(#)"), "m", "hidden", &marker),
        lex("m!(# $e) m!(#)")
    );
}

#[test]
fn the_marker_is_a_prefix_of_the_text() {
    // `implicit` starts with `impl` as text, though no token of it is `impl`.
    assert_eq!(
        replace_macro_invocs(lex("m!(implicit) m!(imp)"), "m", "n", &lex("impl")),
        lex("$crate::n!(implicit) m!(imp)")
    );
    // `@ impl` does not start with `@impl`: a joined `@` prints no space.
    let joined = vec![Token::Punct('@', PunctSpacing::Joint), Token::Ident("impl".to_string())];
    assert_eq!(replace_macro_invocs(lex("m!(@impl)"), "m", "n", &joined), lex("m!(@impl)"));
    // An empty marker starts every text.
    assert_eq!(replace_macro_invocs(lex("m!() m!(x)"), "m", "n", &vec![]), lex("$crate::n!() $crate::n!(x)"));
}

#[test]
fn a_marker_without_text_marks_nothing() {
    let marker = vec![Token::Punct('a', PunctSpacing::Alone)];
    assert_eq!(replace_macro_invocs(lex("m!(@impl) { m!(a) }"), "m", "n", &marker), lex("m!(@impl) { m!(a) }"));
    let body = vec![
        Token::Ident("m".to_string()),
        Token::Punct('!', PunctSpacing::Alone),
        Token::Group(GroupDelimiter::Parenthesis, vec![Token::Literal("@".to_string())]),
    ];
    assert_eq!(replace_macro_invocs(body.clone(), "m", "n", &at_marker()), body);
}

#[test]
fn internal_rules_that_invoke_each_other() {
    let bodies = [
        ("multiple_internal_macro!(@impl[1] ->[$e]<-)", "$crate::__multiple_internal_macro!(@impl[1] ->[$e]<-)"),
        (
            "multiple_internal_macro!(@impl[2] stringify!($($t)+))",
            "$crate::__multiple_internal_macro!(@impl[2] stringify!($($t)+))",
        ),
        ("format!(\"{}\", $e)", "format!(\"{}\", $e)"),
        ("multiple_internal_macro!(@impl[0] $e)", "$crate::__multiple_internal_macro!(@impl[0] $e)"),
    ];
    for (body, expected) in bodies {
        assert_eq!(
            replace_macro_invocs(
                lex(body),
                "multiple_internal_macro",
                "__multiple_internal_macro",
                &at_marker()
            ),
            lex(expected)
        );
    }
}

#[test]
fn a_raw_name_is_another_name() {
    assert_eq!(replace_macro_invocs(lex("r#m!(@a) m!(@a)"), "m", "n", &at_marker()), lex("r#m!(@a) $crate::n!(@a)"));
    assert_eq!(replace_macro_invocs(lex("r#m!(@a) m!(@a)"), "r#m", "n", &at_marker()), lex("$crate::n!(@a) m!(@a)"));
}

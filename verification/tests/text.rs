use clean_macro_docs::replace_macro_invocs::is_marked;
use clean_macro_docs::text::{
    has_known_puncts, punct_char_known, stream_text, text_equal, text_starts_with,
    tokens_of_text,
};
use clean_macro_docs::token::{
    copy_stream, push_group, push_ident, push_punct, GroupDelimiter, PunctSpacing, Token,
};

fn lex(text: &str) -> Vec<Token> {
    tokens_of_text(text).expect("the text holds tokens")
}

#[test]
fn lexes_a_group_and_prints_it_again() {
    let stream = lex("(@impl $e:expr)");
    assert_eq!(stream.len(), 1);
    match &stream[0] {
        Token::Group(delimiter, inner) => {
            assert_eq!(*delimiter, GroupDelimiter::Parenthesis);
            assert_eq!(inner.len(), 6);
            assert_eq!(inner[0], Token::Punct('@', PunctSpacing::Alone));
            assert_eq!(inner[1], Token::Ident("impl".to_string()));
            assert_eq!(inner[2], Token::Punct('$', PunctSpacing::Alone));
            assert_eq!(inner[3], Token::Ident("e".to_string()));
            assert_eq!(inner[4], Token::Punct(':', PunctSpacing::Alone));
            assert_eq!(inner[5], Token::Ident("expr".to_string()));
            assert_eq!(stream_text(inner), Some("@ impl $ e : expr".to_string()));
        }
        _ => panic!("expected a group"),
    }
    assert_eq!(stream_text(&stream), Some("(@ impl $ e : expr)".to_string()));
}

#[test]
fn lexes_every_kind_of_token() {
    let stream = lex("a::b => [1u8, \"two\"] {}");
    assert_eq!(
        stream,
        vec![
            Token::Ident("a".to_string()),
            Token::Punct(':', PunctSpacing::Joint),
            Token::Punct(':', PunctSpacing::Alone),
            Token::Ident("b".to_string()),
            Token::Punct('=', PunctSpacing::Joint),
            Token::Punct('>', PunctSpacing::Alone),
            Token::Group(
                GroupDelimiter::Bracket,
                vec![
                    Token::Literal("1u8".to_string()),
                    Token::Punct(',', PunctSpacing::Alone),
                    Token::Literal("\"two\"".to_string()),
                ],
            ),
            Token::Group(GroupDelimiter::Brace, vec![]),
        ]
    );
}

#[test]
fn a_documentation_comment_is_an_attribute() {
    let stream = lex("/// Simple\nmacro_rules! m {}");
    assert_eq!(stream[0], Token::Punct('#', PunctSpacing::Alone));
    assert_eq!(
        stream[1],
        Token::Group(
            GroupDelimiter::Bracket,
            vec![
                Token::Ident("doc".to_string()),
                Token::Punct('=', PunctSpacing::Alone),
                Token::Literal("\" Simple\"".to_string()),
            ],
        )
    );
}

#[test]
fn text_without_tokens() {
    assert_eq!(tokens_of_text("(unbalanced"), None);
    assert_eq!(tokens_of_text("closing)"), None);
    assert_eq!(tokens_of_text("\"open string"), None);
    assert_eq!(tokens_of_text(""), Some(vec![]));
}

#[test]
fn prints_as_proc_macro2_does() {
    let texts = [
        "",
        "@impl $e:expr",
        "{ a } { } ( ) [ x ]",
        "a::b::c!{ x => y; }",
        "->[54321]<-",
        "format!(\"{}\", $e)",
        "'a 'static r#type -1 1.5e3",
    ];
    for text in texts {
        let outside: proc_macro2::TokenStream = text.parse().unwrap();
        assert_eq!(stream_text(&lex(text)), Some(outside.to_string()));
    }
    assert_eq!(stream_text(&lex("->[54321]<-")), Some("-> [54321] <-".to_string()));
    assert_eq!(stream_text(&lex("{a}")), Some("{ a }".to_string()));
    assert_eq!(stream_text(&lex("{}")), Some("{ }".to_string()));
}

#[test]
fn a_joint_punct_prints_without_a_space_after_it() {
    let joint = vec![Token::Punct('@', PunctSpacing::Joint), Token::Ident("impl".to_string())];
    let alone = vec![Token::Punct('@', PunctSpacing::Alone), Token::Ident("impl".to_string())];
    assert_eq!(stream_text(&joint), Some("@impl".to_string()));
    assert_eq!(stream_text(&alone), Some("@ impl".to_string()));
}

#[test]
fn an_invisible_group_prints_its_inside() {
    let stream = vec![Token::Group(GroupDelimiter::Invisible, lex("a b"))];
    assert_eq!(stream_text(&stream), Some("a b".to_string()));
}

#[test]
fn tokens_without_text() {
    // An unknown punctuation character.
    let stream = vec![Token::Punct('a', PunctSpacing::Alone)];
    assert!(!has_known_puncts(&stream));
    assert_eq!(stream_text(&stream), None);
    // The same one level down.
    let nested = vec![Token::Group(GroupDelimiter::Brace, stream)];
    assert!(!has_known_puncts(&nested));
    assert_eq!(stream_text(&nested), None);
    // A text that is no identifier, and one that is no literal.
    assert_eq!(stream_text(&vec![Token::Ident("not an ident".to_string())]), None);
    assert_eq!(stream_text(&vec![Token::Ident("".to_string())]), None);
    assert_eq!(stream_text(&vec![Token::Ident("1".to_string())]), None);
    assert_eq!(stream_text(&vec![Token::Literal("x".to_string())]), None);
    assert_eq!(
        stream_text(&vec![Token::Group(
            GroupDelimiter::Parenthesis,
            vec![Token::Literal("1 2".to_string())]
        )]),
        None
    );
    // Reserved words and raw identifiers are identifiers.
    assert_eq!(stream_text(&vec![Token::Ident("crate".to_string())]), Some("crate".to_string()));
    assert_eq!(stream_text(&vec![Token::Ident("r#fn".to_string())]), Some("r#fn".to_string()));
    assert_eq!(stream_text(&vec![Token::Ident("_".to_string())]), Some("_".to_string()));
}

#[test]
fn punctuation_characters() {
    for ch in "!#$%&'*+,-./:;<=>?@^|~".chars() {
        assert!(punct_char_known(ch), "{}", ch);
        assert!(stream_text(&vec![Token::Punct(ch, PunctSpacing::Alone)]).is_some());
    }
    for ch in "()[]{}\"\\_`a0 ".chars() {
        assert!(!punct_char_known(ch), "{}", ch);
    }
    assert!(has_known_puncts(&lex("a + b { c - d [ e ! ] }")));
    assert!(has_known_puncts(&vec![]));
}

#[test]
fn prefix_of_text() {
    assert!(text_starts_with("@ impl", "@"));
    assert!(text_starts_with("@ impl", "@ impl"));
    assert!(!text_starts_with("@", "@ impl"));
    assert!(text_starts_with("abc", ""));
    assert!(text_starts_with("", ""));
    assert!(!text_starts_with("", "a"));
    assert!(!text_starts_with("abc", "abd"));
    assert!(text_starts_with("äö ü", "äö"));
}

#[test]
fn equal_texts() {
    assert!(text_equal("doc", "doc"));
    assert!(!text_equal("doc", "docs"));
    assert!(!text_equal("docs", "doc"));
    assert!(!text_equal("doc", "dot"));
    assert!(text_equal("", ""));
}

#[test]
fn marked_text() {
    let some = |text: &str| Some(text.to_string());
    assert!(is_marked(&some("@ impl $ e"), &some("@")));
    assert!(!is_marked(&some("$ e"), &some("@")));
    assert!(!is_marked(&None, &some("@")));
    assert!(!is_marked(&some("@ impl"), &None));
    assert!(!is_marked(&None, &None));
    // The test is on the text, not on the tokens: `implicit` starts with `impl`.
    assert!(is_marked(&some("implicit"), &some("impl")));
}

#[test]
fn a_copy_holds_the_same_tokens() {
    let stream = lex("a { b ( c [ d ] ) } \"e\" + 1");
    assert_eq!(copy_stream(&stream), stream);
    assert_eq!(stream[1].clone(), stream[1]);
}

#[test]
fn pushes_tokens() {
    let mut tokens = Vec::new();
    push_ident(&mut tokens, "a");
    push_punct(&mut tokens, '+', PunctSpacing::Joint);
    push_punct(&mut tokens, '=', PunctSpacing::Alone);
    push_group(&mut tokens, GroupDelimiter::Bracket, lex("b"));
    assert_eq!(tokens, lex("a += [b]"));
}

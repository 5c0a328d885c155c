use roto::syntax::token::Token;
use roto::syntax::{lex, LexedToken};

#[test]
fn token_spans_are_exact_and_non_code_regions_are_opaque() {
    let block_comment = "/* outer / /* nested % */ still comment */";
    let source = format!("{block_comment} // ignored / %\n\"string / %\" '/' value / 2");
    let tokens = lex(&source);

    assert_eq!(
        tokens.first(),
        Some(&LexedToken {
            token: Some(Token::BlockComment(block_comment)),
            span: 0..block_comment.len(),
        })
    );

    let string_start = source.find("\"string / %\"").unwrap();
    assert!(tokens.iter().any(|token| {
        token.span == (string_start..string_start + "\"string / %\"".len())
            && matches!(token.token, Some(Token::String(_)))
    }));

    let char_start = source.find("'/'").unwrap();
    assert!(tokens.iter().any(|token| {
        token.span == (char_start..char_start + "'/'".len())
            && matches!(token.token, Some(Token::Char(_)))
    }));

    let operators = tokens
        .iter()
        .filter_map(|token| match token.token {
            Some(Token::Slash) => Some("/"),
            Some(Token::Percent) => Some("%"),
            _ => None,
        })
        .collect::<Vec<_>>();
    assert_eq!(operators, ["/"]);
}

#[test]
fn invalid_unicode_advances_by_one_codepoint() {
    let tokens = lex("☃ ok");
    assert_eq!(tokens[0].token, None);
    assert_eq!(tokens[0].span, 0..'☃'.len_utf8());
    assert_eq!(tokens[1].token, Some(Token::Ident("ok")));
    assert_eq!(tokens[1].span, 4..6);
}

#[test]
fn f_string_text_is_opaque_but_interpolations_are_tokenized() {
    let source = "f\"λ / % {value / 2}\" / 4";
    let tokens = lex(source);
    let operators = tokens
        .iter()
        .filter_map(|token| match token.token {
            Some(Token::Slash) => Some("/"),
            Some(Token::Percent) => Some("%"),
            _ => None,
        })
        .collect::<Vec<_>>();

    assert_eq!(operators, ["/", "/"]);
    assert!(tokens.iter().any(|token| {
        matches!(token.token, Some(Token::FStringText("λ / % ")))
            && &source[token.span.clone()] == "λ / % "
    }));
    assert!(tokens.iter().any(|token| {
        matches!(token.token, Some(Token::FStringEnd("\"")))
            && &source[token.span.clone()] == "\""
    }));
}

#[test]
fn regex_prefixes_do_not_change_identifiers_or_normal_strings() {
    let tokens: Vec<_> = lex("r regex r_name r1 r# \"text\";")
        .into_iter()
        .map(|token| token.token.unwrap())
        .collect();
    assert_eq!(
        tokens,
        [
            Token::Ident("r"),
            Token::Ident("regex"),
            Token::Ident("r_name"),
            Token::Ident("r1"),
            Token::Ident("r"),
            Token::Hash,
            Token::String("\"text\""),
            Token::SemiColon,
        ]
    );
}

#[test]
fn regex_literals_preserve_raw_bodies_and_exact_spans_at_eof() {
    for (hash_count, pattern) in [
        (0, ""),
        (1, ""),
        (2, ""),
        (0, r"\d"),
        (0, r"\\d"),
        (1, r#"say "hello""#),
        (2, "one\"#two"),
        (3, "one\"##two"),
        (1, "one\"###two"),
        (0, "one\"#two"),
        (0, "λ雪🦀"),
        (0, "first\nsecond\r\nthird"),
        (2, "λ\n\"#🦀\nend\\"),
    ] {
        let hashes = "#".repeat(hash_count);
        let literal = format!("r{hashes}\"{pattern}\"{hashes}");
        let source = format!(" \n{literal}");
        assert_eq!(
            lex(&source),
            [LexedToken {
                token: Some(Token::Regex(&literal)),
                span: 2..source.len(),
            }],
            "{source:?}",
        );
        assert_eq!(Token::Regex(&literal).to_string(), literal);
    }
}

#[test]
fn unterminated_regex_is_one_token_and_has_a_full_literal_diagnostic() {
    for literal in [
        "r\"",
        "r\"\\d",
        "r#\"",
        "r#\"unclosed\"",
        "r##\"λ\nunclosed\"#",
        "r#\"excess\"##",
        "r\"excess\"#",
    ] {
        let prefix = "// 雪\nconst PATTERN: Pattern = ";
        let source = format!("{prefix}{literal}");
        let tokens = lex(&source);
        let last = tokens.last().unwrap();
        assert_eq!(last.token, Some(Token::UnterminatedRegex(literal)));
        assert_eq!(last.span, prefix.len()..source.len());
    }
}

#[test]
fn lexed_tokens_display_as_their_source_text() {
    let source = "filtermap main(x: u32) -> Verdict[u8, ()] { if x >= 10u32 && AS65536 != 0x1F { accept 1.5f64 } \
                  else { reject 192.0.2.1 } } // done\nlet y = ::1; z += 2;";
    for token in lex(source) {
        let t = token.token.unwrap();
        assert_eq!(t.to_string(), &source[token.span.clone()], "{t:?}");
    }
}

#[test]
fn numbers_words_and_addresses_are_classified() {
    let kinds: Vec<_> = lex("12 3i64 4.5 6.5f32 0xAB AS12 true false let 10.0.0.1 2001:db8::1 fn_name")
        .into_iter()
        .map(|t| t.token.unwrap())
        .collect();
    assert_eq!(
        kinds,
        [
            Token::Integer("12", ""),
            Token::Integer("3", "i64"),
            Token::Float("4.5", ""),
            Token::Float("6.5", "f32"),
            Token::Hex("0xAB"),
            Token::Asn("AS12"),
            Token::Bool(true),
            Token::Bool(false),
            Token::Keyword(roto::syntax::token::Keyword::Let),
            Token::IpV4("10.0.0.1"),
            Token::IpV6("2001:db8::1"),
            Token::Ident("fn_name"),
        ]
    );
}

#[test]
fn unterminated_literals_and_stray_bytes_are_invalid() {
    let tokens = lex("\"open & /* never");
    assert_eq!(tokens.len(), 1);
    assert_eq!(tokens[0].token, None);
    assert_eq!(tokens[0].span, 0..16);

    let tokens = lex("a & b");
    assert_eq!(tokens[1].token, None);
    assert_eq!(tokens[1].span, 2..3);
}

fn kinds_and_spans(source: &str) -> Vec<(Option<Token<'_>>, std::ops::Range<usize>)> {
    lex(source).into_iter().map(|t| (t.token, t.span)).collect()
}

#[test]
fn braces_inside_an_interpolation_do_not_end_it() {
    assert_eq!(
        kinds_and_spans("f\"a{ {1} }b\" x"),
        [
            (Some(Token::FStringStart), 0..2),
            (Some(Token::FStringText("a")), 2..3),
            (Some(Token::CurlyLeft), 3..4),
            (Some(Token::CurlyLeft), 5..6),
            (Some(Token::Integer("1", "")), 6..7),
            (Some(Token::CurlyRight), 7..8),
            (Some(Token::CurlyRight), 9..10),
            (Some(Token::FStringEnd("b\"")), 10..12),
            (Some(Token::Ident("x")), 13..14),
        ]
    );
}

#[test]
fn f_strings_nest_inside_interpolations() {
    assert_eq!(
        kinds_and_spans("f\"{f\"in{1}\"}\""),
        [
            (Some(Token::FStringStart), 0..2),
            (Some(Token::CurlyLeft), 2..3),
            (Some(Token::FStringStart), 3..5),
            (Some(Token::FStringText("in")), 5..7),
            (Some(Token::CurlyLeft), 7..8),
            (Some(Token::Integer("1", "")), 8..9),
            (Some(Token::CurlyRight), 9..10),
            (Some(Token::FStringEnd("\"")), 10..11),
            (Some(Token::CurlyRight), 11..12),
            (Some(Token::FStringEnd("\"")), 12..13),
        ]
    );
}

#[test]
fn unclosed_f_strings_end_the_tokens() {
    assert_eq!(kinds_and_spans("f\"abc"), [(Some(Token::FStringStart), 0..2)]);
    assert_eq!(
        kinds_and_spans("f\"a{x"),
        [
            (Some(Token::FStringStart), 0..2),
            (Some(Token::FStringText("a")), 2..3),
            (Some(Token::CurlyLeft), 3..4),
            (Some(Token::Ident("x")), 4..5),
        ]
    );
}

#[test]
fn longer_punctuation_is_preferred() {
    let kinds: Vec<_> = lex("a->b -= 1 -- c => d == e").into_iter().map(|t| t.token.unwrap()).collect();
    assert_eq!(
        kinds,
        [
            Token::Ident("a"),
            Token::Arrow,
            Token::Ident("b"),
            Token::MinusEq,
            Token::Integer("1", ""),
            Token::HyphenHyphen,
            Token::Ident("c"),
            Token::FatArrow,
            Token::Ident("d"),
            Token::EqEq,
            Token::Ident("e"),
        ]
    );
}

#[test]
fn type_suffixes_need_a_known_width_and_a_word_end() {
    let kinds: Vec<_> = lex("1u8 2u8x 3u128 4.0f64 5.0f16 6i16").into_iter().map(|t| t.token.unwrap()).collect();
    assert_eq!(
        kinds,
        [
            Token::Integer("1", "u8"),
            Token::Integer("2", ""),
            Token::Ident("u8x"),
            Token::Integer("3", ""),
            Token::Ident("u128"),
            Token::Float("4.0", "f64"),
            Token::Float("5.0", ""),
            Token::Ident("f16"),
            Token::Integer("6", "i16"),
        ]
    );
}

use laria::lexer::LexError;
use laria::lexer::slot_text_range;
use laria::lexer::Lexer;
use laria::lexer::Location;
use laria::lexer::Span;
use laria::lexer::Token;

// The way of writing down the expected spans is that of
// <https://github.com/gluon-lang/gluon/blob/d7ce3e8/parser/src/token.rs>.

fn assert_lex(src: &str, encoded_exp_locs: &str, exp_toks: Vec<Token>) {
    let mut lexer = Lexer::new(src);

    let exp_spans = new_expected_spans(encoded_exp_locs, exp_toks);

    for (n, exp_span) in exp_spans.into_iter().enumerate() {
        let act_span = lexer.next()
            .expect("token stream ended before expected")
            .expect("unexpected error in token stream");

        assert_eq!(
            exp_span,
            act_span,
            "span {} of '{}' wasn't as expected",
            n,
            src,
        );
    }

    let r = lexer.next();
    assert!(
        matches!(r, None),
        "expected end of token stream, got '{:?}'",
        r,
    );
}

fn new_expected_spans(encoded_exp_locs: &str, exp_toks: Vec<Token>) -> Vec<Span> {
    let exp_locs = parse_encoded_locs(encoded_exp_locs);

    if exp_locs.len() != exp_toks.len() {
        panic!("unbalanced number of expected spans and expected tokens");
    }

    exp_locs
        .into_iter()
        .zip(exp_toks)
        .map(|((start, end), tok)| (start, tok, end))
        .collect()
}

fn parse_encoded_locs(encoded_locs: &str) -> Vec<(Location, Location)> {
    let mut locs: Vec<(Location, Location)> = vec![];

    let mut line = 1;
    let mut col = 0;
    let mut span_start = None;

    for c in encoded_locs.chars() {
        col += 1;
        match c {
            '\n' => {
                line += 1;
                col = 0;
            },
            '(' => {
                if span_start.is_some() {
                    panic!("encountered '(' inside span");
                }
                span_start = Some((line, col));
            },
            ')' => {
                if let Some(start) = span_start {
                    let end = (line, col);
                    locs.push((start, end));
                } else {
                    panic!("encountered ')' outside span");
                }
                span_start = None;
            },
            '-' => {
                if span_start.is_none() {
                    let loc = (line, col);
                    locs.push((loc, loc));
                }
            },
            ' ' => {
                if span_start.is_some() {
                    panic!("encountered ' ' inside span");
                }
            },
            c => {
                panic!("encountered '{}' inside spans encoding", c);
            },
        }
    }

    locs
}

fn encoded_locs_cases() -> Vec<(&'static str, Vec<(Location, Location)>)> {
    vec![
        ("-", vec![((1, 1), (1, 1))]),
        (" -", vec![((1, 2), (1, 2))]),
        ("--", vec![((1, 1), (1, 1)), ((1, 2), (1, 2))]),
        (" --", vec![((1, 2), (1, 2)), ((1, 3), (1, 3))]),
        ("---", vec![((1, 1), (1, 1)), ((1, 2), (1, 2)), ((1, 3), (1, 3))]),
        ("- -", vec![((1, 1), (1, 1)), ((1, 3), (1, 3))]),
        ("- --", vec![((1, 1), (1, 1)), ((1, 3), (1, 3)), ((1, 4), (1, 4))]),
        ("()", vec![((1, 1), (1, 2))]),
        ("(-)", vec![((1, 1), (1, 3))]),
        ("(--)", vec![((1, 1), (1, 4))]),
        (" (--)", vec![((1, 2), (1, 5))]),
        ("(--)-", vec![((1, 1), (1, 4)), ((1, 5), (1, 5))]),
        (
            "(--)--(--)",
            vec![((1, 1), (1, 4)), ((1, 5), (1, 5)), ((1, 6), (1, 6)), ((1, 7), (1, 10))],
        ),
        (
            "--(--)--",
            vec![
                ((1, 1), (1, 1)),
                ((1, 2), (1, 2)),
                ((1, 3), (1, 6)),
                ((1, 7), (1, 7)),
                ((1, 8), (1, 8)),
            ],
        ),
        ("-\n-", vec![((1, 1), (1, 1)), ((2, 1), (2, 1))]),
        ("-\n-\n-", vec![((1, 1), (1, 1)), ((2, 1), (2, 1)), ((3, 1), (3, 1))]),
        (
            "-\n--\n-",
            vec![((1, 1), (1, 1)), ((2, 1), (2, 1)), ((2, 2), (2, 2)), ((3, 1), (3, 1))],
        ),
        (
            "-\n---\n-",
            vec![
                ((1, 1), (1, 1)),
                ((2, 1), (2, 1)),
                ((2, 2), (2, 2)),
                ((2, 3), (2, 3)),
                ((3, 1), (3, 1)),
            ],
        ),
        ("-\n()\n-", vec![((1, 1), (1, 1)), ((2, 1), (2, 2)), ((3, 1), (3, 1))]),
        ("-\n(-)\n-", vec![((1, 1), (1, 1)), ((2, 1), (2, 3)), ((3, 1), (3, 1))]),
    ]
}

#[test]
fn lexer_test_lexs() {
    assert_lex(
        r#"print ( "hello" )"#,
        r#"(---) - (-----) -"#,
        vec![
            Token::Ident("print".to_string()),
            Token::ParenOpen,
            Token::StrLiteral("hello".to_string()),
            Token::ParenClose,
        ],
    );
}

#[test]
fn lexer_test_parse_encoded_locs() {
    for (src, tgt) in encoded_locs_cases() {
        let locs = parse_encoded_locs(src);

        assert_eq!(
            &locs,
            &tgt,
            "incorrect locations parsed from '{}'",
            src,
        );
    }
}

#[test]
fn mod_test_lexs() {
    assert_lex(
        r#"print ( "hello" )"#,
        r#"(---) - (-----) -"#,
        vec![
            Token::Ident("print".to_string()),
            Token::ParenOpen,
            Token::StrLiteral("hello".to_string()),
            Token::ParenClose,
        ],
    );
    assert_lex(
        r#"test := 1234 ;"#,
        r#"(--) () (--) -"#,
        vec![
            Token::Ident("test".to_string()),
            Token::ColonEquals,
            Token::IntLiteral(1234),
            Token::Semicolon,
        ],
    );
}

#[test]
fn mod_test_parse_encoded_locs() {
    for (src, tgt) in encoded_locs_cases() {
        let locs = parse_encoded_locs(src);

        assert_eq!(
            &locs,
            &tgt,
            "incorrect locations parsed from '{}'",
            src,
        );
    }
}

fn tokens_of(src: &str) -> Vec<Result<Token, LexError>> {
    let mut lexer = Lexer::new(src);
    let mut out = vec![];
    while let Some(r) = lexer.next() {
        let failed = r.is_err();
        out.push(r.map(|(_, t, _)| t));
        if failed {
            break;
        }
    }
    out
}

fn ok_tokens(src: &str) -> Vec<Token> {
    tokens_of(src).into_iter().map(|r| r.expect("unexpected lex error")).collect()
}

#[test]
fn lexes_keywords_and_identifiers() {
    assert_eq!(
        ok_tokens("break continue else false fn for if in null return true while whilst _x a1"),
        vec![
            Token::Break,
            Token::Continue,
            Token::Else,
            Token::False,
            Token::Fn,
            Token::For,
            Token::If,
            Token::In,
            Token::Null,
            Token::Return,
            Token::True,
            Token::While,
            Token::Ident("whilst".to_string()),
            Token::Ident("_x".to_string()),
            Token::Ident("a1".to_string()),
        ],
    );
}

#[test]
fn lexes_every_symbol() {
    assert_eq!(
        ok_tokens("! } { ] [ : , / . = > < % * ) ( ; - +"),
        vec![
            Token::Bang,
            Token::BraceClose,
            Token::BraceOpen,
            Token::BracketClose,
            Token::BracketOpen,
            Token::Colon,
            Token::Comma,
            Token::Div,
            Token::Dot,
            Token::Equals,
            Token::GreaterThan,
            Token::LessThan,
            Token::Mod,
            Token::Mul,
            Token::ParenClose,
            Token::ParenOpen,
            Token::Semicolon,
            Token::Sub,
            Token::Sum,
        ],
    );
    assert_eq!(
        ok_tokens("&& != := -> /= .. == >= <= %= *= || -= +="),
        vec![
            Token::AmpAmp,
            Token::BangEquals,
            Token::ColonEquals,
            Token::DashGreaterThan,
            Token::DivEquals,
            Token::DotDot,
            Token::EqualsEquals,
            Token::GreaterThanEquals,
            Token::LessThanEquals,
            Token::ModEquals,
            Token::MulEquals,
            Token::PipePipe,
            Token::SubEquals,
            Token::SumEquals,
        ],
    );
}

#[test]
fn lexes_integers_with_separators() {
    assert_eq!(
        ok_tokens("0 1_000_000 9223372036854775807"),
        vec![
            Token::IntLiteral(0),
            Token::IntLiteral(1_000_000),
            Token::IntLiteral(i64::MAX),
        ],
    );
}

#[test]
fn rejects_an_integer_that_is_too_high() {
    let mut lexer = Lexer::new("  9223372036854775808");
    match lexer.next() {
        Some(Err(LexError::IntTooHigh(loc, raw))) => {
            assert_eq!(loc, (1, 3));
            assert_eq!(raw, "9223372036854775808");
        },
        other => panic!("expected IntTooHigh, got {:?}", other),
    }
}

#[test]
fn skips_white_space_and_comments() {
    assert_eq!(
        ok_tokens("# a comment\n  a # another\n\t b #"),
        vec![Token::Ident("a".to_string()), Token::Ident("b".to_string())],
    );
    assert_eq!(ok_tokens(""), vec![]);
    assert_eq!(ok_tokens("   \n # only a comment"), vec![]);
}

#[test]
fn lexes_escapes_in_string_literals() {
    assert_eq!(
        ok_tokens(r#""a\\b\"c\$d\ne\rf\x41\x7a""#),
        vec![Token::StrLiteral("a\\b\"c$d\ne\rfAz".to_string())],
    );
}

#[test]
fn rejects_bad_escapes_and_dollars() {
    assert_eq!(
        tokens_of(r#""a\qb""#),
        vec![Err(LexError::InvalidEscapeChar((1, 4), 'q'))],
    );
    assert_eq!(
        tokens_of(r#""\xg1""#),
        vec![Err(LexError::InvalidHexChar((1, 4), 'g'))],
    );
    assert_eq!(
        tokens_of(r#""a$b""#),
        vec![Err(LexError::UnescapedDollar((1, 3)))],
    );
    assert_eq!(
        tokens_of(r#"$"a$b""#),
        vec![Err(LexError::InvalidInterpolationStart((1, 5), 'b'))],
    );
}

#[test]
fn lexes_interpolation_slots_as_byte_spans() {
    assert_eq!(
        ok_tokens(r#"$"a${b}c${ {d: 1}.d }""#),
        vec![Token::InterpStrLiteral(
            "a${b}c${ {d: 1}.d }".to_string(),
            vec![(1, 5), (6, 19)],
        )],
    );
    // The text before the slot takes three bytes, not two characters.
    assert_eq!(
        ok_tokens("$\"é${x}\""),
        vec![Token::InterpStrLiteral("é${x}".to_string(), vec![(2, 6)])],
    );
}

#[test]
fn rejects_a_character_that_begins_no_token() {
    assert_eq!(tokens_of("a @"), vec![
        Ok(Token::Ident("a".to_string())),
        Err(LexError::Unexpected((1, 3), '@')),
    ]);
}

#[test]
fn a_symbol_takes_the_next_character_where_the_two_spell_a_token() {
    assert_eq!(ok_tokens("!a != !"), vec![
        Token::Bang,
        Token::Ident("a".to_string()),
        Token::BangEquals,
        Token::Bang,
    ]);
    assert_eq!(
        ok_tokens("a<=b<c=>d"),
        vec![
            Token::Ident("a".to_string()),
            Token::LessThanEquals,
            Token::Ident("b".to_string()),
            Token::LessThan,
            Token::Ident("c".to_string()),
            Token::Equals,
            Token::GreaterThan,
            Token::Ident("d".to_string()),
        ],
    );
}

#[test]
fn the_text_of_a_slot_lies_between_its_delimiters() {
    // "${}" holds an empty text.
    assert_eq!(slot_text_range(0, 3, 3), Some((2, 2)));
    // "ab: ${x+1}!" holds "x+1" from byte 6 up to byte 9.
    assert_eq!(slot_text_range(4, 10, 11), Some((6, 9)));
    assert_eq!(slot_text_range(4, 10, 10), Some((6, 9)));
    // A span that ends beyond the literal, or is too short for "${" and
    // "}", has no text.
    assert_eq!(slot_text_range(4, 10, 9), None);
    assert_eq!(slot_text_range(0, 2, 10), None);
    assert_eq!(slot_text_range(5, 3, 10), None);
    assert_eq!(slot_text_range(0, 0, 0), None);
    assert_eq!(slot_text_range(usize::MAX - 1, usize::MAX, usize::MAX), None);
    assert_eq!(
        slot_text_range(usize::MAX - 3, usize::MAX, usize::MAX),
        Some((usize::MAX - 1, usize::MAX - 1)),
    );
}

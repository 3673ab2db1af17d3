use nsharp::definitions::lexer::{CharClass, Lexer, Token, TokenKind, classify};
use nsharp::text::span::TextSpan;

fn lex(input: &str) -> Vec<Token> {
    let mut lexer = Lexer::new(input);
    let mut tokens = Vec::new();
    while let Some(token) = lexer.next_token() {
        tokens.push(token);
    }
    tokens
}

fn kinds(input: &str) -> Vec<TokenKind> {
    lex(input).into_iter().map(|t| t.kind).collect()
}

#[test]
fn empty_input_gives_end_of_file_once() {
    let mut lexer = Lexer::new("");
    let eof = lexer.next_token().unwrap();
    assert_eq!(eof.kind, TokenKind::Eof);
    assert_eq!(eof.span.start, 0);
    assert_eq!(eof.span.end, 0);
    assert_eq!(eof.span.literal, "\0");
    assert!(lexer.next_token().is_none());
    assert!(lexer.next_token().is_none());
}

#[test]
fn let_statement_is_cut_into_tokens() {
    let tokens = lex("let x = 42;");
    let expected = vec![
        (TokenKind::Let, 0, 3, "let"),
        (TokenKind::Whitespace, 3, 4, " "),
        (TokenKind::Identifier, 4, 5, "x"),
        (TokenKind::Whitespace, 5, 6, " "),
        (TokenKind::Equals, 6, 7, "="),
        (TokenKind::Whitespace, 7, 8, " "),
        (TokenKind::Number(42), 8, 10, "42"),
        (TokenKind::Semicolon, 10, 11, ";"),
        (TokenKind::Eof, 0, 0, "\0"),
    ];
    assert_eq!(tokens.len(), expected.len());
    for (token, (kind, start, end, literal)) in tokens.iter().zip(expected) {
        assert_eq!(token.kind, kind);
        assert_eq!(token.span.start, start);
        assert_eq!(token.span.end, end);
        assert_eq!(token.span.literal, literal);
    }
}

#[test]
fn keywords_have_their_own_classes() {
    assert_eq!(
        kinds("let if else true false while func return"),
        vec![
            TokenKind::Let,
            TokenKind::Whitespace,
            TokenKind::If,
            TokenKind::Whitespace,
            TokenKind::Else,
            TokenKind::Whitespace,
            TokenKind::True,
            TokenKind::Whitespace,
            TokenKind::False,
            TokenKind::Whitespace,
            TokenKind::While,
            TokenKind::Whitespace,
            TokenKind::Function,
            TokenKind::Whitespace,
            TokenKind::Return,
            TokenKind::Eof,
        ]
    );
    assert_eq!(kinds("lets"), vec![TokenKind::Identifier, TokenKind::Eof]);
    assert_eq!(kinds("_tmp"), vec![TokenKind::Identifier, TokenKind::Eof]);
    assert_eq!(kinds("for"), vec![TokenKind::Identifier, TokenKind::Eof]);
    assert_eq!(kinds("break"), vec![TokenKind::Break, TokenKind::Eof]);
    assert_eq!(kinds("continue"), vec![TokenKind::Continue, TokenKind::Eof]);
}

#[test]
fn identifiers_stop_at_digits() {
    let tokens = lex("ab12");
    assert_eq!(tokens[0].kind, TokenKind::Identifier);
    assert_eq!(tokens[0].span.literal, "ab");
    assert_eq!(tokens[1].kind, TokenKind::Number(12));
    assert_eq!(tokens[1].span.start, 2);
}

#[test]
fn punctuation_of_one_character() {
    assert_eq!(
        kinds("+%/()&|^~{},:;"),
        vec![
            TokenKind::Plus,
            TokenKind::Percent,
            TokenKind::Slash,
            TokenKind::OpenParenthesis,
            TokenKind::CloseParenthesis,
            TokenKind::Ampersand,
            TokenKind::Pipe,
            TokenKind::Caret,
            TokenKind::Tilde,
            TokenKind::OpenBrace,
            TokenKind::CloseBrace,
            TokenKind::Comma,
            TokenKind::Colon,
            TokenKind::Semicolon,
            TokenKind::Eof,
        ]
    );
}

#[test]
fn operators_of_two_characters() {
    assert_eq!(kinds("->"), vec![TokenKind::Arrow, TokenKind::Eof]);
    assert_eq!(kinds("**"), vec![TokenKind::DoubleAsterisk, TokenKind::Eof]);
    assert_eq!(kinds("=="), vec![TokenKind::DoubleEquals, TokenKind::Eof]);
    assert_eq!(kinds(">="), vec![TokenKind::GreaterThanEquals, TokenKind::Eof]);
    assert_eq!(kinds("<="), vec![TokenKind::LessThanEquals, TokenKind::Eof]);
    assert_eq!(kinds("!="), vec![TokenKind::BangEquals, TokenKind::Eof]);
    assert_eq!(kinds("-"), vec![TokenKind::Minus, TokenKind::Eof]);
    assert_eq!(kinds("*"), vec![TokenKind::Asterisk, TokenKind::Eof]);
    assert_eq!(kinds("="), vec![TokenKind::Equals, TokenKind::Eof]);
    assert_eq!(kinds(">"), vec![TokenKind::GreaterThan, TokenKind::Eof]);
    assert_eq!(kinds("<"), vec![TokenKind::LessThan, TokenKind::Eof]);
    assert_eq!(kinds("!"), vec![TokenKind::Error, TokenKind::Eof]);
    assert_eq!(kinds("-x"), vec![TokenKind::Minus, TokenKind::Identifier, TokenKind::Eof]);
    assert_eq!(
        kinds("***"),
        vec![TokenKind::DoubleAsterisk, TokenKind::Asterisk, TokenKind::Eof]
    );
    let tokens = lex("a<=b");
    assert_eq!(tokens[1].span.start, 1);
    assert_eq!(tokens[1].span.end, 3);
    assert_eq!(tokens[1].span.literal, "<=");
}

#[test]
fn unknown_characters_are_errors() {
    assert_eq!(kinds("#"), vec![TokenKind::Error, TokenKind::Eof]);
    assert_eq!(kinds("[]"), vec![TokenKind::Error, TokenKind::Error, TokenKind::Eof]);
}

#[test]
fn numbers_up_to_the_largest() {
    assert_eq!(kinds("0"), vec![TokenKind::Number(0), TokenKind::Eof]);
    assert_eq!(kinds("007"), vec![TokenKind::Number(7), TokenKind::Eof]);
    assert_eq!(
        kinds("9223372036854775807"),
        vec![TokenKind::Number(i64::MAX), TokenKind::Eof]
    );
}

#[test]
fn numbers_too_large_are_errors() {
    let tokens = lex("9223372036854775808 1");
    assert_eq!(tokens[0].kind, TokenKind::Error);
    assert_eq!(tokens[0].span.end, 19);
    assert_eq!(tokens[0].span.literal, "9223372036854775808");
    assert_eq!(tokens[2].kind, TokenKind::Number(1));
    assert_eq!(kinds("99999999999999999999999999"), vec![TokenKind::Error, TokenKind::Eof]);
}

#[test]
fn white_space_and_letters_beyond_ascii() {
    // U+00A0 is white space; the letters are one token, counted in characters.
    let tokens = lex("\u{a0}\u{e9}t\u{e9} x\n\ty");
    assert_eq!(tokens[0].kind, TokenKind::Whitespace);
    assert_eq!(tokens[1].kind, TokenKind::Identifier);
    assert_eq!(tokens[1].span.start, 1);
    assert_eq!(tokens[1].span.end, 4);
    assert_eq!(tokens[1].span.literal, "\u{e9}t\u{e9}");
    assert_eq!(tokens[3].span.literal, "x");
    assert_eq!(tokens[4].kind, TokenKind::Whitespace);
    assert_eq!(tokens[5].kind, TokenKind::Whitespace);
    assert_eq!(tokens[6].span.start, 8);
}

#[test]
fn classes_of_first_characters() {
    assert_eq!(classify('7', false, false), CharClass::Digit);
    assert_eq!(classify('7', true, true), CharClass::Digit);
    assert_eq!(classify(' ', true, false), CharClass::Whitespace);
    assert_eq!(classify('a', true, true), CharClass::Whitespace);
    assert_eq!(classify('a', false, true), CharClass::Identifier);
    assert_eq!(classify('_', false, false), CharClass::Identifier);
    assert_eq!(classify('+', false, false), CharClass::Punctuation);
}

#[test]
fn token_classes_as_text() {
    assert_eq!(TokenKind::Number(5).to_string(), "Number(5)");
    assert_eq!(TokenKind::Number(-12).to_string(), "Number(-12)");
    assert_eq!(TokenKind::Number(0).to_string(), "Number(0)");
    assert_eq!(TokenKind::Number(i64::MIN).to_string(), "Number(-9223372036854775808)");
    assert_eq!(TokenKind::Plus.to_string(), "Plus");
    assert_eq!(TokenKind::DoubleAsterisk.to_string(), "DoubleAsterisk");
    assert_eq!(TokenKind::GreaterThanEquals.to_string(), "GreaterThanEquals");
    assert_eq!(TokenKind::Function.to_string(), "Function");
    assert_eq!(TokenKind::Eof.to_string(), "Eof");
    assert_eq!(TokenKind::Error.to_string(), "Error");
}

#[test]
fn token_new_keeps_its_parts() {
    let token = Token::new(TokenKind::Comma, TextSpan::new(3, 4, ",".to_string()));
    assert_eq!(token.kind, TokenKind::Comma);
    assert_eq!(token.span.start, 3);
    assert_eq!(token.span.end, 4);
    let copy = token.clone();
    assert_eq!(copy.kind, TokenKind::Comma);
    assert_eq!(copy.span.literal, ",");
}

#[test]
fn white_space_and_letters_of_ascii() {
    // The space and U+0009 to U+000D are white space; their neighbours are not.
    assert_eq!(
        kinds("\u{9}\u{a}\u{b}\u{c}\u{d} "),
        vec![
            TokenKind::Whitespace,
            TokenKind::Whitespace,
            TokenKind::Whitespace,
            TokenKind::Whitespace,
            TokenKind::Whitespace,
            TokenKind::Whitespace,
            TokenKind::Eof,
        ]
    );
    assert_eq!(kinds("\u{8}")[0], TokenKind::Error);
    assert_eq!(kinds("\u{e}")[0], TokenKind::Error);
    assert_eq!(kinds("\u{1f}")[0], TokenKind::Error);
    assert_eq!(kinds("\u{7f}")[0], TokenKind::Error);
    // The letters are `a` to `z` and `A` to `Z`; their neighbours are not.
    assert_eq!(kinds("azAZ"), vec![TokenKind::Identifier, TokenKind::Eof]);
    assert_eq!(kinds("@")[0], TokenKind::Error);
    assert_eq!(kinds("`")[0], TokenKind::Error);
    let tokens = lex("a`z");
    assert_eq!(tokens[0].span.literal, "a");
    assert_eq!(tokens[1].kind, TokenKind::Error);
    assert_eq!(tokens[2].span.literal, "z");
}

use lox_rs::lox_error::{ErrorKind, LoxError, LoxTokenizationError};
use lox_rs::scanner::Scanner;
use lox_rs::token::{Lexeme, Token, TokenType};

fn scan_ok(source: &str) -> Vec<Token> {
    match Scanner::new(source.to_string()).scan_tokens() {
        Ok(tokens) => tokens,
        Err(e) => panic!("unexpected errors: {}", e.message()),
    }
}

fn scan_err(source: &str) -> LoxError {
    match Scanner::new(source.to_string()).scan_tokens() {
        Ok(tokens) => panic!("expected errors, got {} tokens", tokens.len()),
        Err(e) => e,
    }
}

fn kinds(tokens: &[Token]) -> Vec<TokenType> {
    tokens.iter().map(|t| t.token_type).collect()
}

fn tok(kind: TokenType, lexeme: &str, literal: Option<Lexeme>, line: usize) -> Token {
    Token::new(kind, lexeme.to_string(), literal, line)
}

#[test]
fn empty_source_gives_only_end_of_input() {
    let tokens = scan_ok("");
    assert_eq!(tokens, vec![tok(TokenType::EOF, "", None, 1)]);
}

#[test]
fn whitespace_only_source() {
    let tokens = scan_ok(" \t\r\n  \n");
    assert_eq!(tokens, vec![tok(TokenType::EOF, "", None, 3)]);
}

#[test]
fn comment_is_discarded_and_line_advances() {
    let tokens = scan_ok("// comment\n(");
    assert_eq!(
        tokens,
        vec![tok(TokenType::LEFT_PAREN, "(", None, 2), tok(TokenType::EOF, "", None, 2)]
    );
}

#[test]
fn comment_at_end_without_newline() {
    let tokens = scan_ok("+ // trailing");
    assert_eq!(
        tokens,
        vec![tok(TokenType::PLUS, "+", None, 1), tok(TokenType::EOF, "", None, 1)]
    );
}

#[test]
fn bang_equal_is_one_token() {
    assert_eq!(kinds(&scan_ok("!=")), vec![TokenType::BANG_EQUAL, TokenType::EOF]);
}

#[test]
fn bang_alone() {
    assert_eq!(kinds(&scan_ok("!")), vec![TokenType::BANG, TokenType::EOF]);
}

#[test]
fn no_merge_across_whitespace() {
    assert_eq!(
        kinds(&scan_ok("! =")),
        vec![TokenType::BANG, TokenType::EQUAL, TokenType::EOF]
    );
}

#[test]
fn number_with_fraction() {
    let tokens = scan_ok("123.45");
    assert_eq!(
        tokens,
        vec![
            tok(TokenType::NUMBER, "123.45", Some(Lexeme::Num("123.45".to_string())), 1),
            tok(TokenType::EOF, "", None, 1),
        ]
    );
    let value: f64 = tokens[0].lexeme.parse().unwrap();
    assert_eq!(value, 123.45);
}

#[test]
fn number_with_trailing_dot() {
    let tokens = scan_ok("123.");
    assert_eq!(
        tokens,
        vec![
            tok(TokenType::NUMBER, "123", Some(Lexeme::Num("123".to_string())), 1),
            tok(TokenType::DOT, ".", None, 1),
            tok(TokenType::EOF, "", None, 1),
        ]
    );
    let value: f64 = tokens[0].lexeme.parse().unwrap();
    assert_eq!(value, 123.0);
}

#[test]
fn number_dot_identifier() {
    assert_eq!(
        kinds(&scan_ok("1.x")),
        vec![TokenType::NUMBER, TokenType::DOT, TokenType::IDENTIFIER, TokenType::EOF]
    );
}

#[test]
fn multi_line_string() {
    let tokens = scan_ok("\"ab\ncd\"");
    assert_eq!(
        tokens,
        vec![
            tok(TokenType::STRING, "\"ab\ncd\"", Some(Lexeme::Char("ab\ncd".to_string())), 2),
            tok(TokenType::EOF, "", None, 2),
        ]
    );
}

#[test]
fn line_advances_after_multi_line_string() {
    let tokens = scan_ok("\"ab\ncd\" x");
    assert_eq!(tokens[1], tok(TokenType::IDENTIFIER, "x", Some(Lexeme::Char("x".to_string())), 2));
}

#[test]
fn keyword_and_longer_identifier() {
    let tokens = scan_ok("and andx");
    assert_eq!(
        tokens,
        vec![
            tok(TokenType::AND, "and", None, 1),
            tok(TokenType::IDENTIFIER, "andx", Some(Lexeme::Char("andx".to_string())), 1),
            tok(TokenType::EOF, "", None, 1),
        ]
    );
}

#[test]
fn every_keyword() {
    let tokens = scan_ok(
        "and class else false fun for if nil or print return super this true var while",
    );
    assert_eq!(
        kinds(&tokens),
        vec![
            TokenType::AND,
            TokenType::CLASS,
            TokenType::ELSE,
            TokenType::FALSE,
            TokenType::FUN,
            TokenType::FOR,
            TokenType::IF,
            TokenType::NIL,
            TokenType::OR,
            TokenType::PRINT,
            TokenType::RETURN,
            TokenType::SUPER,
            TokenType::THIS,
            TokenType::TRUE,
            TokenType::VAR,
            TokenType::WHILE,
            TokenType::EOF,
        ]
    );
}

#[test]
fn identifier_with_underscore_and_digits() {
    let tokens = scan_ok("_foo_12 Bar");
    assert_eq!(
        tokens,
        vec![
            tok(TokenType::IDENTIFIER, "_foo_12", Some(Lexeme::Char("_foo_12".to_string())), 1),
            tok(TokenType::IDENTIFIER, "Bar", Some(Lexeme::Char("Bar".to_string())), 1),
            tok(TokenType::EOF, "", None, 1),
        ]
    );
}

#[test]
fn unterminated_string_is_reported() {
    let e = scan_err("\"unterminated");
    assert_eq!(
        e.errors,
        vec![LoxTokenizationError { kind: ErrorKind::UnterminatedString, line: 1 }]
    );
    assert_eq!(e.tokens, vec![tok(TokenType::EOF, "", None, 1)]);
}

#[test]
fn unterminated_string_reports_its_start_line() {
    let e = scan_err("\n\"one\ntwo");
    assert_eq!(
        e.errors,
        vec![LoxTokenizationError { kind: ErrorKind::UnterminatedString, line: 2 }]
    );
    assert_eq!(e.tokens, vec![tok(TokenType::EOF, "", None, 3)]);
}

#[test]
fn unrecognized_characters_are_collected_and_skipped() {
    let e = scan_err("(@\n#)");
    assert_eq!(
        e.errors,
        vec![
            LoxTokenizationError { kind: ErrorKind::UnrecognizedCharacter('@'), line: 1 },
            LoxTokenizationError { kind: ErrorKind::UnrecognizedCharacter('#'), line: 2 },
        ]
    );
    assert_eq!(
        e.tokens,
        vec![
            tok(TokenType::LEFT_PAREN, "(", None, 1),
            tok(TokenType::RIGHT_PAREN, ")", None, 2),
            tok(TokenType::EOF, "", None, 2),
        ]
    );
}

#[test]
fn non_ascii_character_is_one_error() {
    let e = scan_err("é");
    assert_eq!(
        e.errors,
        vec![LoxTokenizationError { kind: ErrorKind::UnrecognizedCharacter('é'), line: 1 }]
    );
}

#[test]
fn slash_at_end_of_input() {
    assert_eq!(
        scan_ok("/"),
        vec![tok(TokenType::SLASH, "/", None, 1), tok(TokenType::EOF, "", None, 1)]
    );
}

#[test]
fn slash_before_other_character() {
    assert_eq!(
        kinds(&scan_ok("/ 2")),
        vec![TokenType::SLASH, TokenType::NUMBER, TokenType::EOF]
    );
}

#[test]
fn operator_lexemes_round_trip() {
    let cases = [
        ("(", TokenType::LEFT_PAREN),
        (")", TokenType::RIGHT_PAREN),
        ("{", TokenType::LEFT_BRACE),
        ("}", TokenType::RIGHT_BRACE),
        (",", TokenType::COMMA),
        (".", TokenType::DOT),
        ("-", TokenType::MINUS),
        ("+", TokenType::PLUS),
        (";", TokenType::SEMICOLIN),
        ("/", TokenType::SLASH),
        ("*", TokenType::STAR),
        ("!", TokenType::BANG),
        ("!=", TokenType::BANG_EQUAL),
        ("=", TokenType::EQUAL),
        ("==", TokenType::EQUAL_EQUAL),
        (">", TokenType::GREATER),
        (">=", TokenType::GREATER_EQUAL),
        ("<", TokenType::LESS),
        ("<=", TokenType::LESS_EQUAL),
    ];
    for (spelling, kind) in cases {
        assert_eq!(
            scan_ok(spelling),
            vec![tok(kind, spelling, None, 1), tok(TokenType::EOF, "", None, 1)]
        );
    }
}

#[test]
fn operators_in_a_row() {
    let tokens = scan_ok("<=>==!<");
    let lexemes: Vec<&str> = tokens.iter().map(|t| t.lexeme.as_str()).collect();
    assert_eq!(lexemes, vec!["<=", ">=", "=", "!", "<", ""]);
    assert_eq!(
        kinds(&tokens),
        vec![
            TokenType::LESS_EQUAL,
            TokenType::GREATER_EQUAL,
            TokenType::EQUAL,
            TokenType::BANG,
            TokenType::LESS,
            TokenType::EOF,
        ]
    );
}

#[test]
fn lines_never_decrease_and_end_of_input_is_last() {
    let source = "var a = 1;\n// note\nprint \"x\ny\" + a;\n\n{ b }\n";
    let tokens = scan_ok(source);
    let lines: Vec<usize> = tokens.iter().map(|t| t.line).collect();
    assert_eq!(lines, vec![1, 1, 1, 1, 1, 3, 4, 4, 4, 4, 6, 6, 6, 7]);
    for pair in tokens.windows(2) {
        assert!(pair[0].line <= pair[1].line);
    }
    let last = tokens.last().unwrap();
    assert_eq!(last.token_type, TokenType::EOF);
    assert_eq!(last.lexeme, "");
}

#[test]
fn character_classes() {
    assert!(Scanner::is_digit('0'));
    assert!(Scanner::is_digit('9'));
    assert!(!Scanner::is_digit('a'));
    assert!(Scanner::is_alpha('a'));
    assert!(Scanner::is_alpha('Z'));
    assert!(Scanner::is_alpha('_'));
    assert!(!Scanner::is_alpha('5'));
    assert!(!Scanner::is_alpha('é'));
    assert!(Scanner::is_alpha_numeric('5'));
    assert!(Scanner::is_alpha_numeric('q'));
    assert!(!Scanner::is_alpha_numeric('-'));
}

#[test]
fn token_as_text() {
    let tokens = scan_ok("x \"s t\" 4.5 ( and");
    let texts: Vec<String> = tokens.iter().map(|t| t.to_string()).collect();
    assert_eq!(
        texts,
        vec![
            "IDENTIFIER x x".to_string(),
            "STRING \"s t\" s t".to_string(),
            "NUMBER 4.5 4.5".to_string(),
            "LEFT_PAREN (".to_string(),
            "AND and".to_string(),
            "EOF ".to_string(),
        ]
    );
}

#[test]
fn kind_names() {
    assert_eq!(TokenType::SEMICOLIN.name(), "SEMICOLIN");
    assert_eq!(TokenType::GREATER_EQUAL.name(), "GREATER_EQUAL");
    assert_eq!(TokenType::EOF.name(), "EOF");
}

#[test]
fn error_messages() {
    let unexpected = LoxTokenizationError { kind: ErrorKind::UnrecognizedCharacter('$'), line: 12 };
    assert_eq!(unexpected.message(), "[line 12] Error: Unexpected character '$'.");
    let open = LoxTokenizationError { kind: ErrorKind::UnterminatedString, line: 7 };
    assert_eq!(open.message(), "[line 7] Error: Unterminated string.");
    let big = LoxTokenizationError { kind: ErrorKind::UnterminatedString, line: 1090 };
    assert_eq!(big.message(), "[line 1090] Error: Unterminated string.");
}

#[test]
fn combined_error_message() {
    let e = scan_err("@\n\n\"open");
    assert_eq!(
        e.message(),
        "[line 1] Error: Unexpected character '@'.\n[line 3] Error: Unterminated string."
    );
}

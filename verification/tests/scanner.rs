use lox_interp::error::{ScanError, EXIT_SCAN_ERROR};
use lox_interp::scanner::Scanner;
use lox_interp::token::{Token, TokenType};

fn scan(source: &str) -> (Vec<Token>, Scanner) {
    let mut scanner = Scanner::new(source.to_string());
    let tokens = scanner.parse();
    (tokens, scanner)
}

fn shown(tokens: &[Token]) -> Vec<String> {
    tokens.iter().map(|t| t.to_display_string()).collect()
}

#[test]
fn punctuation_tokens() {
    let (tokens, scanner) = scan("(){};,+-*!===<=>=!=<>/.");
    assert_eq!(
        shown(&tokens),
        vec![
            "LEFT_PAREN ( null",
            "RIGHT_PAREN ) null",
            "LEFT_BRACE { null",
            "RIGHT_BRACE } null",
            "SEMICOLON ; null",
            "COMMA , null",
            "PLUS + null",
            "MINUS - null",
            "STAR * null",
            "BANG_EQUAL != null",
            "EQUAL_EQUAL == null",
            "LESS_EQUAL <= null",
            "GREATER_EQUAL >= null",
            "BANG_EQUAL != null",
            "LESS < null",
            "GREATER > null",
            "SLASH / null",
            "DOT . null",
            "EOF  null",
        ]
    );
    assert_eq!(scanner.exit_code(), 0);
}

#[test]
fn string_literal_token() {
    let (tokens, _) = scan("\"hi there\"");
    assert_eq!(shown(&tokens), vec!["STRING \"hi there\" hi there", "EOF  null"]);
}

#[test]
fn number_keeps_its_digits() {
    let (tokens, _) = scan("42 3.14");
    assert_eq!(shown(&tokens), vec!["NUMBER 42 42", "NUMBER 3.14 3.14", "EOF  null"]);
}

#[test]
fn keywords_and_identifiers() {
    let (tokens, _) = scan("var orchid = nil; fun f");
    let types: Vec<TokenType> = tokens.iter().map(|t| t.token_type).collect();
    assert_eq!(
        types,
        vec![
            TokenType::Var,
            TokenType::Identifier,
            TokenType::Equal,
            TokenType::Nil,
            TokenType::Semicolon,
            TokenType::Fun,
            TokenType::Identifier,
            TokenType::Eof,
        ]
    );
}

#[test]
fn comments_and_lines() {
    let (tokens, _) = scan("// a comment\nprint\n\n1");
    assert_eq!(tokens[0].token_type, TokenType::Print);
    assert_eq!(tokens[0].line, 2);
    assert_eq!(tokens[1].line, 4);
    assert_eq!(tokens[2].token_type, TokenType::Eof);
    assert_eq!(tokens[2].line, 4);
}

#[test]
fn unexpected_character_is_reported() {
    let (tokens, scanner) = scan("@ ,");
    assert_eq!(shown(&tokens), vec!["COMMA , null", "EOF  null"]);
    assert_eq!(scanner.exit_code(), EXIT_SCAN_ERROR);
    let messages: Vec<String> = scanner.errors().iter().map(|e| e.message()).collect();
    assert_eq!(messages, vec!["[line 1] Error: Unexpected character: @"]);
    assert!(matches!(scanner.errors()[0], ScanError::UnexpectedCharacter { line: 1, ch: '@' }));
}

#[test]
fn unterminated_string_is_reported() {
    let (tokens, scanner) = scan("\"abc");
    assert_eq!(shown(&tokens), vec!["EOF  null"]);
    assert_eq!(scanner.errors()[0].message(), "[line 1] Error: Unterminated string.");
}

#[test]
fn empty_source_gives_only_eof() {
    let (tokens, scanner) = scan("");
    assert_eq!(shown(&tokens), vec!["EOF  null"]);
    assert_eq!(scanner.exit_code(), 0);
}

#[test]
fn non_ascii_digits_are_an_invalid_number() {
    let (tokens, scanner) = scan("\u{663}\u{662} ;");
    assert_eq!(shown(&tokens), vec!["SEMICOLON ; null", "EOF  null"]);
    assert_eq!(scanner.exit_code(), EXIT_SCAN_ERROR);
    assert_eq!(
        scanner.errors()[0].message(),
        "[line 1] Error: Invalid number: \u{663}\u{662}"
    );
}

#[test]
fn letters_beyond_ascii_make_identifiers() {
    let (tokens, scanner) = scan("caf\u{e9} _x1");
    assert_eq!(
        shown(&tokens),
        vec!["IDENTIFIER caf\u{e9} null", "IDENTIFIER _x1 null", "EOF  null"]
    );
    assert_eq!(scanner.exit_code(), 0);
}

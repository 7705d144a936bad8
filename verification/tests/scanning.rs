use rlox::error::RuntimeError;
use rlox::lox::Lox;
use rlox::scanner::Scanner;
use rlox::token::{Token, TokenValue};

fn scan(source: &str) -> Vec<Token> {
    Scanner::new(source.to_string())
        .scan_tokens()
        .expect("scan should succeed")
}

fn scan_err(source: &str) -> RuntimeError {
    match Scanner::new(source.to_string()).scan_tokens() {
        Ok(_) => panic!("scan unexpectedly succeeded"),
        Err(e) => e,
    }
}

fn kinds(tokens: &[Token]) -> Vec<TokenValue> {
    tokens.iter().map(|t| t.value).collect()
}

fn lexemes(tokens: &[Token]) -> Vec<String> {
    tokens.iter().map(|t| t.lexeme.clone()).collect()
}

#[test]
fn scan_empty_yields_exactly_eof() {
    let tokens = scan("");
    assert_eq!(tokens.len(), 1);
    assert_eq!(tokens[0].value, TokenValue::Eof);
    assert_eq!(tokens[0].lexeme, "");
    assert_eq!(tokens[0].line, 1);
}

#[test]
fn scan_always_ends_with_single_eof() {
    for source in ["", "1 + 2", "var x = 3;", "{ a.b(); }", "// only a comment"] {
        let tokens = scan(source);
        assert_eq!(tokens.last().unwrap().value, TokenValue::Eof);
        let eof_count = tokens
            .iter()
            .filter(|t| t.value == TokenValue::Eof)
            .count();
        assert_eq!(eof_count, 1);
    }
}

#[test]
fn scan_comment_fully_elided() {
    let with_comment = scan("// comment\n42");
    let without = scan("42");
    assert_eq!(kinds(&with_comment), kinds(&without));
    assert_eq!(lexemes(&with_comment), lexemes(&without));
}

#[test]
fn scan_comment_at_end_of_input() {
    let tokens = scan("1 // trailing comment");
    assert_eq!(
        kinds(&tokens),
        vec![TokenValue::Number, TokenValue::Eof]
    );
}

#[test]
fn maximal_munch_bang_equal() {
    let tokens = scan("!=");
    assert_eq!(kinds(&tokens), vec![TokenValue::BangEqual, TokenValue::Eof]);
    assert_eq!(tokens[0].lexeme, "!=");
}

#[test]
fn maximal_munch_every_two_char_family() {
    for (source, kind) in [
        ("!=", TokenValue::BangEqual),
        ("==", TokenValue::EqualEqual),
        (">=", TokenValue::GreaterEqual),
        ("<=", TokenValue::LessEqual),
    ] {
        let tokens = scan(source);
        assert_eq!(kinds(&tokens), vec![kind, TokenValue::Eof]);
        assert_eq!(tokens[0].lexeme, source);
    }
}

#[test]
fn one_char_forms_without_following_equal() {
    let tokens = scan("! = > <");
    assert_eq!(
        kinds(&tokens),
        vec![
            TokenValue::Bang,
            TokenValue::Equal,
            TokenValue::Greater,
            TokenValue::Less,
            TokenValue::Eof
        ]
    );
}

#[test]
fn unterminated_string_references_starting_line() {
    match scan_err("\"abc") {
        RuntimeError::ScanError { line, message, .. } => {
            assert_eq!(line, 1);
            assert_eq!(message, "Unterminated string");
        }
        _ => panic!("expected a scan error"),
    }
}

#[test]
fn unterminated_string_on_later_line() {
    match scan_err("1;\n2;\n\"oops") {
        RuntimeError::ScanError { line, .. } => assert_eq!(line, 3),
        _ => panic!("expected a scan error"),
    }
}

#[test]
fn string_lexeme_is_text_between_quotes() {
    let tokens = scan("\"hello world\"");
    assert_eq!(tokens[0].value, TokenValue::StringLit);
    assert_eq!(tokens[0].lexeme, "hello world");
}

#[test]
fn string_with_embedded_newline_counts_lines() {
    let tokens = scan("\"a\nb\" x");
    assert_eq!(tokens[0].value, TokenValue::StringLit);
    assert_eq!(tokens[0].lexeme, "a\nb");
    assert_eq!(tokens[0].line, 1);
    assert_eq!(tokens[1].value, TokenValue::Identifier);
    assert_eq!(tokens[1].line, 2);
}

#[test]
fn number_with_fraction() {
    let tokens = scan("12.5");
    assert_eq!(kinds(&tokens), vec![TokenValue::Number, TokenValue::Eof]);
    assert_eq!(tokens[0].lexeme, "12.5");
}

#[test]
fn decimal_point_not_followed_by_digit_is_not_part_of_number() {
    let tokens = scan("12.");
    assert_eq!(
        kinds(&tokens),
        vec![TokenValue::Number, TokenValue::Dot, TokenValue::Eof]
    );
    assert_eq!(tokens[0].lexeme, "12");

    let tokens = scan("12.x");
    assert_eq!(
        kinds(&tokens),
        vec![
            TokenValue::Number,
            TokenValue::Dot,
            TokenValue::Identifier,
            TokenValue::Eof
        ]
    );
}

#[test]
fn keywords_are_case_sensitive() {
    let tokens = scan("var Var VAR");
    assert_eq!(
        kinds(&tokens),
        vec![
            TokenValue::Var,
            TokenValue::Identifier,
            TokenValue::Identifier,
            TokenValue::Eof
        ]
    );
    assert_eq!(tokens[1].lexeme, "Var");
    assert_eq!(tokens[2].lexeme, "VAR");
}

#[test]
fn all_keywords_recognized() {
    let source = "and class else false for fun if nil or print return super this true var while";
    let tokens = scan(source);
    assert_eq!(
        kinds(&tokens),
        vec![
            TokenValue::And,
            TokenValue::Class,
            TokenValue::Else,
            TokenValue::False,
            TokenValue::For,
            TokenValue::Fun,
            TokenValue::If,
            TokenValue::Nil,
            TokenValue::Or,
            TokenValue::Print,
            TokenValue::Return,
            TokenValue::Super,
            TokenValue::This,
            TokenValue::True,
            TokenValue::Var,
            TokenValue::While,
            TokenValue::Eof
        ]
    );
}

#[test]
fn identifier_may_contain_digits_and_underscores() {
    let tokens = scan("a1_b2 _x orchid");
    assert_eq!(
        kinds(&tokens),
        vec![
            TokenValue::Identifier,
            TokenValue::Identifier,
            TokenValue::Identifier,
            TokenValue::Eof
        ]
    );
    assert_eq!(tokens[0].lexeme, "a1_b2");
    assert_eq!(tokens[1].lexeme, "_x");
    assert_eq!(tokens[2].lexeme, "orchid");
}

#[test]
fn unexpected_character_is_a_scan_error() {
    match scan_err("1 + @") {
        RuntimeError::ScanError {
            line,
            column,
            offset,
            message,
        } => {
            assert_eq!(line, 1);
            assert_eq!(column, 4);
            assert_eq!(offset, 4);
            assert_eq!(message, "Unexpected character");
        }
        _ => panic!("expected a scan error"),
    }
}

#[test]
fn line_counter_tracks_newlines() {
    let tokens = scan("a\nb\n\nc");
    assert_eq!(tokens[0].line, 1);
    assert_eq!(tokens[1].line, 2);
    assert_eq!(tokens[2].line, 4);
    assert_eq!(tokens[3].line, 4);
}

#[test]
fn rescanning_lexemes_reproduces_token_kinds() {
    let tokens = scan("var foo = 12.5 >= (bar) + baz.qux != true; // note");
    for token in &tokens {
        if token.value == TokenValue::Eof || token.value == TokenValue::StringLit {
            continue;
        }
        let rescanned = scan(&token.lexeme);
        assert_eq!(rescanned.len(), 2);
        assert_eq!(rescanned[0].value, token.value);
        assert_eq!(rescanned[0].lexeme, token.lexeme);
        assert_eq!(rescanned[1].value, TokenValue::Eof);
    }
}

#[test]
fn lox_run_scans_a_source() {
    let lox = Lox::new();
    let tokens = lox.run("1 + 2".to_string()).expect("scan should succeed");
    assert_eq!(
        kinds(&tokens),
        vec![
            TokenValue::Number,
            TokenValue::Plus,
            TokenValue::Number,
            TokenValue::Eof
        ]
    );
}

#[test]
fn whitespace_variants_elided() {
    let tokens = scan(" \t\r1\t ");
    assert_eq!(kinds(&tokens), vec![TokenValue::Number, TokenValue::Eof]);
}

#[test]
fn token_new_keeps_its_fields() {
    let token = Token::new(TokenValue::Identifier, "abc".to_string(), 7);
    assert_eq!(token.value, TokenValue::Identifier);
    assert_eq!(token.lexeme, "abc");
    assert_eq!(token.line, 7);
}

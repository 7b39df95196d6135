use gizmo::{GizmoError, Lexer, Token};

fn lex(source: &str) -> Vec<Token> {
    Lexer::new(source).tokenize().unwrap()
}

fn lex_error(source: &str) -> String {
    match Lexer::new(source).tokenize() {
        Err(GizmoError::LexError(msg)) => msg,
        other => panic!("expected a lex error, got {:?}", other),
    }
}

fn number(text: &str) -> Token {
    Token::Number(text.to_string())
}

fn ident(text: &str) -> Token {
    Token::Identifier(text.to_string())
}

#[test]
fn test_basic_tokens() {
    let mut lexer = Lexer::new("frame eye = [0, 1];");
    let tokens = lexer.tokenize().unwrap();

    assert_eq!(tokens[0], Token::Frame);
    assert_eq!(tokens[1], Token::Identifier("eye".to_string()));
    assert_eq!(tokens[2], Token::Equal);
    assert_eq!(tokens[3], Token::LeftBracket);
    assert_eq!(tokens[4], Token::Number("0".to_string()));
    assert_eq!(tokens[5], Token::Comma);
    assert_eq!(tokens[6], Token::Number("1".to_string()));
    assert_eq!(tokens[7], Token::RightBracket);
    assert_eq!(tokens[8], Token::Semicolon);
    assert_eq!(tokens[9], Token::Eof);
}

#[test]
fn test_string_literal() {
    let mut lexer = Lexer::new("text name = \"hello world\";");
    let tokens = lexer.tokenize().unwrap();

    assert_eq!(tokens[0], Token::Text);
    assert_eq!(tokens[1], Token::Identifier("name".to_string()));
    assert_eq!(tokens[2], Token::Equal);
    assert_eq!(tokens[3], Token::String("hello world".to_string()));
    assert_eq!(tokens[4], Token::Semicolon);
}

#[test]
fn test_operators() {
    let mut lexer = Lexer::new("== != <= >= + - * / % ^");
    let tokens = lexer.tokenize().unwrap();

    let expected = vec![
        Token::EqualEqual,
        Token::NotEqual,
        Token::LessEqual,
        Token::GreaterEqual,
        Token::Plus,
        Token::Minus,
        Token::Star,
        Token::Slash,
        Token::Percent,
        Token::Caret,
        Token::Eof,
    ];

    assert_eq!(tokens, expected);
}

#[test]
fn a_comment_runs_to_the_end_of_its_line() {
    let tokens = lex("frame // this is a comment\ntest");
    assert_eq!(tokens, vec![Token::Frame, Token::Newline, ident("test"), Token::Eof]);
}

#[test]
fn a_comment_without_a_line_break_runs_to_the_end() {
    let tokens = lex("frame // this is a comment\\ntest");
    assert_eq!(tokens, vec![Token::Frame, Token::Eof]);
}

#[test]
fn comments_can_follow_one_another() {
    let tokens = lex("// one\n  // two\n\t// three\nx // four");
    assert_eq!(
        tokens,
        vec![Token::Newline, Token::Newline, Token::Newline, ident("x"), Token::Eof]
    );
}

#[test]
fn empty_input_is_just_the_end_marker() {
    assert_eq!(lex(""), vec![Token::Eof]);
    assert_eq!(lex("  \t \r "), vec![Token::Eof]);
}

#[test]
fn the_end_marker_comes_last_and_only_there() {
    for source in ["", "a", "a b\nc", "1 + 2 // x", "\"s\""] {
        let tokens = lex(source);
        assert_eq!(tokens.last(), Some(&Token::Eof));
        assert_eq!(tokens.iter().filter(|t| **t == Token::Eof).count(), 1);
    }
}

#[test]
fn one_character_operators_and_delimiters() {
    assert_eq!(
        lex("( ) [ ] { } , ; : ? = < > + - * / % ^"),
        vec![
            Token::LeftParen,
            Token::RightParen,
            Token::LeftBracket,
            Token::RightBracket,
            Token::LeftBrace,
            Token::RightBrace,
            Token::Comma,
            Token::Semicolon,
            Token::Colon,
            Token::Question,
            Token::Equal,
            Token::Less,
            Token::Greater,
            Token::Plus,
            Token::Minus,
            Token::Star,
            Token::Slash,
            Token::Percent,
            Token::Caret,
            Token::Eof,
        ]
    );
}

#[test]
fn two_character_operators_need_no_blank() {
    assert_eq!(
        lex("a==b!=c<=d>=e"),
        vec![
            ident("a"),
            Token::EqualEqual,
            ident("b"),
            Token::NotEqual,
            ident("c"),
            Token::LessEqual,
            ident("d"),
            Token::GreaterEqual,
            ident("e"),
            Token::Eof,
        ]
    );
    assert_eq!(lex("==="), vec![Token::EqualEqual, Token::Equal, Token::Eof]);
    assert_eq!(lex("<=="), vec![Token::LessEqual, Token::Equal, Token::Eof]);
}

#[test]
fn keywords_are_not_identifiers() {
    assert_eq!(
        lex("frame frames num text pattern animate evolve using from if then elsif else end repeat do times when clicked idle return and or not"),
        vec![
            Token::Frame,
            Token::Frames,
            Token::Num,
            Token::Text,
            Token::Pattern,
            Token::Animate,
            Token::Evolve,
            Token::Using,
            Token::From,
            Token::If,
            Token::Then,
            Token::Elsif,
            Token::Else,
            Token::End,
            Token::Repeat,
            Token::Do,
            Token::Times,
            Token::When,
            Token::Clicked,
            Token::Idle,
            Token::Return,
            Token::And,
            Token::Or,
            Token::Not,
            Token::Eof,
        ]
    );
}

#[test]
fn words_that_only_start_like_keywords_are_identifiers() {
    assert_eq!(
        lex("framed Frame if_ _if end2 play loop stop"),
        vec![
            ident("framed"),
            ident("Frame"),
            ident("if_"),
            ident("_if"),
            ident("end2"),
            ident("play"),
            ident("loop"),
            ident("stop"),
            Token::Eof,
        ]
    );
}

#[test]
fn numerals_keep_their_spelling() {
    assert_eq!(
        lex("0 42 3.14 007 1.50"),
        vec![number("0"), number("42"), number("3.14"), number("007"), number("1.50"), Token::Eof]
    );
}

#[test]
fn a_point_belongs_to_a_numeral_only_before_a_digit() {
    match Lexer::new("1.x").tokenize() {
        Err(GizmoError::LexError(msg)) => {
            assert_eq!(msg, "Unexpected character '.' at line 1, column 2")
        }
        other => panic!("unexpected {:?}", other),
    }
    assert_eq!(lex_error("1.5.2"), "Unexpected character '.' at line 1, column 4");
    assert_eq!(lex_error("1."), "Unexpected character '.' at line 1, column 2");
}

#[test]
fn a_numeral_ends_where_a_letter_starts() {
    assert_eq!(lex("12ab"), vec![number("12"), ident("ab"), Token::Eof]);
}

#[test]
fn line_breaks_are_tokens_and_blanks_are_not() {
    assert_eq!(
        lex("a \t\r\n\n b"),
        vec![ident("a"), Token::Newline, Token::Newline, ident("b"), Token::Eof]
    );
}

#[test]
fn escapes_in_strings_are_resolved() {
    assert_eq!(
        lex("\"a\\nb\\tc\\rd\\\\e\\\"f\""),
        vec![Token::String("a\nb\tc\rd\\e\"f".to_string()), Token::Eof]
    );
    assert_eq!(lex("\"\""), vec![Token::String(String::new()), Token::Eof]);
}

#[test]
fn strings_may_span_lines_and_hold_comment_marks() {
    assert_eq!(
        lex("\"a\n// b\" c"),
        vec![Token::String("a\n// b".to_string()), ident("c"), Token::Eof]
    );
}

#[test]
fn an_unknown_escape_is_a_lex_error() {
    assert_eq!(
        lex_error("x \"ab\\qcd\""),
        "Invalid escape sequence '\\q' at line 1, column 7"
    );
}

#[test]
fn an_unterminated_string_is_a_lex_error() {
    assert_eq!(lex_error("a\n  \"open"), "Unterminated string at line 2, column 3");
    assert_eq!(lex_error("\"open\\"), "Unterminated string at line 1, column 1");
}

#[test]
fn an_unexpected_character_is_a_lex_error_with_its_place() {
    assert_eq!(lex_error("@"), "Unexpected character '@' at line 1, column 1");
    assert_eq!(
        lex_error("frame a\nnum b = 3 $ 4"),
        "Unexpected character '$' at line 2, column 11"
    );
    assert_eq!(lex_error("a ! b"), "Unexpected character '!' at line 1, column 3");
    assert_eq!(lex_error("caf\u{e9}"), "Unexpected character '\u{e9}' at line 1, column 4");
}

#[test]
fn tokens_show_as_their_spelling() {
    assert_eq!(Token::Frame.to_text(), "frame");
    assert_eq!(Token::GreaterEqual.to_text(), ">=");
    assert_eq!(Token::LeftBrace.to_text(), "{");
    assert_eq!(Token::Newline.to_text(), "\\n");
    assert_eq!(Token::Eof.to_text(), "EOF");
    assert_eq!(number("3.5").to_text(), "3.5");
    assert_eq!(ident("eye").to_text(), "eye");
    assert_eq!(Token::String("hi".to_string()).to_text(), "\"hi\"");
}

#[test]
fn reading_helpers_walk_the_text() {
    let mut lexer = Lexer::new(" \tab");
    assert!(!lexer.is_at_end());
    assert_eq!(lexer.peek(), ' ');
    assert_eq!(lexer.peek_next(), '\t');
    lexer.skip_whitespace();
    assert_eq!(lexer.peek(), 'a');
    assert_eq!(lexer.advance(), 'a');
    assert_eq!(lexer.peek(), 'b');
    assert_eq!(lexer.peek_next(), '\0');
    assert_eq!(lexer.advance(), 'b');
    assert!(lexer.is_at_end());
    assert_eq!(lexer.peek(), '\0');
    assert_eq!(lexer.advance(), '\0');
    assert!(lexer.is_at_end());
}

#[test]
fn next_token_reads_one_token_at_a_time() {
    let mut lexer = Lexer::new("a // c\n 12");
    assert_eq!(lexer.next_token().unwrap(), ident("a"));
    assert_eq!(lexer.next_token().unwrap(), Token::Newline);
    assert_eq!(lexer.next_token().unwrap(), number("12"));
    assert_eq!(lexer.next_token().unwrap(), Token::Eof);
    assert_eq!(lexer.next_token().unwrap(), Token::Eof);
}

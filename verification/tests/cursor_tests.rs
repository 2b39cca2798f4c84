use kaleido::lexer::lex_string;
use kaleido::lexer::LexerToken;
use kaleido::lexer::TokenType;
use kaleido::token_stream::TokenStream;

fn lex(s: &str) -> Vec<LexerToken> {
    lex_string(s.to_string()).expect("input should scan")
}

#[test]
fn accept_consumes_on_match() {
    let tokens = lex("( )");
    let mut stream = TokenStream::new(&tokens);
    let t = stream.accept(TokenType::LParen);
    assert!(t.is_some());
    assert_eq!(t.unwrap().token_type, TokenType::LParen);
    assert!(stream.accept(TokenType::RParen).is_some());
    assert!(stream.is_eof());
}

#[test]
fn accept_on_mismatch_leaves_the_cursor_unmoved() {
    let tokens = lex("x");
    let mut stream = TokenStream::new(&tokens);
    // Two failed accepts in a row observe the same next token.
    assert!(stream.accept(TokenType::Number).is_none());
    assert!(stream.accept(TokenType::Number).is_none());
    let t = stream.accept(TokenType::Identifier).unwrap();
    assert_eq!(t.label.as_deref(), Some("x"));
    assert!(stream.is_eof());
}

#[test]
fn accept_at_end_returns_nothing() {
    let tokens = lex("");
    let mut stream = TokenStream::new(&tokens);
    assert!(stream.is_eof());
    assert!(stream.accept(TokenType::Identifier).is_none());
}

#[test]
fn multi_matches_any_of_the_given_kinds() {
    let tokens = lex("if x");
    let mut stream = TokenStream::new(&tokens);
    let kinds = vec![TokenType::If, TokenType::Return];
    let t = stream.multi(&kinds).unwrap();
    assert_eq!(t.token_type, TokenType::If);
    // The identifier matches neither kind: the cursor stays put.
    assert!(stream.multi(&kinds).is_none());
    assert!(stream.multi(&kinds).is_none());
    assert!(stream.accept(TokenType::Identifier).is_some());
}

#[test]
fn expect_reports_the_mismatched_kind() {
    let tokens = lex("42");
    let mut stream = TokenStream::new(&tokens);
    let err = stream.expect(TokenType::Identifier).unwrap_err();
    assert_eq!(err.expected, vec![TokenType::Identifier]);
    assert_eq!(err.actual, Some(TokenType::Number));
    // The failed expect consumed nothing.
    assert!(stream.expect(TokenType::Number).is_ok());
}

#[test]
fn expect_at_end_of_input_reports_no_actual_kind() {
    let tokens = lex("");
    let mut stream = TokenStream::new(&tokens);
    let err = stream.expect(TokenType::RParen).unwrap_err();
    assert_eq!(err.expected, vec![TokenType::RParen]);
    assert_eq!(err.actual, None);
}

#[test]
fn expect_multi_reports_the_whole_expected_set() {
    let tokens = lex("42");
    let mut stream = TokenStream::new(&tokens);
    let kinds = vec![TokenType::If, TokenType::Return];
    let err = stream.expect_multi(&kinds).unwrap_err();
    assert_eq!(err.expected, vec![TokenType::If, TokenType::Return]);
    assert_eq!(err.actual, Some(TokenType::Number));
}

#[test]
fn expect_multi_at_end_reports_no_actual_kind() {
    let tokens = lex("");
    let mut stream = TokenStream::new(&tokens);
    let kinds = vec![TokenType::Identifier, TokenType::Number, TokenType::LParen];
    let err = stream.expect_multi(&kinds).unwrap_err();
    assert_eq!(err.expected, kinds);
    assert_eq!(err.actual, None);
}

#[test]
fn error_message_names_expected_and_actual() {
    let tokens = lex("");
    let mut stream = TokenStream::new(&tokens);
    let err = stream.expect(TokenType::RParen).unwrap_err();
    assert_eq!(err.message(), "expected one of [')'] but found end of input");
}

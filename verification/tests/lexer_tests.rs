use kaleido::lexer::lex_string;
use kaleido::lexer::LexError;
use kaleido::lexer::LexerToken;
use kaleido::lexer::MulOp;
use kaleido::lexer::RelOp;
use kaleido::lexer::SumOp;
use kaleido::lexer::TokenType;

fn lex(s: &str) -> Vec<LexerToken> {
    lex_string(s.to_string()).expect("input should scan")
}

fn lex_err(s: &str) -> LexError {
    lex_string(s.to_string()).expect_err("input should fail to scan")
}

#[test]
fn whitespace_only_yields_no_tokens() {
    assert_eq!(lex("").len(), 0);
    assert_eq!(lex(" ").len(), 0);
    assert_eq!(lex(" \t\r\n  \n").len(), 0);
    assert_eq!(lex("\u{a0}\u{2003}").len(), 0);
}

#[test]
fn float_literal_is_one_numeric_token() {
    let tokens = lex("12.5");
    assert_eq!(tokens.len(), 1);
    assert_eq!(tokens[0].token_type, TokenType::Number);
    let text = tokens[0].number.as_ref().unwrap();
    assert_eq!(text, "12.5");
    assert_eq!(text.parse::<f64>().unwrap(), 12.5);
}

#[test]
fn trailing_dot_is_a_lex_error() {
    assert_eq!(lex_err("12."), LexError::UnexpectedEndOfInput);
}

#[test]
fn dot_followed_by_non_digit_is_a_lex_error() {
    assert_eq!(lex_err("12.x"), LexError::MalformedFloat);
    assert_eq!(lex_err("3. + 4"), LexError::MalformedFloat);
}

#[test]
fn integer_literal_keeps_its_spelling() {
    let tokens = lex("042");
    assert_eq!(tokens.len(), 1);
    assert_eq!(tokens[0].number.as_deref(), Some("042"));
}

#[test]
fn if_is_a_keyword_not_an_identifier() {
    let tokens = lex("if");
    assert_eq!(tokens.len(), 1);
    assert_eq!(tokens[0].token_type, TokenType::If);
    assert!(tokens[0].label.is_none());
}

#[test]
fn iffy_is_one_identifier() {
    let tokens = lex("iffy");
    assert_eq!(tokens.len(), 1);
    assert_eq!(tokens[0].token_type, TokenType::Identifier);
    assert_eq!(tokens[0].label.as_deref(), Some("iffy"));
}

#[test]
fn all_keywords_are_recognized() {
    let tokens = lex("def return if then else");
    let kinds: Vec<TokenType> = tokens.iter().map(|t| t.token_type).collect();
    assert_eq!(
        kinds,
        vec![
            TokenType::Def,
            TokenType::Return,
            TokenType::If,
            TokenType::Then,
            TokenType::Else
        ]
    );
}

#[test]
fn greater_equal_is_one_relational_token() {
    let tokens = lex(">=");
    assert_eq!(tokens.len(), 1);
    assert_eq!(tokens[0].token_type, TokenType::RelOp);
    assert_eq!(tokens[0].rel_op, Some(RelOp::GreaterThanEq));
}

#[test]
fn greater_then_eof_is_greater_than() {
    let tokens = lex(">");
    assert_eq!(tokens.len(), 1);
    assert_eq!(tokens[0].token_type, TokenType::RelOp);
    assert_eq!(tokens[0].rel_op, Some(RelOp::GreaterThan));
}

#[test]
fn greater_then_space_is_greater_than_and_nothing_more() {
    let tokens = lex("> ");
    assert_eq!(tokens.len(), 1);
    assert_eq!(tokens[0].rel_op, Some(RelOp::GreaterThan));
}

#[test]
fn less_than_variants() {
    let tokens = lex("< <= ");
    assert_eq!(tokens.len(), 2);
    assert_eq!(tokens[0].rel_op, Some(RelOp::LessThan));
    assert_eq!(tokens[1].rel_op, Some(RelOp::LessThanEq));
    let tokens = lex("<");
    assert_eq!(tokens.len(), 1);
    assert_eq!(tokens[0].rel_op, Some(RelOp::LessThan));
}

#[test]
fn equals_variants() {
    let tokens = lex("==");
    assert_eq!(tokens.len(), 1);
    assert_eq!(tokens[0].rel_op, Some(RelOp::Equal));

    let tokens = lex("=<");
    assert_eq!(tokens.len(), 1);
    assert_eq!(tokens[0].rel_op, Some(RelOp::LessThanEq));

    let tokens = lex("=>");
    assert_eq!(tokens.len(), 1);
    assert_eq!(tokens[0].rel_op, Some(RelOp::GreaterThanEq));
}

#[test]
fn bare_equals_is_assignment() {
    let tokens = lex("=");
    assert_eq!(tokens.len(), 1);
    assert_eq!(tokens[0].token_type, TokenType::Assign);

    let tokens = lex("x = 1");
    assert_eq!(tokens.len(), 3);
    assert_eq!(tokens[1].token_type, TokenType::Assign);
}

#[test]
fn binary_operator_payloads() {
    let tokens = lex("+ - * /");
    assert_eq!(tokens.len(), 4);
    assert_eq!(tokens[0].sum_op, Some(SumOp::Add));
    assert_eq!(tokens[1].sum_op, Some(SumOp::Subtract));
    assert_eq!(tokens[2].mul_op, Some(MulOp::Multiply));
    assert_eq!(tokens[3].mul_op, Some(MulOp::Divide));
    assert_eq!(tokens[0].token_type, TokenType::SumOp);
    assert_eq!(tokens[2].token_type, TokenType::MulOp);
}

#[test]
fn punctuation_tokens() {
    let tokens = lex("(,)");
    let kinds: Vec<TokenType> = tokens.iter().map(|t| t.token_type).collect();
    assert_eq!(
        kinds,
        vec![TokenType::LParen, TokenType::Comma, TokenType::RParen]
    );
}

#[test]
fn unrecognized_character_is_a_lex_error() {
    assert_eq!(lex_err("@"), LexError::UnrecognizedCharacter);
    assert_eq!(lex_err("a # b"), LexError::UnrecognizedCharacter);
}

#[test]
fn lex_error_reasons_are_distinct() {
    assert_eq!(
        LexError::UnrecognizedCharacter.reason(),
        "unrecognized character"
    );
    assert_eq!(
        LexError::MalformedFloat.reason(),
        "expected digits after '.' in a numeric literal"
    );
    assert_eq!(
        LexError::UnexpectedEndOfInput.reason(),
        "unexpected end of input"
    );
}

#[test]
fn pushback_restores_the_terminating_character() {
    // The character ending the identifier must be re-read as its own token.
    let tokens = lex("foo(bar)");
    let kinds: Vec<TokenType> = tokens.iter().map(|t| t.token_type).collect();
    assert_eq!(
        kinds,
        vec![
            TokenType::Identifier,
            TokenType::LParen,
            TokenType::Identifier,
            TokenType::RParen
        ]
    );
    assert_eq!(tokens[0].label.as_deref(), Some("foo"));
    assert_eq!(tokens[2].label.as_deref(), Some("bar"));
}

#[test]
fn identifiers_may_contain_digits_after_the_first_letter() {
    let tokens = lex("x1y2");
    assert_eq!(tokens.len(), 1);
    assert_eq!(tokens[0].label.as_deref(), Some("x1y2"));
}

#[test]
fn number_then_identifier_splits_at_the_letter() {
    let tokens = lex("12x");
    assert_eq!(tokens.len(), 2);
    assert_eq!(tokens[0].number.as_deref(), Some("12"));
    assert_eq!(tokens[1].label.as_deref(), Some("x"));
}

#[test]
fn a_whole_definition_scans() {
    let tokens = lex("def fib(n) if (n < 2) return 1 else return fib(n - 1) + fib(n - 2)");
    let kinds: Vec<TokenType> = tokens.iter().map(|t| t.token_type).collect();
    assert_eq!(kinds[0], TokenType::Def);
    assert_eq!(kinds.len(), 28);
    assert_eq!(tokens[27].token_type, TokenType::RParen);
}

use kaleido::lexer::lex_string;
use kaleido::lexer::LexerToken;
use kaleido::lexer::MulOp;
use kaleido::lexer::RelOp;
use kaleido::lexer::SumOp;
use kaleido::lexer::TokenType;
use kaleido::parser::bin_op::expression;
use kaleido::parser::bin_op::AstExprNode;
use kaleido::parser::bin_op::BinOp;
use kaleido::parser::bin_op::Factor;
use kaleido::parser::parser::parse_stream;
use kaleido::parser::parser::statement;
use kaleido::parser::parser::PrimaryStatement;
use kaleido::parser::parser::Statement;
use kaleido::token_stream::TokenStream;

fn lex(s: &str) -> Vec<LexerToken> {
    lex_string(s.to_string()).expect("input should scan")
}

fn parse_expr(s: &str) -> Box<AstExprNode> {
    let tokens = lex(s);
    let mut stream = TokenStream::new(&tokens);
    expression(&mut stream).expect("input should parse as an expression")
}

fn numeric_value(node: &AstExprNode) -> &str {
    match node {
        AstExprNode::Terminal(Factor::Numeric(text)) => text,
        _ => panic!("expected a numeric leaf"),
    }
}

#[test]
fn sums_nest_to_the_right() {
    // The sum layer recurses into itself on the right, so 1+2+3 parses as
    // 1 + (2 + 3), not (1 + 2) + 3.
    let node = parse_expr("1+2+3");
    match &*node {
        AstExprNode::Node {
            left,
            op_type,
            next,
        } => {
            assert_eq!(*op_type, BinOp::Sum(SumOp::Add));
            assert_eq!(numeric_value(left), "1");
            match &**next {
                AstExprNode::Node {
                    left,
                    op_type,
                    next,
                } => {
                    assert_eq!(*op_type, BinOp::Sum(SumOp::Add));
                    assert_eq!(numeric_value(left), "2");
                    assert_eq!(numeric_value(next), "3");
                }
                _ => panic!("the right operand should itself be a sum"),
            }
        }
        _ => panic!("expected a sum at the root"),
    }
}

#[test]
fn multiplication_binds_tighter_than_addition() {
    // 1+2*3 is 1 + (2 * 3): the sum layer's right side reaches the mult layer.
    let node = parse_expr("1+2*3");
    match &*node {
        AstExprNode::Node {
            left,
            op_type,
            next,
        } => {
            assert_eq!(*op_type, BinOp::Sum(SumOp::Add));
            assert_eq!(numeric_value(left), "1");
            match &**next {
                AstExprNode::Node {
                    left,
                    op_type,
                    next,
                } => {
                    assert_eq!(*op_type, BinOp::Mult(MulOp::Multiply));
                    assert_eq!(numeric_value(left), "2");
                    assert_eq!(numeric_value(next), "3");
                }
                _ => panic!("the right operand should be a product"),
            }
        }
        _ => panic!("expected a sum at the root"),
    }
}

#[test]
fn relational_sits_below_sums() {
    // a < b + 1 is a < (b + 1).
    let node = parse_expr("a < b + 1");
    match &*node {
        AstExprNode::Node { op_type, next, .. } => {
            assert_eq!(*op_type, BinOp::Rel(RelOp::LessThan));
            assert!(matches!(&**next, AstExprNode::Node { .. }));
        }
        _ => panic!("expected a relational node at the root"),
    }
}

#[test]
fn parenthesized_expression_becomes_a_grouping_node() {
    let node = parse_expr("(1+2)*3");
    match &*node {
        AstExprNode::Node {
            left,
            op_type,
            next,
        } => {
            assert_eq!(*op_type, BinOp::Mult(MulOp::Multiply));
            assert!(matches!(&**left, AstExprNode::SubNode(_)));
            assert_eq!(numeric_value(next), "3");
        }
        _ => panic!("expected a product at the root"),
    }
}

#[test]
fn zero_argument_call() {
    let node = parse_expr("f()");
    match &*node {
        AstExprNode::Terminal(Factor::Id { id, optional_call }) => {
            assert_eq!(id, "f");
            let args = optional_call.as_ref().expect("a call should be recorded");
            assert_eq!(args.len(), 0);
        }
        _ => panic!("expected an identifier call"),
    }
}

#[test]
fn two_argument_call_keeps_argument_order() {
    let node = parse_expr("f(1,2)");
    match &*node {
        AstExprNode::Terminal(Factor::Id { id, optional_call }) => {
            assert_eq!(id, "f");
            let args = optional_call.as_ref().expect("a call should be recorded");
            assert_eq!(args.len(), 2);
            assert_eq!(numeric_value(&args[0]), "1");
            assert_eq!(numeric_value(&args[1]), "2");
        }
        _ => panic!("expected an identifier call"),
    }
}

#[test]
fn bare_identifier_has_no_call() {
    let node = parse_expr("f");
    match &*node {
        AstExprNode::Terminal(Factor::Id { id, optional_call }) => {
            assert_eq!(id, "f");
            assert!(optional_call.is_none());
        }
        _ => panic!("expected a bare identifier"),
    }
}

#[test]
fn trailing_comma_in_a_call_is_an_error() {
    let tokens = lex("f(1,)");
    let mut stream = TokenStream::new(&tokens);
    let err = expression(&mut stream).unwrap_err();
    assert_eq!(
        err.expected,
        vec![TokenType::Identifier, TokenType::Number, TokenType::LParen]
    );
    assert_eq!(err.actual, Some(TokenType::RParen));
}

#[test]
fn missing_close_paren_reports_end_of_input() {
    let tokens = lex("(1+2");
    let mut stream = TokenStream::new(&tokens);
    let err = expression(&mut stream).unwrap_err();
    assert_eq!(err.expected, vec![TokenType::RParen]);
    assert_eq!(err.actual, None);
}

#[test]
fn empty_input_is_not_an_expression() {
    let tokens = lex("");
    let mut stream = TokenStream::new(&tokens);
    let err = expression(&mut stream).unwrap_err();
    assert_eq!(
        err.expected,
        vec![TokenType::Identifier, TokenType::Number, TokenType::LParen]
    );
    assert_eq!(err.actual, None);
}

fn parse_stmt(s: &str) -> Box<Statement> {
    let tokens = lex(s);
    let mut stream = TokenStream::new(&tokens);
    statement(&mut stream).expect("input should parse as a statement")
}

#[test]
fn conditional_with_else_populates_the_else_branch() {
    let node = parse_stmt("if (1) return 2 else return 3");
    match &*node {
        Statement::Select { else_clause, .. } => {
            let els = else_clause.as_ref().expect("the else branch should be set");
            assert!(matches!(&**els, Statement::ReturnExpr(_)));
        }
        _ => panic!("expected a conditional"),
    }
}

#[test]
fn conditional_without_else_leaves_the_else_branch_absent() {
    let node = parse_stmt("if (1) return 2");
    match &*node {
        Statement::Select {
            statement,
            else_clause,
            ..
        } => {
            assert!(matches!(&**statement, Statement::ReturnExpr(_)));
            assert!(else_clause.is_none());
        }
        _ => panic!("expected a conditional"),
    }
}

#[test]
fn nested_conditionals_bind_the_else_to_the_inner_if() {
    let node = parse_stmt("if (1) if (2) return 1 else return 2");
    match &*node {
        Statement::Select {
            statement,
            else_clause,
            ..
        } => {
            assert!(else_clause.is_none());
            match &**statement {
                Statement::Select { else_clause, .. } => {
                    assert!(else_clause.is_some());
                }
                _ => panic!("the inner statement should be a conditional"),
            }
        }
        _ => panic!("expected a conditional"),
    }
}

#[test]
fn statement_requires_if_or_return() {
    let tokens = lex("x");
    let mut stream = TokenStream::new(&tokens);
    let err = statement(&mut stream).unwrap_err();
    assert_eq!(err.expected, vec![TokenType::If, TokenType::Return]);
    assert_eq!(err.actual, Some(TokenType::Identifier));
}

#[test]
fn definition_parses_name_parameters_and_body() {
    let tokens = lex("def add(x, y) return x + y");
    let p = parse_stream(&tokens).expect("the definition should parse");
    match p {
        PrimaryStatement::Definition {
            decl,
            inner_statement,
        } => {
            assert_eq!(decl.name, "add");
            assert_eq!(decl.args, vec!["x".to_string(), "y".to_string()]);
            assert!(matches!(&*inner_statement, Statement::ReturnExpr(_)));
        }
        _ => panic!("expected a definition"),
    }
}

#[test]
fn definition_with_no_parameters() {
    let tokens = lex("def one() return 1");
    let p = parse_stream(&tokens).expect("the definition should parse");
    match p {
        PrimaryStatement::Definition { decl, .. } => {
            assert_eq!(decl.name, "one");
            assert!(decl.args.is_empty());
        }
        _ => panic!("expected a definition"),
    }
}

#[test]
fn foreign_declaration_parses_from_a_built_token_sequence() {
    // The scanner's keyword set has no word for a foreign declaration, so the
    // token is built directly.
    let mut tokens = vec![LexerToken::from_single(TokenType::Foreign)];
    tokens.extend(lex("sin(x)"));
    let p = parse_stream(&tokens).expect("the declaration should parse");
    match p {
        PrimaryStatement::Foreign(decl) => {
            assert_eq!(decl.name, "sin");
            assert_eq!(decl.args, vec!["x".to_string()]);
        }
        _ => panic!("expected a foreign declaration"),
    }
}

#[test]
fn stray_comma_in_a_parameter_list_is_an_error() {
    let tokens = lex("def f(x,) return 1");
    let err = parse_stream(&tokens).unwrap_err();
    assert_eq!(err.expected, vec![TokenType::Identifier]);
    assert_eq!(err.actual, Some(TokenType::RParen));
}

#[test]
fn top_level_must_start_with_a_declaration_keyword() {
    let tokens = lex("return 1");
    let err = parse_stream(&tokens).unwrap_err();
    assert_eq!(err.expected, vec![TokenType::Foreign, TokenType::Def]);
    assert_eq!(err.actual, Some(TokenType::Return));
}

#[test]
fn truncated_definition_reports_end_of_input() {
    let tokens = lex("def f(");
    let err = parse_stream(&tokens).unwrap_err();
    assert_eq!(err.expected, vec![TokenType::Identifier]);
    assert_eq!(err.actual, None);
}

//! The statement and declaration grammar, on top of the expression parser:
//!
//! ```text
//! statement  := 'if' '(' expression ')' statement ( 'else' statement )?
//!             | 'return' expression
//! funcDecl   := IDENTIFIER '(' ( IDENTIFIER ( ',' IDENTIFIER )* )? ')'
//! primary    := FOREIGN funcDecl
//!             | 'def' funcDecl statement
//! ```
//!
//! As in the expression grammar, each production's parse — the tree it
//! builds, where it stops, the exact error otherwise — is defined by a
//! specification function, and the executable production is proved equal to
//! it.

use vstd::prelude::*;

use crate::lexer::LexerToken;
use crate::lexer::TokenModel;
use crate::lexer::TokenType;
use crate::lexer::token_kind;
use crate::parser::bin_op::AstExprNode;
use crate::parser::bin_op::ExprModel;
use crate::parser::bin_op::dead_branch_err;
use crate::parser::bin_op::expression;
use crate::parser::bin_op::spec_actual;
use crate::parser::bin_op::spec_err;
use crate::parser::bin_op::spec_expression;
use crate::token_stream::ErrorModel;
use crate::token_stream::TokenStream;
use crate::token_stream::UnexpectedTokenError;

verus! {

/// A function declaration: its name and its parameter names.
#[derive(Debug)]
pub struct FuncDecl {
    pub name: String,
    pub args: Vec<String>,
}

/// The value of a [`FuncDecl`].
pub struct FuncDeclModel {
    pub name: Seq<char>,
    pub args: Seq<Seq<char>>,
}

impl View for FuncDecl {
    type V = FuncDeclModel;

    open spec fn view(&self) -> FuncDeclModel {
        FuncDeclModel { name: self.name@, args: self.args@.map_values(|s: String| s@) }
    }
}

/// A statement: a conditional with an optional else clause, or a return of an
/// expression.
#[derive(Debug)]
pub enum Statement {
    Select {
        condition: Box<AstExprNode>,
        statement: Box<Statement>,
        else_clause: Option<Box<Statement>>,
    },
    ReturnExpr(Box<AstExprNode>),
}

/// The value of a [`Statement`].
pub enum StatementModel {
    Select {
        condition: Box<ExprModel>,
        statement: Box<StatementModel>,
        else_clause: Option<Box<StatementModel>>,
    },
    ReturnExpr(Box<ExprModel>),
}

impl Statement {
    /// The value of the statement tree.
    pub open spec fn deep(self) -> StatementModel
        decreases self,
    {
        match self {
            Statement::Select { condition, statement, else_clause } => StatementModel::Select {
                condition: Box::new(condition.deep()),
                statement: Box::new(statement.deep()),
                else_clause: match else_clause {
                    Some(s) => Some(Box::new(s.deep())),
                    None => None,
                },
            },
            Statement::ReturnExpr(e) => StatementModel::ReturnExpr(Box::new(e.deep())),
        }
    }
}

impl View for Statement {
    type V = StatementModel;

    open spec fn view(&self) -> StatementModel {
        self.deep()
    }
}

/// A top-level form: a function definition with a body, or a declaration of a
/// function defined elsewhere.
#[derive(Debug)]
pub enum PrimaryStatement {
    Definition { decl: FuncDecl, inner_statement: Box<Statement> },
    Foreign(FuncDecl),
}

/// The value of a [`PrimaryStatement`].
pub enum PrimaryModel {
    Definition { decl: FuncDeclModel, inner_statement: Box<StatementModel> },
    Foreign(FuncDeclModel),
}

impl View for PrimaryStatement {
    type V = PrimaryModel;

    open spec fn view(&self) -> PrimaryModel {
        match self {
            PrimaryStatement::Definition { decl, inner_statement } => PrimaryModel::Definition {
                decl: decl@,
                inner_statement: Box::new(inner_statement.deep()),
            },
            PrimaryStatement::Foreign(decl) => PrimaryModel::Foreign(decl@),
        }
    }
}

/// The parse of a non-empty parameter-name list at position `i`: identifiers
/// separated by commas.
pub open spec fn spec_params(t: Seq<TokenModel>, i: int) -> Result<
    (Seq<Seq<char>>, int),
    ErrorModel,
>
    decreases t.len() - i,
{
    if 0 <= i < t.len() && t[i] is Identifier {
        if i + 1 < t.len() && t[i + 1] is Comma {
            match spec_params(t, i + 2) {
                Err(e) => Err(e),
                Ok((rest, j)) => Ok((seq![t[i]->Identifier_0] + rest, j)),
            }
        } else {
            Ok((seq![t[i]->Identifier_0], i + 1))
        }
    } else {
        Err(spec_err(TokenType::Identifier, t, i))
    }
}

/// The parse of `funcDecl` at position `i`: a name, a `(`, a possibly empty
/// parameter-name list, and exactly one closing `)` — consumed inline when
/// the list is detected empty, and after the list otherwise.
pub open spec fn spec_func_decl(t: Seq<TokenModel>, i: int) -> Result<
    (FuncDeclModel, int),
    ErrorModel,
> {
    if 0 <= i < t.len() && t[i] is Identifier {
        if i + 1 < t.len() && t[i + 1] is LParen {
            if i + 2 < t.len() && t[i + 2] is RParen {
                Ok((FuncDeclModel { name: t[i]->Identifier_0, args: Seq::empty() }, i + 3))
            } else {
                match spec_params(t, i + 2) {
                    Err(e) => Err(e),
                    Ok((args, j)) => {
                        if 0 <= j < t.len() && t[j] is RParen {
                            Ok((FuncDeclModel { name: t[i]->Identifier_0, args }, j + 1))
                        } else {
                            Err(spec_err(TokenType::RParen, t, j))
                        }
                    },
                }
            }
        } else {
            Err(spec_err(TokenType::LParen, t, i + 1))
        }
    } else {
        Err(spec_err(TokenType::Identifier, t, i))
    }
}

/// The parse of `statement` at position `i`: an `if` with a parenthesized
/// condition, one inner statement and an optional `else` statement, or a
/// `return` of an expression. Any other lead token is an error naming both
/// acceptable kinds. The guards record that sub-parses consume tokens and
/// never fire.
pub open spec fn spec_statement(t: Seq<TokenModel>, i: int) -> Result<
    (StatementModel, int),
    ErrorModel,
>
    decreases t.len() - i,
{
    if 0 <= i < t.len() && t[i] is If {
        if i + 1 < t.len() && t[i + 1] is LParen {
            match spec_expression(t, i + 2) {
                Err(e) => Err(e),
                Ok((cond, j)) => {
                    if 0 <= j < t.len() && t[j] is RParen {
                        if i < j + 1 <= t.len() {
                            match spec_statement(t, j + 1) {
                                Err(e) => Err(e),
                                Ok((inner, j2)) => {
                                    if j2 < t.len() && t[j2] is Else {
                                        if i < j2 + 1 <= t.len() {
                                            match spec_statement(t, j2 + 1) {
                                                Err(e) => Err(e),
                                                Ok((els, j3)) => Ok(
                                                    (
                                                        StatementModel::Select {
                                                            condition: Box::new(cond),
                                                            statement: Box::new(inner),
                                                            else_clause: Some(Box::new(els)),
                                                        },
                                                        j3,
                                                    ),
                                                ),
                                            }
                                        } else {
                                            Err(dead_branch_err())
                                        }
                                    } else {
                                        Ok(
                                            (
                                                StatementModel::Select {
                                                    condition: Box::new(cond),
                                                    statement: Box::new(inner),
                                                    else_clause: None,
                                                },
                                                j2,
                                            ),
                                        )
                                    }
                                },
                            }
                        } else {
                            Err(dead_branch_err())
                        }
                    } else {
                        Err(spec_err(TokenType::RParen, t, j))
                    }
                },
            }
        } else {
            Err(spec_err(TokenType::LParen, t, i + 1))
        }
    } else if 0 <= i < t.len() && t[i] is Return {
        match spec_expression(t, i + 1) {
            Err(e) => Err(e),
            Ok((e, j)) => Ok((StatementModel::ReturnExpr(Box::new(e)), j)),
        }
    } else {
        Err(
            ErrorModel {
                expected: seq![TokenType::If, TokenType::Return],
                actual: spec_actual(t, i),
            },
        )
    }
}

/// The parse of `primary` at position `i`: a foreign declaration, or a `def`
/// with a declaration and a body statement.
pub open spec fn spec_primary(t: Seq<TokenModel>, i: int) -> Result<
    (PrimaryModel, int),
    ErrorModel,
> {
    if 0 <= i < t.len() && t[i] is Foreign {
        match spec_func_decl(t, i + 1) {
            Err(e) => Err(e),
            Ok((decl, j)) => Ok((PrimaryModel::Foreign(decl), j)),
        }
    } else if 0 <= i < t.len() && t[i] is Def {
        match spec_func_decl(t, i + 1) {
            Err(e) => Err(e),
            Ok((decl, j)) => match spec_statement(t, j) {
                Err(e) => Err(e),
                Ok((body, j2)) => Ok(
                    (PrimaryModel::Definition { decl, inner_statement: Box::new(body) }, j2),
                ),
            },
        }
    } else {
        Err(
            ErrorModel {
                expected: seq![TokenType::Foreign, TokenType::Def],
                actual: spec_actual(t, i),
            },
        )
    }
}

/// Parses one `funcDecl`, exactly as [`spec_func_decl`] says.
#[verifier::rlimit(60)]
fn get_func_decl<'a>(token_stream: &mut TokenStream<'a>) -> (r: Result<
    FuncDecl,
    UnexpectedTokenError,
>)
    requires
        old(token_stream).wf(),
    ensures
        final(token_stream).wf(),
        final(token_stream).tokens == old(token_stream).tokens,
        match r {
            Ok(decl) => {
                &&& spec_func_decl(old(token_stream).toks(), old(token_stream).pos as int)
                    == Ok::<_, ErrorModel>((decl@, final(token_stream).pos as int))
                &&& old(token_stream).pos < final(token_stream).pos <= old(
                    token_stream,
                ).toks().len()
            },
            Err(e) => spec_func_decl(old(token_stream).toks(), old(token_stream).pos as int)
                == Err::<(FuncDeclModel, int), _>(e@),
        },
{
    let ghost t = old(token_stream).toks();
    let ghost i0 = old(token_stream).pos as int;
    let name_token = match token_stream.expect(TokenType::Identifier) {
        Ok(tok) => tok,
        Err(e) => {
            return Err(e);
        },
    };
    proof {
        crate::lexer::lemma_wf_token_kind(name_token);
    }
    let name = match name_token.label {
        Some(l) => l,
        None => String::new(),
    };
    if let Err(e) = token_stream.expect(TokenType::LParen) {
        return Err(e);
    }
    let mut args: Vec<String> = Vec::new();
    if token_stream.accept(TokenType::RParen).is_some() {
        // A `)` straight after the `(`: no parameters, and the `)` is already
        // consumed.
        proof {
            assert(args@.map_values(|s: String| s@) =~= Seq::<Seq<char>>::empty());
        }
        return Ok(FuncDecl { name, args });
    }
    let ghost list_start = token_stream.pos as int;
    let mut continuing_list = true;
    while continuing_list
        invariant
            token_stream.wf(),
            token_stream.tokens == old(token_stream).tokens,
            t == old(token_stream).toks(),
            i0 == old(token_stream).pos as int,
            0 <= i0 < t.len(),
            t[i0] is Identifier,
            i0 + 1 < t.len() && t[i0 + 1] is LParen,
            list_start == i0 + 2,
            !(list_start < t.len() && t[list_start] is RParen),
            list_start <= token_stream.pos <= t.len(),
            continuing_list ==> ({
                match spec_params(t, token_stream.pos as int) {
                    Ok((rest, j)) => spec_params(t, list_start) == Ok::<_, ErrorModel>(
                        (args@.map_values(|s: String| s@) + rest, j),
                    ),
                    Err(e) => spec_params(t, list_start) == Err::<(Seq<Seq<char>>, int), _>(e),
                }
            }),
            !continuing_list ==> ({
                &&& spec_params(t, list_start) == Ok::<_, ErrorModel>(
                    (args@.map_values(|s: String| s@), token_stream.pos as int),
                )
                &&& list_start < token_stream.pos
            }),
        decreases t.len() - token_stream.pos, (if continuing_list { 1int } else { 0int }),
    {
        let ghost done = args@.map_values(|s: String| s@);
        let arg_token = match token_stream.expect(TokenType::Identifier) {
            Ok(tok) => tok,
            Err(e) => {
                return Err(e);
            },
        };
        proof {
            crate::lexer::lemma_wf_token_kind(arg_token);
        }
        let arg_name = match arg_token.label {
            Some(l) => l,
            None => String::new(),
        };
        args.push(arg_name);
        proof {
            assert(args@.map_values(|s: String| s@) =~= done.push(arg_token@->Identifier_0));
        }
        continuing_list = token_stream.accept(TokenType::Comma).is_some();
        proof {
            let j = token_stream.pos as int;
            if continuing_list {
                match spec_params(t, j) {
                    Ok((rest, _)) => {
                        assert(done + (seq![arg_token@->Identifier_0] + rest) =~= args@.map_values(
                            |s: String| s@,
                        ) + rest);
                    },
                    Err(_) => {},
                }
            } else {
                assert(done + seq![arg_token@->Identifier_0] =~= args@.map_values(
                    |s: String| s@,
                ));
            }
        }
    }
    // A non-empty list: its closing `)` is still unconsumed.
    if let Err(e) = token_stream.expect(TokenType::RParen) {
        return Err(e);
    }
    Ok(FuncDecl { name, args })
}

/// Parses one `statement`, exactly as [`spec_statement`] says.
pub fn statement<'a>(token_stream: &mut TokenStream<'a>) -> (r: Result<
    Box<Statement>,
    UnexpectedTokenError,
>)
    requires
        old(token_stream).wf(),
    ensures
        final(token_stream).wf(),
        final(token_stream).tokens == old(token_stream).tokens,
        match r {
            Ok(node) => {
                &&& spec_statement(old(token_stream).toks(), old(token_stream).pos as int)
                    == Ok::<_, ErrorModel>((node@, final(token_stream).pos as int))
                &&& old(token_stream).pos < final(token_stream).pos <= old(
                    token_stream,
                ).toks().len()
            },
            Err(e) => spec_statement(old(token_stream).toks(), old(token_stream).pos as int)
                == Err::<(StatementModel, int), _>(e@),
        },
    decreases token_stream.tokens@.len() - token_stream.pos,
{
    let kinds = vec![TokenType::If, TokenType::Return];
    proof {
        assert(kinds@ =~= seq![TokenType::If, TokenType::Return]);
    }
    let token = match token_stream.expect_multi(&kinds) {
        Ok(tok) => tok,
        Err(e) => {
            return Err(e);
        },
    };
    proof {
        crate::lexer::lemma_wf_token_kind(token);
    }
    if token.token_type == TokenType::If {
        if let Err(e) = token_stream.expect(TokenType::LParen) {
            return Err(e);
        }
        let condition = match expression(token_stream) {
            Ok(node) => node,
            Err(e) => {
                return Err(e);
            },
        };
        if let Err(e) = token_stream.expect(TokenType::RParen) {
            return Err(e);
        }
        let inner_statement = match statement(token_stream) {
            Ok(node) => node,
            Err(e) => {
                return Err(e);
            },
        };
        let else_clause: Option<Box<Statement>> = if token_stream.accept(
            TokenType::Else,
        ).is_some() {
            match statement(token_stream) {
                Ok(node) => Some(node),
                Err(e) => {
                    return Err(e);
                },
            }
        } else {
            None
        };
        let ghost else_model = match &else_clause {
            Some(s) => Some(Box::new(s.deep())),
            None => None::<Box<StatementModel>>,
        };
        let node = Box::new(
            Statement::Select { condition, statement: inner_statement, else_clause },
        );
        proof {
            assert(node@ == StatementModel::Select {
                condition: Box::new(condition@),
                statement: Box::new(inner_statement@),
                else_clause: else_model,
            });
        }
        Ok(node)
    } else {
        let value = match expression(token_stream) {
            Ok(node) => node,
            Err(e) => {
                return Err(e);
            },
        };
        Ok(Box::new(Statement::ReturnExpr(value)))
    }
}

/// Parses one `primary`, exactly as [`spec_primary`] says.
pub fn primary<'a>(token_stream: &mut TokenStream<'a>) -> (r: Result<
    PrimaryStatement,
    UnexpectedTokenError,
>)
    requires
        old(token_stream).wf(),
    ensures
        final(token_stream).wf(),
        final(token_stream).tokens == old(token_stream).tokens,
        match r {
            Ok(node) => {
                &&& spec_primary(old(token_stream).toks(), old(token_stream).pos as int)
                    == Ok::<_, ErrorModel>((node@, final(token_stream).pos as int))
                &&& old(token_stream).pos < final(token_stream).pos <= old(
                    token_stream,
                ).toks().len()
            },
            Err(e) => spec_primary(old(token_stream).toks(), old(token_stream).pos as int)
                == Err::<(PrimaryModel, int), _>(e@),
        },
{
    let kinds = vec![TokenType::Foreign, TokenType::Def];
    proof {
        assert(kinds@ =~= seq![TokenType::Foreign, TokenType::Def]);
    }
    let token = match token_stream.expect_multi(&kinds) {
        Ok(tok) => tok,
        Err(e) => {
            return Err(e);
        },
    };
    proof {
        crate::lexer::lemma_wf_token_kind(token);
    }
    if token.token_type == TokenType::Foreign {
        match get_func_decl(token_stream) {
            Ok(decl) => Ok(PrimaryStatement::Foreign(decl)),
            Err(e) => Err(e),
        }
    } else {
        let decl = match get_func_decl(token_stream) {
            Ok(decl) => decl,
            Err(e) => {
                return Err(e);
            },
        };
        let body = match statement(token_stream) {
            Ok(node) => node,
            Err(e) => {
                return Err(e);
            },
        };
        Ok(PrimaryStatement::Definition { decl, inner_statement: body })
    }
}

/// Parses one top-level form from the whole token sequence, exactly as
/// [`spec_primary`] says of position 0. Tokens past the form are left
/// unexamined.
pub fn parse_stream(token_stream: &Vec<LexerToken>) -> (r: Result<
    PrimaryStatement,
    UnexpectedTokenError,
>)
    requires
        forall|i: int| 0 <= i < token_stream@.len() ==> (#[trigger] token_stream@[i]).wf(),
    ensures
        match r {
            Ok(node) => spec_primary(token_stream@.map_values(|t: LexerToken| t@), 0) matches Ok(m)
                && m.0 == node@,
            Err(e) => spec_primary(token_stream@.map_values(|t: LexerToken| t@), 0) == Err::<
                (PrimaryModel, int),
                _,
            >(e@),
        },
{
    let mut stream = TokenStream::new(token_stream);
    match primary(&mut stream) {
        Ok(node) => Ok(node),
        Err(e) => Err(e),
    }
}

} // verus!

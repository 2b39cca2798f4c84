//! The expression grammar: precedence-layered recursive descent.
//!
//! ```text
//! expression   := relational
//! relational   := sum ( REL_OP relational )?
//! sum          := mult ( SUM_OP sum )?
//! mult         := factor ( MUL_OP mult )?
//! factor       := IDENTIFIER callSuffix?
//!               | NUMBER
//!               | '(' expression ')'
//! callSuffix   := '(' ( expression ( ',' expression )* )? ')'
//! ```
//!
//! Each layer parses the next-higher layer as its left side and, on seeing its
//! own operator, recurses into itself for the right side, so every operator
//! class associates to the right. The specification functions [`spec_factor`]
//! through [`spec_expression`] define the parse of each production — which
//! tree it builds, where it stops, and the exact error otherwise — and each
//! executable production is proved equal to its specification.

use vstd::prelude::*;

use crate::lexer::LexerToken;
use crate::lexer::MulOp;
use crate::lexer::RelOp;
use crate::lexer::SumOp;
use crate::lexer::TokenModel;
use crate::lexer::TokenType;
use crate::lexer::token_kind;
use crate::token_stream::ErrorModel;
use crate::token_stream::TokenStream;
use crate::token_stream::UnexpectedTokenError;

verus! {

/// A binary operator, tagged with the grammar layer it belongs to.
#[derive(Clone, Copy, Debug, PartialEq, Eq, Structural)]
pub enum BinOp {
    Sum(SumOp),
    Mult(MulOp),
    Rel(RelOp),
}

/// A leaf of the expression grammar: an identifier (with the arguments of its
/// call suffix, if one followed) or a numeric literal carrying its spelling.
#[derive(Debug)]
pub enum Factor {
    Id { id: String, optional_call: Option<Vec<Box<AstExprNode>>> },
    Numeric(String),
}

/// An expression tree. Every node owns its children; the tree is strict — no
/// sharing, no cycles.
#[derive(Debug)]
pub enum AstExprNode {
    Node { left: Box<AstExprNode>, op_type: BinOp, next: Box<AstExprNode> },
    SubNode(Box<AstExprNode>),
    Terminal(Factor),
}

/// The value of a [`Factor`].
pub enum FactorModel {
    Id { id: Seq<char>, optional_call: Option<Seq<ExprModel>> },
    Numeric(Seq<char>),
}

/// The value of an [`AstExprNode`].
pub enum ExprModel {
    Node { left: Box<ExprModel>, op_type: BinOp, next: Box<ExprModel> },
    SubNode(Box<ExprModel>),
    Terminal(FactorModel),
}

impl AstExprNode {
    /// The value of the tree.
    pub open spec fn deep(self) -> ExprModel
        decreases self,
    {
        match self {
            AstExprNode::Node { left, op_type, next } => ExprModel::Node {
                left: Box::new(left.deep()),
                op_type,
                next: Box::new(next.deep()),
            },
            AstExprNode::SubNode(sub) => ExprModel::SubNode(Box::new(sub.deep())),
            AstExprNode::Terminal(f) => ExprModel::Terminal(f.deep()),
        }
    }
}

impl Factor {
    /// The value of the leaf.
    pub open spec fn deep(self) -> FactorModel
        decreases self,
    {
        match self {
            Factor::Id { id, optional_call } => FactorModel::Id {
                id: id@,
                optional_call: match optional_call {
                    Some(args) => Some(exprs_deep(args@)),
                    None => None,
                },
            },
            Factor::Numeric(s) => FactorModel::Numeric(s@),
        }
    }
}

/// The values of a sequence of owned trees.
pub open spec fn exprs_deep(s: Seq<Box<AstExprNode>>) -> Seq<ExprModel>
    decreases s,
{
    if s.len() == 0 {
        Seq::empty()
    } else {
        exprs_deep(s.drop_last()).push(s.last().deep())
    }
}

/// The value sequence has one entry per tree.
pub proof fn lemma_exprs_deep_len(s: Seq<Box<AstExprNode>>)
    ensures
        exprs_deep(s).len() == s.len(),
    decreases s,
{
    if s.len() > 0 {
        lemma_exprs_deep_len(s.drop_last());
    }
}

/// The value sequence holds each tree's value, in order.
pub proof fn lemma_exprs_deep_index(s: Seq<Box<AstExprNode>>, i: int)
    requires
        0 <= i < s.len(),
    ensures
        exprs_deep(s).len() == s.len(),
        exprs_deep(s)[i] == s[i].deep(),
    decreases s,
{
    lemma_exprs_deep_len(s);
    if i < s.len() - 1 {
        lemma_exprs_deep_index(s.drop_last(), i);
        assert(s.drop_last()[i] == s[i]);
    }
}

impl View for AstExprNode {
    type V = ExprModel;

    open spec fn view(&self) -> ExprModel {
        self.deep()
    }
}

impl View for Factor {
    type V = FactorModel;

    open spec fn view(&self) -> FactorModel {
        self.deep()
    }
}

/// The kind the cursor reports at position `i`: the next token's kind, or
/// `None` at the end of the input.
pub open spec fn spec_actual(t: Seq<TokenModel>, i: int) -> Option<TokenType> {
    if 0 <= i < t.len() {
        Some(token_kind(t[i]))
    } else {
        None
    }
}

/// The error a failed single-kind match at position `i` reports.
pub open spec fn spec_err(k: TokenType, t: Seq<TokenModel>, i: int) -> ErrorModel {
    ErrorModel { expected: seq![k], actual: spec_actual(t, i) }
}

/// An error value for specification branches that a proved fact rules out.
pub open spec fn dead_branch_err() -> ErrorModel {
    ErrorModel { expected: Seq::empty(), actual: None }
}

/// The parse of `factor` at position `i` of `t`: the tree it builds and the
/// position after it, or the exact error. A factor is an identifier (with an
/// optional call suffix), a number, or a parenthesized expression.
pub open spec fn spec_factor(t: Seq<TokenModel>, i: int) -> Result<(ExprModel, int), ErrorModel>
    decreases t.len() - i, 0int,
{
    if 0 <= i < t.len() && t[i] is Identifier {
        match spec_optional_call(t, i + 1) {
            Err(e) => Err(e),
            Ok((args, j)) => Ok(
                (
                    ExprModel::Terminal(
                        FactorModel::Id { id: t[i]->Identifier_0, optional_call: args },
                    ),
                    j,
                ),
            ),
        }
    } else if 0 <= i < t.len() && t[i] is Number {
        Ok((ExprModel::Terminal(FactorModel::Numeric(t[i]->Number_0)), i + 1))
    } else if 0 <= i < t.len() && t[i] is LParen {
        match spec_expression(t, i + 1) {
            Err(e) => Err(e),
            Ok((inner, j)) => {
                if 0 <= j < t.len() && t[j] is RParen {
                    Ok((ExprModel::SubNode(Box::new(inner)), j + 1))
                } else {
                    Err(spec_err(TokenType::RParen, t, j))
                }
            },
        }
    } else {
        Err(
            ErrorModel {
                expected: seq![TokenType::Identifier, TokenType::Number, TokenType::LParen],
                actual: spec_actual(t, i),
            },
        )
    }
}

/// The parse of a call suffix at position `i`: `None` when no `(` follows,
/// otherwise the comma-separated, possibly empty argument list up to its `)`.
pub open spec fn spec_optional_call(t: Seq<TokenModel>, i: int) -> Result<
    (Option<Seq<ExprModel>>, int),
    ErrorModel,
>
    decreases t.len() - i, 6int,
{
    if 0 <= i < t.len() && t[i] is LParen {
        if 0 <= i + 1 < t.len() && t[i + 1] is RParen {
            Ok((Some(Seq::empty()), i + 2))
        } else {
            match spec_call_args(t, i + 1) {
                Err(e) => Err(e),
                Ok((args, j)) => {
                    if 0 <= j < t.len() && t[j] is RParen {
                        Ok((Some(args), j + 1))
                    } else {
                        Err(spec_err(TokenType::RParen, t, j))
                    }
                },
            }
        }
    } else {
        Ok((None, i))
    }
}

/// The parse of a non-empty argument list at position `i`: expressions
/// separated by commas, each list entry in source order. An expression
/// consumes at least one token, so the recursion after a comma advances; the
/// guard records that and never fires.
pub open spec fn spec_call_args(t: Seq<TokenModel>, i: int) -> Result<
    (Seq<ExprModel>, int),
    ErrorModel,
>
    decreases t.len() - i, 5int,
{
    match spec_expression(t, i) {
        Err(e) => Err(e),
        Ok((first, j)) => {
            if 0 <= j < t.len() && t[j] is Comma {
                if i < j {
                    match spec_call_args(t, j + 1) {
                        Err(e) => Err(e),
                        Ok((rest, j2)) => Ok((seq![first] + rest, j2)),
                    }
                } else {
                    Err(dead_branch_err())
                }
            } else {
                Ok((seq![first], j))
            }
        },
    }
}

/// The parse of `mult` at position `i`: a factor, then — on `*` or `/` — a
/// recursive `mult` as the right side. The guard records that the left side
/// consumed at least one token and never fires.
pub open spec fn spec_mult(t: Seq<TokenModel>, i: int) -> Result<(ExprModel, int), ErrorModel>
    decreases t.len() - i, 1int,
{
    match spec_factor(t, i) {
        Err(e) => Err(e),
        Ok((left, j)) => {
            if 0 <= j < t.len() && t[j] is Mul {
                if i < j {
                    match spec_mult(t, j + 1) {
                        Err(e) => Err(e),
                        Ok((right, j2)) => Ok(
                            (
                                ExprModel::Node {
                                    left: Box::new(left),
                                    op_type: BinOp::Mult(t[j]->Mul_0),
                                    next: Box::new(right),
                                },
                                j2,
                            ),
                        ),
                    }
                } else {
                    Err(dead_branch_err())
                }
            } else {
                Ok((left, j))
            }
        },
    }
}

/// The parse of `sum` at position `i`: a `mult`, then — on `+` or `-` — a
/// recursive `sum` as the right side.
pub open spec fn spec_sum(t: Seq<TokenModel>, i: int) -> Result<(ExprModel, int), ErrorModel>
    decreases t.len() - i, 2int,
{
    match spec_mult(t, i) {
        Err(e) => Err(e),
        Ok((left, j)) => {
            if 0 <= j < t.len() && t[j] is Sum {
                if i < j {
                    match spec_sum(t, j + 1) {
                        Err(e) => Err(e),
                        Ok((right, j2)) => Ok(
                            (
                                ExprModel::Node {
                                    left: Box::new(left),
                                    op_type: BinOp::Sum(t[j]->Sum_0),
                                    next: Box::new(right),
                                },
                                j2,
                            ),
                        ),
                    }
                } else {
                    Err(dead_branch_err())
                }
            } else {
                Ok((left, j))
            }
        },
    }
}

/// The parse of `relational` at position `i`: a `sum`, then — on a relational
/// operator — a recursive `relational` as the right side.
pub open spec fn spec_rel(t: Seq<TokenModel>, i: int) -> Result<(ExprModel, int), ErrorModel>
    decreases t.len() - i, 3int,
{
    match spec_sum(t, i) {
        Err(e) => Err(e),
        Ok((left, j)) => {
            if 0 <= j < t.len() && t[j] is Rel {
                if i < j {
                    match spec_rel(t, j + 1) {
                        Err(e) => Err(e),
                        Ok((right, j2)) => Ok(
                            (
                                ExprModel::Node {
                                    left: Box::new(left),
                                    op_type: BinOp::Rel(t[j]->Rel_0),
                                    next: Box::new(right),
                                },
                                j2,
                            ),
                        ),
                    }
                } else {
                    Err(dead_branch_err())
                }
            } else {
                Ok((left, j))
            }
        },
    }
}

/// The parse of a whole expression: the lowest-precedence layer.
pub open spec fn spec_expression(t: Seq<TokenModel>, i: int) -> Result<
    (ExprModel, int),
    ErrorModel,
>
    decreases t.len() - i, 4int,
{
    spec_rel(t, i)
}

/// A tree the `factor` production can build: a leaf or a parenthesized group.
pub open spec fn factor_shaped(e: ExprModel) -> bool {
    e is Terminal || e is SubNode
}

/// A tree the `mult` production can build: a factor, or a node whose operator
/// is multiplicative.
pub open spec fn mult_shaped(e: ExprModel) -> bool {
    ||| factor_shaped(e)
    ||| (e matches ExprModel::Node { left: _, op_type: BinOp::Mult(_), next: _ })
}

/// A tree the `sum` production can build: a `mult` tree, or a node whose
/// operator is additive.
pub open spec fn sum_shaped(e: ExprModel) -> bool {
    ||| mult_shaped(e)
    ||| (e matches ExprModel::Node { left: _, op_type: BinOp::Sum(_), next: _ })
}

/// Whatever `factor` parses is factor-shaped.
pub proof fn lemma_factor_shape(t: Seq<TokenModel>, i: int)
    requires
        spec_factor(t, i) is Ok,
    ensures
        factor_shaped(spec_factor(t, i)->Ok_0.0),
{
}

/// Whatever `mult` parses is mult-shaped: its root is never an additive or
/// relational operator.
pub proof fn lemma_mult_shape(t: Seq<TokenModel>, i: int)
    requires
        spec_mult(t, i) is Ok,
    ensures
        mult_shaped(spec_mult(t, i)->Ok_0.0),
{
    lemma_factor_shape(t, i);
}

/// Whatever `sum` parses is sum-shaped: its root is never a relational
/// operator.
pub proof fn lemma_sum_shape(t: Seq<TokenModel>, i: int)
    requires
        spec_sum(t, i) is Ok,
    ensures
        sum_shaped(spec_sum(t, i)->Ok_0.0),
{
    lemma_mult_shape(t, i);
}

/// Every operator layer associates to the right: when a parsed expression has
/// a multiplicative root, its left operand is a plain factor; under an
/// additive root the left operand holds no top-level additive operator; and
/// under a relational root it holds no top-level relational operator. The
/// continuation into the same layer always happens on the right side.
pub proof fn lemma_operators_associate_right(t: Seq<TokenModel>, i: int)
    requires
        spec_expression(t, i) is Ok,
    ensures
        (spec_expression(t, i)->Ok_0.0 matches ExprModel::Node {
            left,
            op_type: BinOp::Mult(_),
            next: _,
        } ==> factor_shaped(*left)),
        (spec_expression(t, i)->Ok_0.0 matches ExprModel::Node {
            left,
            op_type: BinOp::Sum(_),
            next: _,
        } ==> mult_shaped(*left)),
        (spec_expression(t, i)->Ok_0.0 matches ExprModel::Node {
            left,
            op_type: BinOp::Rel(_),
            next: _,
        } ==> sum_shaped(*left)),
{
    // A node of some layer's operator class can only have been built by that
    // layer, whose left side is the next-higher layer's parse at the same
    // position.
    if spec_sum(t, i) is Ok {
        lemma_sum_shape(t, i);
    }
    if spec_mult(t, i) is Ok {
        lemma_mult_shape(t, i);
    }
    if spec_factor(t, i) is Ok {
        lemma_factor_shape(t, i);
    }
}

impl BinOp {
    /// The operator a token of operator kind carries.
    fn from_token_type(token_type: TokenType, token: &LexerToken) -> (r: Option<BinOp>)
        requires
            token.wf(),
            token.token_type == token_type,
        ensures
            match r {
                Some(op) => match op {
                    BinOp::Sum(s) => token@ == TokenModel::Sum(s),
                    BinOp::Mult(m) => token@ == TokenModel::Mul(m),
                    BinOp::Rel(l) => token@ == TokenModel::Rel(l),
                },
                None => !(token_type is SumOp) && !(token_type is MulOp) && !(token_type
                    is RelOp),
            },
    {
        match token_type {
            TokenType::SumOp => match token.sum_op {
                Some(op) => Some(BinOp::Sum(op)),
                None => None,
            },
            TokenType::MulOp => match token.mul_op {
                Some(op) => Some(BinOp::Mult(op)),
                None => None,
            },
            TokenType::RelOp => match token.rel_op {
                Some(op) => Some(BinOp::Rel(op)),
                None => None,
            },
            _ => None,
        }
    }
}

/// The contract every expression production shares: the production returns
/// exactly what its specification function `s` says of the cursor's tokens at
/// the cursor's position — the same tree, the same end position, the same
/// error — and on success it consumed at least one token.
pub open spec fn parses_as(
    pre: TokenStream<'_>,
    post: TokenStream<'_>,
    r: Result<Box<AstExprNode>, UnexpectedTokenError>,
    s: Result<(ExprModel, int), ErrorModel>,
) -> bool {
    &&& post.wf()
    &&& post.tokens == pre.tokens
    &&& match r {
        Ok(node) => {
            &&& s == Ok::<_, ErrorModel>((node@, post.pos as int))
            &&& pre.pos < post.pos <= pre.toks().len()
        },
        Err(e) => s == Err::<(ExprModel, int), _>(e@),
    }
}

/// Parses one `factor`, exactly as [`spec_factor`] says.
fn factor<'a>(token_stream: &mut TokenStream<'a>) -> (r: Result<
    Box<AstExprNode>,
    UnexpectedTokenError,
>)
    requires
        old(token_stream).wf(),
    ensures
        parses_as(
            *old(token_stream),
            *final(token_stream),
            r,
            spec_factor(old(token_stream).toks(), old(token_stream).pos as int),
        ),
    decreases token_stream.tokens@.len() - token_stream.pos, 0int,
{
    let kinds = vec![TokenType::Identifier, TokenType::Number, TokenType::LParen];
    proof {
        assert(kinds@ =~= seq![TokenType::Identifier, TokenType::Number, TokenType::LParen]);
    }
    let token = match token_stream.expect_multi(&kinds) {
        Ok(t) => t,
        Err(e) => {
            return Err(e);
        },
    };
    proof {
        crate::lexer::lemma_wf_token_kind(token);
    }
    if token.token_type == TokenType::Identifier {
        let ghost t = old(token_stream).toks();
        let ghost i = old(token_stream).pos as int;
        let label = match token.label {
            Some(l) => l,
            None => String::new(),
        };
        proof {
            assert(t[i] is Identifier);
            assert(t[i]->Identifier_0 == label@);
        }
        let optional_call = match get_optional_call(token_stream) {
            Ok(args) => args,
            Err(e) => {
                return Err(e);
            },
        };
        let f = Factor::Id { id: label, optional_call };
        let ghost fv = f;
        proof {
            assert(fv.deep() is Id);
        }
        let node = Box::new(AstExprNode::Terminal(f));
        proof {
            assert(node@ == ExprModel::Terminal(fv.deep()));
        }
        Ok(node)
    } else if token.token_type == TokenType::Number {
        let number = match token.number {
            Some(n) => n,
            None => String::new(),
        };
        let f = Factor::Numeric(number);
        let ghost fv = f;
        proof {
            assert(fv.deep() is Numeric);
        }
        let node = Box::new(AstExprNode::Terminal(f));
        proof {
            assert(node@ == ExprModel::Terminal(fv.deep()));
        }
        Ok(node)
    } else {
        let inner = match expression(token_stream) {
            Ok(e) => e,
            Err(e) => {
                return Err(e);
            },
        };
        match token_stream.expect(TokenType::RParen) {
            Ok(_) => Ok(Box::new(AstExprNode::SubNode(inner))),
            Err(e) => Err(e),
        }
    }
}

/// Parses the call suffix after an identifier, exactly as
/// [`spec_optional_call`] says: `None` when no `(` follows, otherwise the
/// argument list. Consumes nothing when it returns `None`.
#[verifier::rlimit(100)]
#[verifier::spinoff_prover]
fn get_optional_call<'a>(token_stream: &mut TokenStream<'a>) -> (r: Result<
    Option<Vec<Box<AstExprNode>>>,
    UnexpectedTokenError,
>)
    requires
        old(token_stream).wf(),
    ensures
        final(token_stream).wf(),
        final(token_stream).tokens == old(token_stream).tokens,
        match r {
            Ok(args) => {
                &&& spec_optional_call(old(token_stream).toks(), old(token_stream).pos as int)
                    == Ok::<_, ErrorModel>(
                    (
                        match args {
                            Some(v) => Some(exprs_deep(v@)),
                            None => None::<Seq<ExprModel>>,
                        },
                        final(token_stream).pos as int,
                    ),
                )
                &&& old(token_stream).pos <= final(token_stream).pos <= old(
                    token_stream,
                ).toks().len()
            },
            Err(e) => spec_optional_call(old(token_stream).toks(), old(token_stream).pos as int)
                == Err::<(Option<Seq<ExprModel>>, int), _>(e@),
        },
    decreases token_stream.tokens@.len() - token_stream.pos, 6int,
{
    let ghost t = old(token_stream).toks();
    let ghost i0 = old(token_stream).pos as int;
    if token_stream.accept(TokenType::LParen).is_none() {
        return Ok(None);
    }
    let mut arglist: Vec<Box<AstExprNode>> = Vec::new();
    if token_stream.accept(TokenType::RParen).is_some() {
        // A `)` straight after the `(`: a call with zero arguments.
        proof {
            assert(exprs_deep(arglist@) =~= Seq::<ExprModel>::empty());
        }
        return Ok(Some(arglist));
    }
    let ghost args_start = token_stream.pos as int;
    proof {
        assert(exprs_deep(arglist@) =~= Seq::<ExprModel>::empty());
        match spec_call_args(t, args_start) {
            Ok((rest, _)) => {
                assert(Seq::<ExprModel>::empty() + rest =~= rest);
            },
            Err(_) => {},
        }
    }
    let mut continue_list = true;
    while continue_list
        invariant
            token_stream.wf(),
            token_stream.tokens == old(token_stream).tokens,
            t == old(token_stream).toks(),
            i0 == old(token_stream).pos as int,
            0 <= i0 < t.len(),
            t[i0] is LParen,
            args_start == i0 + 1,
            !(args_start < t.len() && t[args_start] is RParen),
            args_start <= token_stream.pos <= t.len(),
            continue_list ==> ({
                &&& match spec_call_args(t, token_stream.pos as int) {
                    Ok((rest, j)) => spec_call_args(t, args_start) == Ok::<_, ErrorModel>(
                        (exprs_deep(arglist@) + rest, j),
                    ),
                    Err(e) => spec_call_args(t, args_start) == Err::<(Seq<ExprModel>, int), _>(e),
                }
            }),
            !continue_list ==> ({
                &&& spec_call_args(t, args_start) == Ok::<_, ErrorModel>(
                    (exprs_deep(arglist@), token_stream.pos as int),
                )
                &&& args_start < token_stream.pos
            }),
        decreases t.len() - token_stream.pos, (if continue_list { 1int } else { 0int }),
    {
        let ghost cur = token_stream.pos as int;
        let ghost prev_args = arglist@;
        let ghost done = exprs_deep(arglist@);
        let node = match expression(token_stream) {
            Ok(n) => n,
            Err(e) => {
                return Err(e);
            },
        };
        arglist.push(node);
        proof {
            assert(arglist@.drop_last() =~= prev_args);
            assert(exprs_deep(arglist@) == done.push(arglist@.last().deep()));
        }
        continue_list = token_stream.accept(TokenType::Comma).is_some();
        proof {
            let j = token_stream.pos as int;
            if continue_list {
                match spec_call_args(t, j) {
                    Ok((rest, j2)) => {
                        assert(done + (seq![arglist@.last().deep()] + rest) =~= exprs_deep(
                            arglist@,
                        ) + rest);
                    },
                    Err(_) => {},
                }
            } else {
                assert(done + seq![arglist@.last().deep()] =~= exprs_deep(arglist@));
            }
        }
    }
    match token_stream.expect(TokenType::RParen) {
        Ok(_) => Ok(Some(arglist)),
        Err(e) => Err(e),
    }
}

/// Parses one `mult`, exactly as [`spec_mult`] says.
fn mult_expr<'a>(token_stream: &mut TokenStream<'a>) -> (r: Result<
    Box<AstExprNode>,
    UnexpectedTokenError,
>)
    requires
        old(token_stream).wf(),
    ensures
        parses_as(
            *old(token_stream),
            *final(token_stream),
            r,
            spec_mult(old(token_stream).toks(), old(token_stream).pos as int),
        ),
    decreases token_stream.tokens@.len() - token_stream.pos, 1int,
{
    let left = match factor(token_stream) {
        Ok(n) => n,
        Err(e) => {
            return Err(e);
        },
    };
    if let Some(op) = token_stream.accept(TokenType::MulOp) {
        let op_val = match BinOp::from_token_type(TokenType::MulOp, &op) {
            Some(v) => v,
            None => BinOp::Mult(MulOp::Multiply),
        };
        let right = match mult_expr(token_stream) {
            Ok(n) => n,
            Err(e) => {
                return Err(e);
            },
        };
        Ok(Box::new(AstExprNode::Node { left, op_type: op_val, next: right }))
    } else {
        Ok(left)
    }
}

/// Parses one `sum`, exactly as [`spec_sum`] says.
fn sum_expr<'a>(token_stream: &mut TokenStream<'a>) -> (r: Result<
    Box<AstExprNode>,
    UnexpectedTokenError,
>)
    requires
        old(token_stream).wf(),
    ensures
        parses_as(
            *old(token_stream),
            *final(token_stream),
            r,
            spec_sum(old(token_stream).toks(), old(token_stream).pos as int),
        ),
    decreases token_stream.tokens@.len() - token_stream.pos, 2int,
{
    let left = match mult_expr(token_stream) {
        Ok(n) => n,
        Err(e) => {
            return Err(e);
        },
    };
    if let Some(op) = token_stream.accept(TokenType::SumOp) {
        let op_val = match BinOp::from_token_type(TokenType::SumOp, &op) {
            Some(v) => v,
            None => BinOp::Sum(SumOp::Add),
        };
        let right = match sum_expr(token_stream) {
            Ok(n) => n,
            Err(e) => {
                return Err(e);
            },
        };
        Ok(Box::new(AstExprNode::Node { left, op_type: op_val, next: right }))
    } else {
        Ok(left)
    }
}

/// Parses one `relational`, exactly as [`spec_rel`] says.
fn rel_expr<'a>(token_stream: &mut TokenStream<'a>) -> (r: Result<
    Box<AstExprNode>,
    UnexpectedTokenError,
>)
    requires
        old(token_stream).wf(),
    ensures
        parses_as(
            *old(token_stream),
            *final(token_stream),
            r,
            spec_rel(old(token_stream).toks(), old(token_stream).pos as int),
        ),
    decreases token_stream.tokens@.len() - token_stream.pos, 3int,
{
    let left = match sum_expr(token_stream) {
        Ok(n) => n,
        Err(e) => {
            return Err(e);
        },
    };
    if let Some(op) = token_stream.accept(TokenType::RelOp) {
        let op_val = match BinOp::from_token_type(TokenType::RelOp, &op) {
            Some(v) => v,
            None => BinOp::Rel(RelOp::Equal),
        };
        let right = match rel_expr(token_stream) {
            Ok(n) => n,
            Err(e) => {
                return Err(e);
            },
        };
        Ok(Box::new(AstExprNode::Node { left, op_type: op_val, next: right }))
    } else {
        Ok(left)
    }
}

/// Parses one whole expression, exactly as [`spec_expression`] says: the tree
/// it returns and the tokens it consumes are pinned by the specification, and
/// so is the error on any input the grammar refuses.
pub fn expression<'a>(token_stream: &mut TokenStream<'a>) -> (r: Result<
    Box<AstExprNode>,
    UnexpectedTokenError,
>)
    requires
        old(token_stream).wf(),
    ensures
        parses_as(
            *old(token_stream),
            *final(token_stream),
            r,
            spec_expression(old(token_stream).toks(), old(token_stream).pos as int),
        ),
    decreases token_stream.tokens@.len() - token_stream.pos, 4int,
{
    rel_expr(token_stream)
}

} // verus!


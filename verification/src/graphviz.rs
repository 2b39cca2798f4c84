//! Rendering a syntax tree as a graph description: a mapping from node name
//! to display label, plus a list of directed edges, ready to be serialized
//! into a textual graph format.
//!
//! Every node of the tree is assigned a unique name `_k`, with `k` counting
//! nodes in visit order (depth first, children left to right). The
//! specification functions [`gv_expr`], [`gv_stmt`], [`gv_decl`] and
//! [`gv_primary`] define the exact labels and edges of each tree, and the
//! builders are proved equal to them.

use vstd::prelude::*;
use vstd::string::StringExecFns;

use crate::lexer::MulOp;
use crate::lexer::RelOp;
use crate::lexer::SumOp;
use crate::parser::bin_op::AstExprNode;
use crate::parser::bin_op::BinOp;
use crate::parser::bin_op::ExprModel;
use crate::parser::bin_op::Factor;
use crate::parser::bin_op::FactorModel;
use crate::parser::parser::FuncDecl;
use crate::parser::parser::FuncDeclModel;
use crate::parser::parser::PrimaryModel;
use crate::parser::parser::PrimaryStatement;
use crate::parser::parser::Statement;
use crate::parser::parser::StatementModel;

verus! {

// ---------------------------------------------------------------------------
// Node names.
// ---------------------------------------------------------------------------
/// The decimal digits of `n`, most significant first.
pub open spec fn dec_digits(n: nat) -> Seq<char>
    decreases n,
{
    if n < 10 {
        seq![digit_char(n)]
    } else {
        dec_digits(n / 10).push(digit_char(n % 10))
    }
}

/// The character of a single decimal digit.
pub open spec fn digit_char(d: nat) -> char {
    if d == 0 {
        '0'
    } else if d == 1 {
        '1'
    } else if d == 2 {
        '2'
    } else if d == 3 {
        '3'
    } else if d == 4 {
        '4'
    } else if d == 5 {
        '5'
    } else if d == 6 {
        '6'
    } else if d == 7 {
        '7'
    } else if d == 8 {
        '8'
    } else {
        '9'
    }
}

/// The name of the node with visit index `k`: an underscore followed by `k`
/// in decimal.
pub open spec fn node_name(k: nat) -> Seq<char> {
    seq!['_'] + dec_digits(k)
}

/// Appends the decimal digits of `n` to `s`.
fn push_decimal(s: &mut String, n: usize)
    ensures
        final(s)@ == old(s)@ + dec_digits(n as nat),
    decreases n,
{
    if n >= 10 {
        push_decimal(s, n / 10);
    }
    let digit = match n % 10 {
        0 => '0',
        1 => '1',
        2 => '2',
        3 => '3',
        4 => '4',
        5 => '5',
        6 => '6',
        7 => '7',
        8 => '8',
        _ => '9',
    };
    s.push(digit);
    proof {
        if n < 10 {
            assert(old(s)@ + dec_digits(n as nat) =~= old(s)@.push(digit_char(n as nat)));
        } else {
            assert(old(s)@ + dec_digits(n as nat) =~= (old(s)@ + dec_digits((n / 10) as nat)).push(
                digit_char((n % 10) as nat),
            ));
        }
    }
}

/// The name of the node with visit index `k`, as a string.
fn node_name_string(k: usize) -> (s: String)
    ensures
        s@ == node_name(k as nat),
{
    let mut s = String::new();
    s.push('_');
    proof {
        assert(Seq::<char>::empty().push('_') =~= seq!['_']);
    }
    push_decimal(&mut s, k);
    s
}

// ---------------------------------------------------------------------------
// Node labels.
// ---------------------------------------------------------------------------
/// The display label of an operator.
pub open spec fn op_label(op: BinOp) -> Seq<char> {
    match op {
        BinOp::Sum(SumOp::Add) => "+"@,
        BinOp::Sum(SumOp::Subtract) => "-"@,
        BinOp::Mult(MulOp::Multiply) => "*"@,
        BinOp::Mult(MulOp::Divide) => "/"@,
        BinOp::Rel(RelOp::LessThan) => "<"@,
        BinOp::Rel(RelOp::LessThanEq) => "<="@,
        BinOp::Rel(RelOp::Equal) => "=="@,
        BinOp::Rel(RelOp::GreaterThan) => ">"@,
        BinOp::Rel(RelOp::GreaterThanEq) => ">="@,
    }
}

/// The display label of an expression node: its operator, `( )` for a
/// grouping, the spelling of a numeric literal, or the identifier marked as a
/// plain reference or a call.
pub open spec fn expr_label(e: ExprModel) -> Seq<char> {
    match e {
        ExprModel::Node { left: _, op_type, next: _ } => op_label(op_type),
        ExprModel::SubNode(_) => "( )"@,
        ExprModel::Terminal(f) => match f {
            FactorModel::Id { id, optional_call } => {
                if optional_call is None {
                    "Id: "@ + id
                } else {
                    "Call: "@ + id
                }
            },
            FactorModel::Numeric(s) => s,
        },
    }
}

/// The display label of a statement node.
pub open spec fn stmt_label(s: StatementModel) -> Seq<char> {
    match s {
        StatementModel::Select { condition: _, statement: _, else_clause: _ } => "if"@,
        StatementModel::ReturnExpr(_) => "return"@,
    }
}

/// The display label of a top-level form.
pub open spec fn primary_label(p: PrimaryModel) -> Seq<char> {
    match p {
        PrimaryModel::Definition { decl: _, inner_statement: _ } => "Def"@,
        PrimaryModel::Foreign(_) => "Foreign"@,
    }
}

/// A node that can describe itself to the graph builder with a short display
/// label.
pub trait CreatesGraphviz {
    /// The label, as a character sequence.
    spec fn spec_name(&self) -> Seq<char>;

    /// The label.
    fn get_name(&self) -> (r: String)
        ensures
            r@ == self.spec_name(),
    ;
}

impl CreatesGraphviz for AstExprNode {
    open spec fn spec_name(&self) -> Seq<char> {
        expr_label(self.deep())
    }

    fn get_name(&self) -> (r: String)
        ensures
            r@ == self.spec_name(),
    {
        match self {
            AstExprNode::Node { left: _, op_type, next: _ } => {
                match op_type {
                    BinOp::Sum(SumOp::Add) => String::from_str("+"),
                    BinOp::Sum(SumOp::Subtract) => String::from_str("-"),
                    BinOp::Mult(MulOp::Multiply) => String::from_str("*"),
                    BinOp::Mult(MulOp::Divide) => String::from_str("/"),
                    BinOp::Rel(RelOp::LessThan) => String::from_str("<"),
                    BinOp::Rel(RelOp::LessThanEq) => String::from_str("<="),
                    BinOp::Rel(RelOp::Equal) => String::from_str("=="),
                    BinOp::Rel(RelOp::GreaterThan) => String::from_str(">"),
                    BinOp::Rel(RelOp::GreaterThanEq) => String::from_str(">="),
                }
            },
            AstExprNode::SubNode(_) => String::from_str("( )"),
            AstExprNode::Terminal(f) => {
                proof {
                    assert(self.deep() == ExprModel::Terminal(f.deep()));
                }
                match f {
                    Factor::Id { id, optional_call } => {
                        let mut s = if optional_call.is_none() {
                            String::from_str("Id: ")
                        } else {
                            String::from_str("Call: ")
                        };
                        s.append(id.as_str());
                        s
                    },
                    Factor::Numeric(text) => text.clone(),
                }
            },
        }
    }
}

impl CreatesGraphviz for Statement {
    open spec fn spec_name(&self) -> Seq<char> {
        stmt_label(self.deep())
    }

    fn get_name(&self) -> (r: String)
        ensures
            r@ == self.spec_name(),
    {
        match self {
            Statement::Select { condition: _, statement: _, else_clause: _ } => String::from_str(
                "if",
            ),
            Statement::ReturnExpr(_) => String::from_str("return"),
        }
    }
}

impl CreatesGraphviz for PrimaryStatement {
    open spec fn spec_name(&self) -> Seq<char> {
        primary_label(self@)
    }

    fn get_name(&self) -> (r: String)
        ensures
            r@ == self.spec_name(),
    {
        match self {
            PrimaryStatement::Definition { decl: _, inner_statement: _ } => String::from_str("Def"),
            PrimaryStatement::Foreign(_) => String::from_str("Foreign"),
        }
    }
}

impl CreatesGraphviz for FuncDecl {
    open spec fn spec_name(&self) -> Seq<char> {
        self.name@
    }

    fn get_name(&self) -> (r: String)
        ensures
            r@ == self.spec_name(),
    {
        self.name.clone()
    }
}

// ---------------------------------------------------------------------------
// The graph of a tree.
// ---------------------------------------------------------------------------
/// The graph fragment a subtree contributes: its labelled nodes and directed
/// edges in visit order, and the next free visit index after it.
pub struct GvModel {
    pub labels: Seq<(Seq<char>, Seq<char>)>,
    pub edges: Seq<(Seq<char>, Seq<char>)>,
    pub next: nat,
}

/// The graph fragment of an expression tree whose root gets visit index `k`.
pub open spec fn gv_expr(e: ExprModel, k: nat) -> GvModel
    decreases e,
{
    match e {
        ExprModel::Node { left, op_type: _, next } => {
            let a = gv_expr(*left, k + 1);
            let b = gv_expr(*next, a.next);
            GvModel {
                labels: seq![(node_name(k), expr_label(e))] + a.labels + b.labels,
                edges: seq![(node_name(k), node_name(k + 1))] + a.edges + seq![
                    (node_name(k), node_name(a.next)),
                ] + b.edges,
                next: b.next,
            }
        },
        ExprModel::SubNode(inner) => {
            let a = gv_expr(*inner, k + 1);
            GvModel {
                labels: seq![(node_name(k), expr_label(e))] + a.labels,
                edges: seq![(node_name(k), node_name(k + 1))] + a.edges,
                next: a.next,
            }
        },
        ExprModel::Terminal(f) => match f {
            FactorModel::Id { id: _, optional_call } => match optional_call {
                Some(args) => {
                    let g = gv_args(args, k, k + 1);
                    GvModel {
                        labels: seq![(node_name(k), expr_label(e))] + g.labels,
                        edges: g.edges,
                        next: g.next,
                    }
                },
                None => GvModel {
                    labels: seq![(node_name(k), expr_label(e))],
                    edges: Seq::empty(),
                    next: k + 1,
                },
            },
            FactorModel::Numeric(_) => GvModel {
                labels: seq![(node_name(k), expr_label(e))],
                edges: Seq::empty(),
                next: k + 1,
            },
        },
    }
}

/// The graph fragment of a call's argument list: each argument's subtree in
/// order, with an edge from the calling node `parent` to each argument's
/// root.
pub open spec fn gv_args(args: Seq<ExprModel>, parent: nat, k: nat) -> GvModel
    decreases args,
{
    if args.len() == 0 {
        GvModel { labels: Seq::empty(), edges: Seq::empty(), next: k }
    } else {
        let a = gv_expr(args[0], k);
        let rest = gv_args(args.drop_first(), parent, a.next);
        GvModel {
            labels: a.labels + rest.labels,
            edges: seq![(node_name(parent), node_name(k))] + a.edges + rest.edges,
            next: rest.next,
        }
    }
}

/// The graph fragment of a statement tree whose root gets visit index `k`.
pub open spec fn gv_stmt(s: StatementModel, k: nat) -> GvModel
    decreases s,
{
    match s {
        StatementModel::Select { condition, statement, else_clause } => {
            let c = gv_expr(*condition, k + 1);
            let b = gv_stmt(*statement, c.next);
            match else_clause {
                Some(els) => {
                    let el = gv_stmt(*els, b.next);
                    GvModel {
                        labels: seq![(node_name(k), stmt_label(s))] + c.labels + b.labels
                            + el.labels,
                        edges: seq![(node_name(k), node_name(k + 1))] + c.edges + seq![
                            (node_name(k), node_name(c.next)),
                        ] + b.edges + seq![(node_name(k), node_name(b.next))] + el.edges,
                        next: el.next,
                    }
                },
                None => GvModel {
                    labels: seq![(node_name(k), stmt_label(s))] + c.labels + b.labels,
                    edges: seq![(node_name(k), node_name(k + 1))] + c.edges + seq![
                        (node_name(k), node_name(c.next)),
                    ] + b.edges,
                    next: b.next,
                },
            }
        },
        StatementModel::ReturnExpr(e) => {
            let a = gv_expr(*e, k + 1);
            GvModel {
                labels: seq![(node_name(k), stmt_label(s))] + a.labels,
                edges: seq![(node_name(k), node_name(k + 1))] + a.edges,
                next: a.next,
            }
        },
    }
}

/// The graph fragment of a parameter-name list: one leaf node per name, each
/// with an edge from the declaration node `parent`.
pub open spec fn gv_arg_names(names: Seq<Seq<char>>, parent: nat, k: nat) -> GvModel
    decreases names,
{
    if names.len() == 0 {
        GvModel { labels: Seq::empty(), edges: Seq::empty(), next: k }
    } else {
        let rest = gv_arg_names(names.drop_first(), parent, k + 1);
        GvModel {
            labels: seq![(node_name(k), names[0])] + rest.labels,
            edges: seq![(node_name(parent), node_name(k))] + rest.edges,
            next: rest.next,
        }
    }
}

/// The graph fragment of a function declaration: its name node and its
/// parameter names as leaves.
pub open spec fn gv_decl(d: FuncDeclModel, k: nat) -> GvModel {
    let args = gv_arg_names(d.args, k, k + 1);
    GvModel {
        labels: seq![(node_name(k), d.name)] + args.labels,
        edges: args.edges,
        next: args.next,
    }
}

/// The graph fragment of a top-level form whose root gets visit index `k`.
pub open spec fn gv_primary(p: PrimaryModel, k: nat) -> GvModel {
    match p {
        PrimaryModel::Definition { decl, inner_statement } => {
            let d = gv_decl(decl, k + 1);
            let b = gv_stmt(*inner_statement, d.next);
            GvModel {
                labels: seq![(node_name(k), primary_label(p))] + d.labels + b.labels,
                edges: seq![(node_name(k), node_name(k + 1))] + d.edges + seq![
                    (node_name(k), node_name(d.next)),
                ] + b.edges,
                next: b.next,
            }
        },
        PrimaryModel::Foreign(decl) => {
            let d = gv_decl(decl, k + 1);
            GvModel {
                labels: seq![(node_name(k), primary_label(p))] + d.labels,
                edges: seq![(node_name(k), node_name(k + 1))] + d.edges,
                next: d.next,
            }
        },
    }
}

/// A subtree's fragment ends past the index its root was given.
pub proof fn lemma_gv_expr_next(e: ExprModel, k: nat)
    ensures
        gv_expr(e, k).next > k,
    decreases e,
{
    match e {
        ExprModel::Node { left, op_type: _, next } => {
            lemma_gv_expr_next(*left, k + 1);
            lemma_gv_expr_next(*next, gv_expr(*left, k + 1).next);
        },
        ExprModel::SubNode(inner) => {
            lemma_gv_expr_next(*inner, k + 1);
        },
        ExprModel::Terminal(f) => match f {
            FactorModel::Id { id: _, optional_call } => match optional_call {
                Some(args) => {
                    lemma_gv_args_next(args, k, k + 1);
                },
                None => {},
            },
            FactorModel::Numeric(_) => {},
        },
    }
}

/// An argument list's fragment ends at or past where it starts.
pub proof fn lemma_gv_args_next(args: Seq<ExprModel>, parent: nat, k: nat)
    ensures
        gv_args(args, parent, k).next >= k,
    decreases args,
{
    if args.len() > 0 {
        lemma_gv_expr_next(args[0], k);
        lemma_gv_args_next(args.drop_first(), parent, gv_expr(args[0], k).next);
    }
}

/// A statement fragment ends past the index its root was given.
pub proof fn lemma_gv_stmt_next(s: StatementModel, k: nat)
    ensures
        gv_stmt(s, k).next > k,
    decreases s,
{
    match s {
        StatementModel::Select { condition, statement, else_clause } => {
            lemma_gv_expr_next(*condition, k + 1);
            let c = gv_expr(*condition, k + 1);
            lemma_gv_stmt_next(*statement, c.next);
            let b = gv_stmt(*statement, c.next);
            match else_clause {
                Some(els) => {
                    lemma_gv_stmt_next(*els, b.next);
                },
                None => {},
            }
        },
        StatementModel::ReturnExpr(e) => {
            lemma_gv_expr_next(*e, k + 1);
        },
    }
}

/// A parameter-name list's fragment advances by exactly one index per name.
pub proof fn lemma_gv_arg_names_next(names: Seq<Seq<char>>, parent: nat, k: nat)
    ensures
        gv_arg_names(names, parent, k).next == k + names.len(),
    decreases names,
{
    if names.len() > 0 {
        lemma_gv_arg_names_next(names.drop_first(), parent, k + 1);
    }
}

/// A declaration fragment ends past the index its root was given.
pub proof fn lemma_gv_decl_next(d: FuncDeclModel, k: nat)
    ensures
        gv_decl(d, k).next > k,
{
    lemma_gv_arg_names_next(d.args, k, k + 1);
}

/// A top-level fragment ends past the index its root was given.
pub proof fn lemma_gv_primary_next(p: PrimaryModel, k: nat)
    ensures
        gv_primary(p, k).next > k,
{
    match p {
        PrimaryModel::Definition { decl, inner_statement } => {
            lemma_gv_decl_next(decl, k + 1);
            lemma_gv_stmt_next(*inner_statement, gv_decl(decl, k + 1).next);
        },
        PrimaryModel::Foreign(decl) => {
            lemma_gv_decl_next(decl, k + 1);
        },
    }
}

/// A graph description: a mapping from node name to display label, and a list
/// of directed (source-name, target-name) edges.
#[derive(Debug)]
pub struct Graphviz {
    pub labels: Vec<(String, String)>,
    pub connections: Vec<(String, String)>,
}

impl Graphviz {
    /// The name-to-label pairs, as character sequences.
    pub open spec fn labels_view(self) -> Seq<(Seq<char>, Seq<char>)> {
        self.labels@.map_values(|p: (String, String)| (p.0@, p.1@))
    }

    /// The edges, as character sequences.
    pub open spec fn connections_view(self) -> Seq<(Seq<char>, Seq<char>)> {
        self.connections@.map_values(|p: (String, String)| (p.0@, p.1@))
    }
}

/// What a builder guarantees: on `Some(next)`, it appended exactly the
/// fragment `m` to the graph and `next` is the fragment's next free index; it
/// returns `None` exactly when the indices would not fit in `usize`.
pub open spec fn builds(old_gv: Graphviz, new_gv: Graphviz, r: Option<usize>, m: GvModel) -> bool {
    match r {
        Some(next) => {
            &&& m.next == next as nat
            &&& new_gv.labels_view() == old_gv.labels_view() + m.labels
            &&& new_gv.connections_view() == old_gv.connections_view() + m.edges
        },
        None => m.next > usize::MAX,
    }
}

/// Adds one labelled node.
fn push_label(gv: &mut Graphviz, name: String, label: String)
    ensures
        final(gv).labels_view() == old(gv).labels_view() + seq![(name@, label@)],
        final(gv).connections_view() == old(gv).connections_view(),
{
    let ghost n = name@;
    let ghost l = label@;
    gv.labels.push((name, label));
    proof {
        assert(gv.labels_view() =~= old(gv).labels_view() + seq![(n, l)]);
    }
}

/// Adds one directed edge.
fn push_edge(gv: &mut Graphviz, from: usize, to: usize)
    ensures
        final(gv).connections_view() == old(gv).connections_view() + seq![
            (node_name(from as nat), node_name(to as nat)),
        ],
        final(gv).labels_view() == old(gv).labels_view(),
{
    let from_name = node_name_string(from);
    let to_name = node_name_string(to);
    gv.connections.push((from_name, to_name));
    proof {
        assert(gv.connections_view() =~= old(gv).connections_view() + seq![
            (node_name(from as nat), node_name(to as nat)),
        ]);
    }
}

/// Visits an expression tree, appending its fragment, exactly as [`gv_expr`]
/// says.
#[verifier::loop_isolation(false)]
#[verifier::rlimit(100)]
fn gv_visit_expr(node: &AstExprNode, counter: usize, gv: &mut Graphviz) -> (r: Option<usize>)
    ensures
        builds(*old(gv), *final(gv), r, gv_expr(node.deep(), counter as nat)),
    decreases node,
{
    let ghost k = counter as nat;
    let ghost m = gv_expr(node.deep(), k);
    let name = node_name_string(counter);
    let label = node.get_name();
    push_label(gv, name, label);
    match node {
        AstExprNode::Node { left, op_type: _, next } => {
            let c1 = match counter.checked_add(1) {
                Some(c) => c,
                None => {
                    proof {
                        lemma_gv_expr_next(node.deep(), k);
                    }
                    return None;
                },
            };
            let ghost a = gv_expr(left.deep(), k + 1);
            let ghost b = gv_expr(next.deep(), a.next);
            push_edge(gv, counter, c1);
            let n1 = match gv_visit_expr(&**left, c1, gv) {
                Some(n) => n,
                None => {
                    proof {
                        lemma_gv_expr_next(next.deep(), a.next);
                    }
                    return None;
                },
            };
            push_edge(gv, counter, n1);
            let n2 = match gv_visit_expr(&**next, n1, gv) {
                Some(n) => n,
                None => {
                    return None;
                },
            };
            proof {
                assert(final(gv).labels_view() =~= old(gv).labels_view() + m.labels);
                assert(final(gv).connections_view() =~= old(gv).connections_view() + m.edges);
            }
            Some(n2)
        },
        AstExprNode::SubNode(inner) => {
            let c1 = match counter.checked_add(1) {
                Some(c) => c,
                None => {
                    proof {
                        lemma_gv_expr_next(node.deep(), k);
                    }
                    return None;
                },
            };
            push_edge(gv, counter, c1);
            let n1 = match gv_visit_expr(&**inner, c1, gv) {
                Some(n) => n,
                None => {
                    return None;
                },
            };
            proof {
                assert(final(gv).labels_view() =~= old(gv).labels_view() + m.labels);
                assert(final(gv).connections_view() =~= old(gv).connections_view() + m.edges);
            }
            Some(n1)
        },
        AstExprNode::Terminal(f) => {
            proof {
                assert(node.deep() == ExprModel::Terminal(f.deep()));
            }
            match f {
                Factor::Id { id: _, optional_call: Some(args) } => {
                    let c1 = match counter.checked_add(1) {
                        Some(c) => c,
                        None => {
                            proof {
                                lemma_gv_expr_next(node.deep(), k);
                            }
                            return None;
                        },
                    };
                    let ghost models = crate::parser::bin_op::exprs_deep(args@);
                    let ghost full = gv_args(models, k, k + 1);
                    let ghost after_label = *gv;
                    let mut i: usize = 0;
                    let mut cur: usize = c1;
                    proof {
                        assert(models.subrange(0, models.len() as int) =~= models);
                        crate::parser::bin_op::lemma_exprs_deep_len(args@);
                        assert forall|j: int| 0 <= j < models.len() implies models[j] == (
                        #[trigger] args@[j]).deep() by {
                            crate::parser::bin_op::lemma_exprs_deep_index(args@, j);
                        }
                    }
                    while i < args.len()
                        invariant
                            gv.labels_view() + gv_args(
                                models.subrange(i as int, models.len() as int),
                                k,
                                cur as nat,
                            ).labels == after_label.labels_view() + full.labels,
                            gv.connections_view() + gv_args(
                                models.subrange(i as int, models.len() as int),
                                k,
                                cur as nat,
                            ).edges == after_label.connections_view() + full.edges,
                            gv_args(
                                models.subrange(i as int, models.len() as int),
                                k,
                                cur as nat,
                            ).next == full.next,
                            0 <= i <= args.len(),
                            models.len() == args@.len(),
                            models == crate::parser::bin_op::exprs_deep(args@),
                            k == counter as nat,
                            k < cur as nat,
                            forall|j: int|
                                0 <= j < models.len() ==> models[j] == (
                                #[trigger] args@[j]).deep(),
                        decreases args.len() - i,
                    {
                        let ghost rem = models.subrange(i as int, models.len() as int);
                        proof {
                            crate::parser::bin_op::lemma_exprs_deep_index(args@, i as int);
                            assert(rem[0] == models[i as int]);
                            assert(rem.drop_first() =~= models.subrange(
                                i as int + 1,
                                models.len() as int,
                            ));
                        }
                        let ghost gv_top = *gv;
                        let ghost cur0 = cur as nat;
                        let ghost a = gv_expr(rem[0], cur0);
                        let ghost rest = gv_args(rem.drop_first(), k, a.next);
                        push_edge(gv, counter, cur);
                        let arg = &args[i];
                        let n = match gv_visit_expr(&**arg, cur, gv) {
                            Some(n) => n,
                            None => {
                                proof {
                                    lemma_gv_args_next(rem.drop_first(), k, a.next);
                                }
                                return None;
                            },
                        };
                        proof {
                            lemma_gv_expr_next(rem[0], cur0);
                            assert(gv.labels_view() + rest.labels =~= gv_top.labels_view() + (
                            a.labels + rest.labels));
                            assert(gv.connections_view() + rest.edges =~= gv_top.connections_view()
                                + (seq![(node_name(k), node_name(cur0))] + a.edges + rest.edges));
                        }
                        cur = n;
                        i = i + 1;
                    }
                    proof {
                        assert(models.subrange(i as int, models.len() as int)
                            =~= Seq::<ExprModel>::empty());
                        assert(final(gv).labels_view() =~= old(gv).labels_view() + m.labels);
                        assert(final(gv).connections_view() =~= old(gv).connections_view()
                            + m.edges);
                    }
                    Some(cur)
                },
                Factor::Id { id: _, optional_call: None } => {
                    let c1 = match counter.checked_add(1) {
                        Some(c) => c,
                        None => {
                            proof {
                                lemma_gv_expr_next(node.deep(), k);
                            }
                            return None;
                        },
                    };
                    proof {
                        assert(final(gv).labels_view() =~= old(gv).labels_view() + m.labels);
                        assert(final(gv).connections_view() =~= old(gv).connections_view()
                            + m.edges);
                    }
                    Some(c1)
                },
                Factor::Numeric(_) => {
                    let c1 = match counter.checked_add(1) {
                        Some(c) => c,
                        None => {
                            proof {
                                lemma_gv_expr_next(node.deep(), k);
                            }
                            return None;
                        },
                    };
                    proof {
                        assert(final(gv).labels_view() =~= old(gv).labels_view() + m.labels);
                        assert(final(gv).connections_view() =~= old(gv).connections_view()
                            + m.edges);
                    }
                    Some(c1)
                },
            }
        },
    }
}

/// Visits a statement tree, appending its fragment, exactly as [`gv_stmt`]
/// says.
#[verifier::loop_isolation(false)]
#[verifier::rlimit(100)]
fn gv_visit_stmt(node: &Statement, counter: usize, gv: &mut Graphviz) -> (r: Option<usize>)
    ensures
        builds(*old(gv), *final(gv), r, gv_stmt(node.deep(), counter as nat)),
    decreases node,
{
    let ghost k = counter as nat;
    let ghost m = gv_stmt(node.deep(), k);
    let name = node_name_string(counter);
    let label = node.get_name();
    push_label(gv, name, label);
    match node {
        Statement::Select { condition, statement, else_clause } => {
            let c1 = match counter.checked_add(1) {
                Some(c) => c,
                None => {
                    proof {
                        lemma_gv_stmt_next(node.deep(), k);
                    }
                    return None;
                },
            };
            let ghost c = gv_expr(condition.deep(), k + 1);
            let ghost b = gv_stmt(statement.deep(), c.next);
            push_edge(gv, counter, c1);
            let n1 = match gv_visit_expr(&**condition, c1, gv) {
                Some(n) => n,
                None => {
                    proof {
                        lemma_gv_stmt_next(statement.deep(), c.next);
                        if let Some(els) = else_clause {
                            lemma_gv_stmt_next(els.deep(), b.next);
                        }
                    }
                    return None;
                },
            };
            push_edge(gv, counter, n1);
            let n2 = match gv_visit_stmt(&**statement, n1, gv) {
                Some(n) => n,
                None => {
                    proof {
                        if let Some(els) = else_clause {
                            lemma_gv_stmt_next(els.deep(), b.next);
                        }
                    }
                    return None;
                },
            };
            match else_clause {
                Some(els) => {
                    push_edge(gv, counter, n2);
                    let n3 = match gv_visit_stmt(&**els, n2, gv) {
                        Some(n) => n,
                        None => {
                            return None;
                        },
                    };
                    proof {
                        assert(final(gv).labels_view() =~= old(gv).labels_view() + m.labels);
                        assert(final(gv).connections_view() =~= old(gv).connections_view()
                            + m.edges);
                    }
                    Some(n3)
                },
                None => {
                    proof {
                        assert(final(gv).labels_view() =~= old(gv).labels_view() + m.labels);
                        assert(final(gv).connections_view() =~= old(gv).connections_view()
                            + m.edges);
                    }
                    Some(n2)
                },
            }
        },
        Statement::ReturnExpr(e) => {
            let c1 = match counter.checked_add(1) {
                Some(c) => c,
                None => {
                    proof {
                        lemma_gv_stmt_next(node.deep(), k);
                    }
                    return None;
                },
            };
            push_edge(gv, counter, c1);
            let n1 = match gv_visit_expr(&**e, c1, gv) {
                Some(n) => n,
                None => {
                    return None;
                },
            };
            proof {
                assert(final(gv).labels_view() =~= old(gv).labels_view() + m.labels);
                assert(final(gv).connections_view() =~= old(gv).connections_view() + m.edges);
            }
            Some(n1)
        },
    }
}

/// Visits a function declaration, appending its fragment, exactly as
/// [`gv_decl`] says.
#[verifier::loop_isolation(false)]
#[verifier::rlimit(100)]
fn gv_visit_decl(node: &FuncDecl, counter: usize, gv: &mut Graphviz) -> (r: Option<usize>)
    ensures
        builds(*old(gv), *final(gv), r, gv_decl(node@, counter as nat)),
{
    let ghost k = counter as nat;
    let ghost m = gv_decl(node@, k);
    let ghost names = node@.args;
    let ghost full = gv_arg_names(names, k, k + 1);
    let name = node_name_string(counter);
    let label = node.get_name();
    push_label(gv, name, label);
    proof {
        lemma_gv_arg_names_next(names, k, k + 1);
    }
    let ghost after_label = *gv;
    let mut i: usize = 0;
    let mut cur: usize = match counter.checked_add(1) {
        Some(c) => c,
        None => {
            return None;
        },
    };
    proof {
        assert(names.subrange(0, names.len() as int) =~= names);
    }
    while i < node.args.len()
        invariant
            gv.labels_view() + gv_arg_names(
                names.subrange(i as int, names.len() as int),
                k,
                cur as nat,
            ).labels == after_label.labels_view() + full.labels,
            gv.connections_view() + gv_arg_names(
                names.subrange(i as int, names.len() as int),
                k,
                cur as nat,
            ).edges == after_label.connections_view() + full.edges,
            i <= node.args@.len(),
            cur as nat == k + 1 + i,
        decreases node.args@.len() - i,
    {
        let ghost rem = names.subrange(i as int, names.len() as int);
        let ghost gv_top = *gv;
        let ghost rest = gv_arg_names(rem.drop_first(), k, cur as nat + 1);
        proof {
            assert(rem[0] == names[i as int]);
            assert(rem.drop_first() =~= names.subrange(i as int + 1, names.len() as int));
        }
        push_edge(gv, counter, cur);
        let arg_name = node_name_string(cur);
        let arg_label = node.args[i].clone();
        push_label(gv, arg_name, arg_label);
        proof {
            assert(gv.labels_view() + rest.labels =~= gv_top.labels_view() + (seq![
                (node_name(cur as nat), rem[0]),
            ] + rest.labels));
            assert(gv.connections_view() + rest.edges =~= gv_top.connections_view() + (seq![
                (node_name(k), node_name(cur as nat)),
            ] + rest.edges));
        }
        let next_cur = match cur.checked_add(1) {
            Some(c) => c,
            None => {
                return None;
            },
        };
        cur = next_cur;
        i = i + 1;
    }
    proof {
        assert(names.subrange(i as int, names.len() as int) =~= Seq::<Seq<char>>::empty());
        assert(final(gv).labels_view() =~= old(gv).labels_view() + m.labels);
        assert(final(gv).connections_view() =~= old(gv).connections_view() + m.edges);
    }
    Some(cur)
}

/// Visits a top-level form, appending its fragment, exactly as [`gv_primary`]
/// says.
#[verifier::rlimit(100)]
fn gv_visit_primary(node: &PrimaryStatement, counter: usize, gv: &mut Graphviz) -> (r: Option<
    usize,
>)
    ensures
        builds(*old(gv), *final(gv), r, gv_primary(node@, counter as nat)),
{
    let ghost k = counter as nat;
    let ghost m = gv_primary(node@, k);
    let name = node_name_string(counter);
    let label = node.get_name();
    push_label(gv, name, label);
    match node {
        PrimaryStatement::Definition { decl, inner_statement } => {
            let c1 = match counter.checked_add(1) {
                Some(c) => c,
                None => {
                    proof {
                        lemma_gv_primary_next(node@, k);
                    }
                    return None;
                },
            };
            let ghost d = gv_decl(decl@, k + 1);
            push_edge(gv, counter, c1);
            let n1 = match gv_visit_decl(decl, c1, gv) {
                Some(n) => n,
                None => {
                    proof {
                        lemma_gv_stmt_next(inner_statement.deep(), d.next);
                    }
                    return None;
                },
            };
            push_edge(gv, counter, n1);
            let n2 = match gv_visit_stmt(&**inner_statement, n1, gv) {
                Some(n) => n,
                None => {
                    return None;
                },
            };
            proof {
                assert(final(gv).labels_view() =~= old(gv).labels_view() + m.labels);
                assert(final(gv).connections_view() =~= old(gv).connections_view() + m.edges);
            }
            Some(n2)
        },
        PrimaryStatement::Foreign(decl) => {
            let c1 = match counter.checked_add(1) {
                Some(c) => c,
                None => {
                    proof {
                        lemma_gv_primary_next(node@, k);
                    }
                    return None;
                },
            };
            push_edge(gv, counter, c1);
            let n1 = match gv_visit_decl(decl, c1, gv) {
                Some(n) => n,
                None => {
                    return None;
                },
            };
            proof {
                assert(final(gv).labels_view() =~= old(gv).labels_view() + m.labels);
                assert(final(gv).connections_view() =~= old(gv).connections_view() + m.edges);
            }
            Some(n1)
        },
    }
}

impl Graphviz {
    /// The graph description of a whole top-level form: every node of the
    /// tree labelled under a unique name `_k` in visit order, and one edge
    /// from each node to each of its children, exactly as [`gv_primary`] says
    /// of index 0. Returns `None` only when the tree has more nodes than
    /// `usize` can index.
    pub fn from_primary(node: &PrimaryStatement) -> (r: Option<Graphviz>)
        ensures
            match r {
                Some(gv) => {
                    &&& gv.labels_view() == gv_primary(node@, 0).labels
                    &&& gv.connections_view() == gv_primary(node@, 0).edges
                },
                None => gv_primary(node@, 0).next > usize::MAX,
            },
    {
        let mut gv = Graphviz { labels: Vec::new(), connections: Vec::new() };
        proof {
            assert(gv.labels_view() =~= Seq::<(Seq<char>, Seq<char>)>::empty());
            assert(gv.connections_view() =~= Seq::<(Seq<char>, Seq<char>)>::empty());
        }
        match gv_visit_primary(node, 0, &mut gv) {
            Some(_) => {
                proof {
                    assert(Seq::<(Seq<char>, Seq<char>)>::empty() + gv_primary(node@, 0).labels
                        =~= gv_primary(node@, 0).labels);
                    assert(Seq::<(Seq<char>, Seq<char>)>::empty() + gv_primary(node@, 0).edges
                        =~= gv_primary(node@, 0).edges);
                }
                Some(gv)
            },
            None => None,
        }
    }

    /// The graph description of a bare expression tree, exactly as
    /// [`gv_expr`] says of index 0.
    pub fn from_expression(node: &AstExprNode) -> (r: Option<Graphviz>)
        ensures
            match r {
                Some(gv) => {
                    &&& gv.labels_view() == gv_expr(node.deep(), 0).labels
                    &&& gv.connections_view() == gv_expr(node.deep(), 0).edges
                },
                None => gv_expr(node.deep(), 0).next > usize::MAX,
            },
    {
        let mut gv = Graphviz { labels: Vec::new(), connections: Vec::new() };
        proof {
            assert(gv.labels_view() =~= Seq::<(Seq<char>, Seq<char>)>::empty());
            assert(gv.connections_view() =~= Seq::<(Seq<char>, Seq<char>)>::empty());
        }
        match gv_visit_expr(node, 0, &mut gv) {
            Some(_) => {
                proof {
                    assert(Seq::<(Seq<char>, Seq<char>)>::empty() + gv_expr(node.deep(), 0).labels
                        =~= gv_expr(node.deep(), 0).labels);
                    assert(Seq::<(Seq<char>, Seq<char>)>::empty() + gv_expr(node.deep(), 0).edges
                        =~= gv_expr(node.deep(), 0).edges);
                }
                Some(gv)
            },
            None => None,
        }
    }
}

} // verus!

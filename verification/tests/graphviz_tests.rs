use kaleido::graphviz::CreatesGraphviz;
use kaleido::graphviz::Graphviz;
use kaleido::lexer::lex_string;
use kaleido::lexer::LexerToken;
use kaleido::parser::bin_op::expression;
use kaleido::parser::bin_op::AstExprNode;
use kaleido::parser::parser::parse_stream;
use kaleido::token_stream::TokenStream;

fn lex(s: &str) -> Vec<LexerToken> {
    lex_string(s.to_string()).expect("input should scan")
}

fn parse_expr(s: &str) -> Box<AstExprNode> {
    let tokens = lex(s);
    let mut stream = TokenStream::new(&tokens);
    expression(&mut stream).expect("input should parse as an expression")
}

fn pairs(v: &[(String, String)]) -> Vec<(&str, &str)> {
    v.iter().map(|p| (p.0.as_str(), p.1.as_str())).collect()
}

#[test]
fn a_sum_becomes_three_nodes_and_two_edges() {
    let node = parse_expr("1+2");
    let gv = Graphviz::from_expression(&node).expect("the tree is small");
    assert_eq!(
        pairs(&gv.labels),
        vec![("_0", "+"), ("_1", "1"), ("_2", "2")]
    );
    assert_eq!(pairs(&gv.connections), vec![("_0", "_1"), ("_0", "_2")]);
}

#[test]
fn names_count_in_visit_order_left_to_right() {
    let node = parse_expr("1+2*3");
    let gv = Graphviz::from_expression(&node).expect("the tree is small");
    assert_eq!(
        pairs(&gv.labels),
        vec![
            ("_0", "+"),
            ("_1", "1"),
            ("_2", "*"),
            ("_3", "2"),
            ("_4", "3")
        ]
    );
    assert_eq!(
        pairs(&gv.connections),
        vec![("_0", "_1"), ("_0", "_2"), ("_2", "_3"), ("_2", "_4")]
    );
}

#[test]
fn groupings_and_calls_are_labelled() {
    let node = parse_expr("(f(x))");
    let gv = Graphviz::from_expression(&node).expect("the tree is small");
    assert_eq!(
        pairs(&gv.labels),
        vec![("_0", "( )"), ("_1", "Call: f"), ("_2", "Id: x")]
    );
    assert_eq!(pairs(&gv.connections), vec![("_0", "_1"), ("_1", "_2")]);
}

#[test]
fn a_definition_graph_starts_at_its_def_node() {
    let tokens = lex("def add(x, y) return x + y");
    let p = parse_stream(&tokens).expect("the definition should parse");
    let gv = Graphviz::from_primary(&p).expect("the tree is small");
    assert_eq!(
        pairs(&gv.labels),
        vec![
            ("_0", "Def"),
            ("_1", "add"),
            ("_2", "x"),
            ("_3", "y"),
            ("_4", "return"),
            ("_5", "+"),
            ("_6", "Id: x"),
            ("_7", "Id: y")
        ]
    );
    assert_eq!(
        pairs(&gv.connections),
        vec![
            ("_0", "_1"),
            ("_1", "_2"),
            ("_1", "_3"),
            ("_0", "_4"),
            ("_4", "_5"),
            ("_5", "_6"),
            ("_5", "_7")
        ]
    );
}

#[test]
fn node_labels_describe_the_node() {
    let node = parse_expr("a < 2");
    assert_eq!(node.get_name(), "<");
    let leaf = parse_expr("a");
    assert_eq!(leaf.get_name(), "Id: a");
    let call = parse_expr("a()");
    assert_eq!(call.get_name(), "Call: a");
    let num = parse_expr("3.25");
    assert_eq!(num.get_name(), "3.25");
}

#[test]
fn zero_argument_call_has_no_edges() {
    let node = parse_expr("f()");
    let gv = Graphviz::from_expression(&node).expect("the tree is small");
    assert_eq!(pairs(&gv.labels), vec![("_0", "Call: f")]);
    assert!(gv.connections.is_empty());
}

#[test]
fn names_past_ten_keep_counting_in_decimal() {
    let node = parse_expr("1+2+3+4+5+6+7+8+9+10+11");
    let gv = Graphviz::from_expression(&node).expect("the tree is small");
    assert_eq!(gv.labels.len(), 21);
    assert_eq!(gv.labels[20].0, "_20");
    assert_eq!(gv.labels[20].1, "11");
}

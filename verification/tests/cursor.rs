use zgc::ast::ast_types::{ExprKind, Id, NodeKind, Operator, TokType, TypeNode};
use zgc::ast::lexer::tokenize_code;
use zgc::ast::tree::{tok_type_eq, Cursor, ParseErrorKind};

fn cursor(code: &str) -> Cursor {
    Cursor { stream: tokenize_code(code), pos: 0, node_id: Id(0) }
}

#[test]
fn next_and_peek_walk_the_stream() {
    let mut c = cursor("a + b");
    assert_eq!(c.peek(), Some(TokType::Ident("a".to_string())));
    assert_eq!(c.next(), Some(TokType::Ident("a".to_string())));
    assert_eq!(c.next(), Some(TokType::Op(Operator::Add)));
    assert_eq!(c.pos, 2);
    assert_eq!(c.last_idx().start, 2);
}

#[test]
fn reading_past_the_end_gives_none() {
    let mut c = cursor("a");
    c.pos = 3;
    assert_eq!(c.peek(), None);
    assert_eq!(c.next(), None);
    assert_eq!(c.pos, 4);
    // The last token stands for positions past the end.
    assert_eq!(c.last_idx(), c.stream[2].index);
}

#[test]
fn expect_checks_the_next_token() {
    let mut c = cursor("( x");
    assert!(c.expect(TokType::LBrack).is_ok());
    let e = c.expect(TokType::RBrack).unwrap_err();
    assert_eq!(e.err, ParseErrorKind::InvalidSyntax { found: Some(TokType::Ident("x".to_string())) });
    assert_eq!(e.span, c.stream[1].index);
}

#[test]
fn expect_else_uses_the_given_error() {
    let mut c = cursor("x");
    let e = c.expect_else(TokType::Colon, |t| ParseErrorKind::BadType { found: t }).unwrap_err();
    assert_eq!(e.err, ParseErrorKind::BadType { found: Some(TokType::Ident("x".to_string())) });
}

#[test]
fn expect_ident_returns_the_name() {
    let mut c = cursor("name 3");
    assert_eq!(c.expect_ident().unwrap(), "name");
    assert!(c.expect_ident().is_err());
    let mut c = cursor("3");
    let e = c.expect_ident_else(|_| ParseErrorKind::VarNoName).unwrap_err();
    assert_eq!(e.err, ParseErrorKind::VarNoName);
}

#[test]
fn new_ids_count_up() {
    let mut c = cursor("a");
    assert_eq!(c.new_id(), Id(1));
    assert_eq!(c.new_id(), Id(2));
    assert_eq!(c.node_id, Id(2));
}

#[test]
fn token_kind_equality() {
    assert!(tok_type_eq(&TokType::Num("1".to_string()), &TokType::Num("1".to_string())));
    assert!(!tok_type_eq(&TokType::Num("1".to_string()), &TokType::Float("1".to_string())));
    assert!(!tok_type_eq(&TokType::Op(Operator::Add), &TokType::Op(Operator::Sub)));
}

#[test]
fn new_nodes_take_the_last_token_read() {
    let mut c = cursor("a b");
    c.next();
    c.next();
    let n = c.new_node(NodeKind::Type { name: TypeNode::Infer });
    assert_eq!(n.id, Id(1));
    assert_eq!((n.span.start, n.span.end), (2, 3));
    let e = c.new_expr(ExprKind::Break);
    assert_eq!(e.id, Id(2));
    assert_eq!((e.span.start, e.span.end), (2, 3));
}

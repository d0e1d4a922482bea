use exprparse::ast::{Expr, Identifier, Infix, InfixOp, Integer, Stmt};
use exprparse::lexer::scan;
use exprparse::parser::{parse, ParseError, Parser};
use exprparse::token::{IntBase, TokenKind};

fn id(name: &str) -> Expr<'_> {
    Identifier::new(name).upcast()
}

fn infix<'a>(op: InfixOp, lhs: Expr<'a>, rhs: Expr<'a>) -> Expr<'a> {
    Infix::new(lhs, rhs, op).upcast()
}

#[test]
fn multiplication_binds_tighter() {
    let expected = infix(InfixOp::Add, id("a"), infix(InfixOp::Mul, id("b"), id("c"))).upcast();
    assert_eq!(parse("a + b * c;"), Ok(expected));
}

#[test]
fn subtraction_is_left_associative() {
    let expected = infix(InfixOp::Sub, infix(InfixOp::Sub, id("a"), id("b")), id("c")).upcast();
    assert_eq!(parse("a - b - c;"), Ok(expected));
}

#[test]
fn mixed_levels_group_left() {
    let expected = infix(
        InfixOp::Add,
        infix(InfixOp::Sub, id("a"), infix(InfixOp::Div, id("b"), id("c"))),
        infix(InfixOp::Mul, id("d"), id("e")),
    )
    .upcast();
    assert_eq!(parse("a - b / c + d * e;"), Ok(expected));
}

#[test]
fn single_identifier_statement() {
    assert_eq!(parse("x;"), Ok(Stmt::Expr(id("x"))));
}

#[test]
fn missing_terminator() {
    assert_eq!(parse("a"), Err(ParseError::MissingTerminator));
    assert_eq!(parse("a + b"), Err(ParseError::MissingTerminator));
    assert_eq!(parse("a b;"), Err(ParseError::MissingTerminator));
}

#[test]
fn leading_operator_is_unexpected() {
    assert_eq!(parse("+ a;"), Err(ParseError::UnexpectedToken(Some(TokenKind::Plus))));
}

#[test]
fn unexpected_tokens_are_named() {
    assert_eq!(parse(""), Err(ParseError::UnexpectedToken(None)));
    assert_eq!(parse("a *"), Err(ParseError::UnexpectedToken(None)));
    assert_eq!(parse("a * ;"), Err(ParseError::UnexpectedToken(Some(TokenKind::Semicolon))));
    assert_eq!(
        parse("1;"),
        Err(ParseError::UnexpectedToken(Some(TokenKind::Integer(IntBase::Decimal))))
    );
    assert_eq!(parse("a + @;"), Err(ParseError::UnexpectedToken(Some(TokenKind::Invalid))));
}

#[test]
fn parser_over_scanned_tokens() {
    let tokens = scan("a * b; c;");
    let mut parser = Parser::new(tokens);
    let first = parser.parse_stmt();
    assert_eq!(first, Ok(infix(InfixOp::Mul, id("a"), id("b")).upcast()));
    assert_eq!(parser.parse_stmt(), Ok(id("c").upcast()));
    assert_eq!(parser.parse_stmt(), Err(ParseError::UnexpectedToken(None)));
}

#[test]
fn integer_nodes() {
    let a = Integer::new(42).upcast();
    let b = Integer::new(42).upcast();
    assert_eq!(a, b);
    assert_ne!(Integer::new(1).upcast(), id("x"));
}

#[test]
fn cloned_statement_is_equal() {
    let stmt = parse("a + b * c;").unwrap();
    let copy = stmt.clone();
    assert_eq!(stmt, copy);
    let e = infix(InfixOp::Div, id("p"), id("q"));
    assert_eq!(e.clone(), e);
}

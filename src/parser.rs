use vstd::prelude::*;
use crate::ast::{Expr, ExprModel, Identifier, Infix, InfixOp, Stmt};
use crate::cursor::MorePeekableIter;
use crate::lexer::{scan, tokens_of};
use crate::token::{Token, TokenKind};

verus! {

/// Why a statement could not be parsed.
#[derive(Clone, Copy, Debug, PartialEq, Eq, Structural)]
pub enum ParseError {
    /// A primary expression was needed; the token found there has this
    /// kind, or there was none.
    UnexpectedToken(Option<TokenKind>),
    /// The expression was not followed by `;`.
    MissingTerminator,
}

/// What a parse from a token position yields: an expression and the
/// position after it, or the error.
pub type Parsed = Result<(ExprModel, int), ParseError>;

/// The kind of token `i`, if there is one.
pub open spec fn kind_at(ts: Seq<Token>, i: int) -> Option<TokenKind> {
    if 0 <= i < ts.len() {
        Some(ts[i].kind)
    } else {
        None
    }
}

/// The additive operator a token kind stands for.
pub open spec fn additive_op(k: Option<TokenKind>) -> Option<InfixOp> {
    match k {
        Some(TokenKind::Plus) => Some(InfixOp::Add),
        Some(TokenKind::Minus) => Some(InfixOp::Sub),
        _ => None,
    }
}

/// The multiplicative operator a token kind stands for.
pub open spec fn multiplicative_op(k: Option<TokenKind>) -> Option<InfixOp> {
    match k {
        Some(TokenKind::Star) => Some(InfixOp::Mul),
        Some(TokenKind::Slash) => Some(InfixOp::Div),
        _ => None,
    }
}

/// `primary → Identifier`
pub open spec fn primary(ts: Seq<Token>, i: int) -> Parsed {
    if kind_at(ts, i) == Some(TokenKind::Identifier) {
        Ok((ExprModel::Identifier(ts[i].span.text()), i + 1))
    } else {
        Err(ParseError::UnexpectedToken(kind_at(ts, i)))
    }
}

/// `( ('*' | '/') primary )*` after `lhs`, folded to the left.
pub open spec fn multiplicative_rest(ts: Seq<Token>, i: int, lhs: ExprModel) -> Parsed
    decreases ts.len() - i,
{
    match multiplicative_op(kind_at(ts, i)) {
        None => Ok((lhs, i)),
        Some(op) => match primary(ts, i + 1) {
            Err(e) => Err(e),
            Ok((rhs, j)) => multiplicative_rest(
                ts,
                j,
                ExprModel::Infix(op, Box::new(lhs), Box::new(rhs)),
            ),
        },
    }
}

/// `multiplicative → primary ( ('*' | '/') primary )*`
pub open spec fn multiplicative(ts: Seq<Token>, i: int) -> Parsed {
    match primary(ts, i) {
        Err(e) => Err(e),
        Ok((lhs, j)) => multiplicative_rest(ts, j, lhs),
    }
}

/// `( ('+' | '-') multiplicative )*` after `lhs`, folded to the left.
pub open spec fn additive_rest(ts: Seq<Token>, i: int, lhs: ExprModel) -> Parsed
    decreases ts.len() - i,
{
    match additive_op(kind_at(ts, i)) {
        None => Ok((lhs, i)),
        Some(op) => match multiplicative(ts, i + 1) {
            Err(e) => Err(e),
            Ok((rhs, j)) => if i < j <= ts.len() {
                additive_rest(ts, j, ExprModel::Infix(op, Box::new(lhs), Box::new(rhs)))
            } else {
                Ok((lhs, i))
            },
        },
    }
}

/// `expression → multiplicative ( ('+' | '-') multiplicative )*`
pub open spec fn expression(ts: Seq<Token>, i: int) -> Parsed {
    match multiplicative(ts, i) {
        Err(e) => Err(e),
        Ok((lhs, j)) => additive_rest(ts, j, lhs),
    }
}

/// `statement → expression ';'`: the expression and the position after the
/// `;`.
pub open spec fn statement(ts: Seq<Token>, i: int) -> Parsed {
    match expression(ts, i) {
        Err(e) => Err(e),
        Ok((e, j)) => if kind_at(ts, j) == Some(TokenKind::Semicolon) {
            Ok((e, j + 1))
        } else {
            Err(ParseError::MissingTerminator)
        },
    }
}

/// The statement parsed from all of `ts`.
pub open spec fn parse_tokens(ts: Seq<Token>) -> Result<ExprModel, ParseError> {
    match statement(ts, 0) {
        Ok((e, _)) => Ok(e),
        Err(e) => Err(e),
    }
}

proof fn lemma_multiplicative_rest_advances(ts: Seq<Token>, i: int, lhs: ExprModel)
    requires
        0 <= i <= ts.len(),
    ensures
        multiplicative_rest(ts, i, lhs) matches Ok((_, j)) ==> i <= j <= ts.len(),
    decreases ts.len() - i,
{
    if let Some(op) = multiplicative_op(kind_at(ts, i)) {
        if let Ok((rhs, j)) = primary(ts, i + 1) {
            lemma_multiplicative_rest_advances(
                ts,
                j,
                ExprModel::Infix(op, Box::new(lhs), Box::new(rhs)),
            );
        }
    }
}

proof fn lemma_multiplicative_advances(ts: Seq<Token>, i: int)
    requires
        0 <= i <= ts.len(),
    ensures
        multiplicative(ts, i) matches Ok((_, j)) ==> i < j <= ts.len(),
{
    if let Ok((lhs, j)) = primary(ts, i) {
        lemma_multiplicative_rest_advances(ts, j, lhs);
    }
}

/// The expression an exec result holds, beside what a parse yields.
pub open spec fn agrees(r: Result<Expr, ParseError>, m: Parsed, pos: int) -> bool {
    match (r, m) {
        (Ok(e), Ok((em, j))) => e.view() == em && pos == j,
        (Err(e1), Err(e2)) => e1 == e2,
        _ => false,
    }
}

/// A recursive-descent parser over a sequence of tokens.
pub struct Parser<'a> {
    iter: MorePeekableIter<Token<'a>>,
}

impl<'a> Parser<'a> {
    /// The tokens the parser reads.
    pub closed spec fn tokens(&self) -> Seq<Token<'a>> {
        self.iter.source()
    }

    /// How many tokens have been consumed.
    pub closed spec fn pos(&self) -> int {
        self.iter.index()
    }

    /// Every token's span points into its text.
    pub closed spec fn wf(&self) -> bool {
        &&& self.iter.wf()
        &&& 0 <= self.iter.index() <= self.iter.source().len()
        &&& forall|i: int|
            0 <= i < self.iter.source().len() ==> (#[trigger] self.iter.source()[i]).span.wf()
    }

    /// A parser at the first of `tokens`.
    pub fn new(tokens: Vec<Token<'a>>) -> (r: Parser<'a>)
        requires
            forall|i: int| 0 <= i < tokens@.len() ==> (#[trigger] tokens@[i]).span.wf(),
        ensures
            r.wf(),
            r.tokens() == tokens@,
            r.pos() == 0,
    {
        Parser { iter: MorePeekableIter::new(tokens) }
    }

    fn peek_curr(&self) -> (r: Option<&Token<'a>>)
        requires
            self.wf(),
        ensures
            r is Some <==> 0 <= self.pos() < self.tokens().len(),
            r is Some ==> *r->0 == self.tokens()[self.pos()],
    {
        self.iter.peek_curr()
    }

    /// The kind of the current token, if there is one.
    fn curr_kind(&self) -> (r: Option<TokenKind>)
        requires
            self.wf(),
        ensures
            r == kind_at(self.tokens(), self.pos()),
    {
        match self.peek_curr() {
            Some(t) => Some(t.kind),
            None => None,
        }
    }

    /// Consumes the current token.
    fn next(&mut self)
        requires
            old(self).wf(),
            old(self).pos() < old(self).tokens().len(),
        ensures
            final(self).wf(),
            final(self).tokens() == old(self).tokens(),
            final(self).pos() == old(self).pos() + 1,
    {
        self.iter.next();
    }

    /// Parses one statement: an expression followed by `;`.
    pub fn parse_stmt(&mut self) -> (r: Result<Stmt<'a>, ParseError>)
        requires
            old(self).wf(),
        ensures
            final(self).wf(),
            final(self).tokens() == old(self).tokens(),
            match (r, statement(old(self).tokens(), old(self).pos())) {
                (Ok(s), Ok((e, j))) => s.view() == e && final(self).pos() == j,
                (Err(e1), Err(e2)) => e1 == e2,
                _ => false,
            },
    {
        self.parse_stmt_expr()
    }

    fn parse_stmt_expr(&mut self) -> (r: Result<Stmt<'a>, ParseError>)
        requires
            old(self).wf(),
        ensures
            final(self).wf(),
            final(self).tokens() == old(self).tokens(),
            match (r, statement(old(self).tokens(), old(self).pos())) {
                (Ok(s), Ok((e, j))) => s.view() == e && final(self).pos() == j,
                (Err(e1), Err(e2)) => e1 == e2,
                _ => false,
            },
    {
        let expr = match self.parse_expr() {
            Ok(e) => e,
            Err(e) => return Err(e),
        };
        if self.curr_kind() == Some(TokenKind::Semicolon) {
            self.next();
            Ok(expr.upcast())
        } else {
            Err(ParseError::MissingTerminator)
        }
    }

    fn parse_expr(&mut self) -> (r: Result<Expr<'a>, ParseError>)
        requires
            old(self).wf(),
        ensures
            final(self).wf(),
            final(self).tokens() == old(self).tokens(),
            agrees(r, expression(old(self).tokens(), old(self).pos()), final(self).pos()),
    {
        self.parse_expr_addition()
    }

    fn parse_expr_addition(&mut self) -> (r: Result<Expr<'a>, ParseError>)
        requires
            old(self).wf(),
        ensures
            final(self).wf(),
            final(self).tokens() == old(self).tokens(),
            agrees(r, expression(old(self).tokens(), old(self).pos()), final(self).pos()),
    {
        let ghost ts = self.tokens();
        let ghost start = self.pos();
        let mut lhs = match self.parse_expr_multiplication() {
            Ok(e) => e,
            Err(e) => return Err(e),
        };
        loop
            invariant
                self.wf(),
                self.tokens() == ts,
                ts == old(self).tokens(),
                start == old(self).pos(),
                expression(ts, start) == additive_rest(ts, self.pos(), lhs.view()),
            ensures
                self.wf(),
                self.tokens() == ts,
                expression(ts, start) == Ok::<(ExprModel, int), ParseError>((lhs.view(), self.pos())),
            decreases ts.len() - self.pos(),
        {
            let ghost p = self.pos();
            let op = match self.curr_kind() {
                Some(TokenKind::Plus) => InfixOp::Add,
                Some(TokenKind::Minus) => InfixOp::Sub,
                _ => break,
            };
            self.next();
            proof { lemma_multiplicative_advances(ts, p + 1); }
            let rhs = match self.parse_expr_multiplication() {
                Ok(e) => e,
                Err(e) => return Err(e),
            };
            lhs = Infix::new(lhs, rhs, op).upcast();
        }
        Ok(lhs)
    }

    fn parse_expr_multiplication(&mut self) -> (r: Result<Expr<'a>, ParseError>)
        requires
            old(self).wf(),
        ensures
            final(self).wf(),
            final(self).tokens() == old(self).tokens(),
            agrees(r, multiplicative(old(self).tokens(), old(self).pos()), final(self).pos()),
    {
        let ghost ts = self.tokens();
        let ghost start = self.pos();
        let mut lhs = match self.parse_expr_primary() {
            Ok(e) => e,
            Err(e) => return Err(e),
        };
        loop
            invariant
                self.wf(),
                self.tokens() == ts,
                ts == old(self).tokens(),
                start == old(self).pos(),
                multiplicative(ts, start) == multiplicative_rest(ts, self.pos(), lhs.view()),
            ensures
                self.wf(),
                self.tokens() == ts,
                multiplicative(ts, start) == Ok::<(ExprModel, int), ParseError>((lhs.view(), self.pos())),
            decreases ts.len() - self.pos(),
        {
            let op = match self.curr_kind() {
                Some(TokenKind::Star) => InfixOp::Mul,
                Some(TokenKind::Slash) => InfixOp::Div,
                _ => break,
            };
            self.next();
            let rhs = match self.parse_expr_primary() {
                Ok(e) => e,
                Err(e) => return Err(e),
            };
            lhs = Infix::new(lhs, rhs, op).upcast();
        }
        Ok(lhs)
    }

    fn parse_expr_primary(&mut self) -> (r: Result<Expr<'a>, ParseError>)
        requires
            old(self).wf(),
        ensures
            final(self).wf(),
            final(self).tokens() == old(self).tokens(),
            agrees(r, primary(old(self).tokens(), old(self).pos()), final(self).pos()),
            r is Err ==> final(self).pos() == old(self).pos(),
    {
        match self.curr_kind() {
            Some(TokenKind::Identifier) => Ok(self.parse_expr_identifier().upcast()),
            kind => Err(ParseError::UnexpectedToken(kind)),
        }
    }

    fn parse_expr_identifier(&mut self) -> (r: Identifier<'a>)
        requires
            old(self).wf(),
            old(self).pos() < old(self).tokens().len(),
        ensures
            final(self).wf(),
            final(self).tokens() == old(self).tokens(),
            final(self).pos() == old(self).pos() + 1,
            r.view() == old(self).tokens()[old(self).pos()].span.text(),
    {
        let name = match self.peek_curr() {
            Some(t) => t.span.as_str(),
            None => "",
        };
        self.next();
        Identifier::new(name)
    }
}

/// Scans `input` and parses one statement from its tokens.
pub fn parse(input: &str) -> (r: Result<Stmt<'_>, ParseError>)
    ensures
        match (r, parse_tokens(tokens_of(input, 0))) {
            (Ok(s), Ok(e)) => s.view() == e,
            (Err(e1), Err(e2)) => e1 == e2,
            _ => false,
        },
{
    let tokens = scan(input);
    let mut parser = Parser::new(tokens);
    parser.parse_stmt()
}

} // verus!

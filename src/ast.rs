use vstd::prelude::*;
use crate::token::bytes_of;

verus! {

/// A statement.
#[derive(Debug, PartialEq, Eq, PartialOrd, Ord)]
pub enum Stmt<'a> {
    /// An expression followed by `;`.
    Expr(Expr<'a>),
}

/// An expression.
#[derive(Debug, PartialEq, Eq, PartialOrd, Ord)]
pub enum Expr<'a> {
    Integer(Integer),
    Identifier(Identifier<'a>),
    Infix(Infix<'a>),
}

/// An integer literal's value.
#[derive(Clone, Copy, Debug, PartialEq, Eq, PartialOrd, Ord)]
pub struct Integer {
    value: u64,
}

/// A name.
#[derive(Clone, Copy, Debug, PartialEq, Eq, PartialOrd, Ord)]
pub struct Identifier<'a> {
    name: &'a str,
}

/// A binary operation; it owns both operands.
#[derive(Debug, PartialEq, Eq, PartialOrd, Ord)]
pub struct Infix<'a> {
    lhs: Box<Expr<'a>>,
    rhs: Box<Expr<'a>>,
    op: InfixOp,
}

/// A binary operator.
#[derive(Clone, Copy, Debug, PartialEq, Eq, PartialOrd, Ord)]
pub enum InfixOp {
    /// `+`
    Add,
    /// `-`
    Sub,
    /// `*`
    Mul,
    /// `/`
    Div,
}

/// What an expression denotes as a tree: names as their bytes.
pub enum ExprModel {
    Integer(u64),
    Identifier(Seq<u8>),
    Infix(InfixOp, Box<ExprModel>, Box<ExprModel>),
}

impl<'a> Clone for Expr<'a> {
    fn clone(&self) -> (r: Self)
        ensures
            r.view() == self.view(),
        decreases self,
    {
        match self {
            Expr::Integer(i) => Expr::Integer(*i),
            Expr::Identifier(id) => Expr::Identifier(*id),
            Expr::Infix(inf) => {
                let lhs: &Expr<'a> = &inf.lhs;
                let rhs: &Expr<'a> = &inf.rhs;
                Expr::Infix(Infix { lhs: Box::new(lhs.clone()), rhs: Box::new(rhs.clone()), op: inf.op })
            },
        }
    }
}

impl<'a> Clone for Infix<'a> {
    fn clone(&self) -> (r: Self)
        ensures
            r.view() == self.view(),
    {
        let lhs: &Expr<'a> = &self.lhs;
        let rhs: &Expr<'a> = &self.rhs;
        Infix { lhs: Box::new(lhs.clone()), rhs: Box::new(rhs.clone()), op: self.op }
    }
}

impl<'a> Clone for Stmt<'a> {
    fn clone(&self) -> (r: Self)
        ensures
            r.view() == self.view(),
    {
        match self {
            Stmt::Expr(e) => Stmt::Expr(e.clone()),
        }
    }
}

impl<'a> Stmt<'a> {
    /// The expression the statement holds.
    pub open spec fn view(&self) -> ExprModel {
        match self {
            Stmt::Expr(e) => e.view(),
        }
    }
}

impl<'a> Expr<'a> {
    pub closed spec fn view(&self) -> ExprModel
        decreases self,
    {
        match self {
            Expr::Integer(i) => ExprModel::Integer(i.value),
            Expr::Identifier(id) => ExprModel::Identifier(bytes_of(id.name)),
            Expr::Infix(inf) => ExprModel::Infix(
                inf.op,
                Box::new(inf.lhs.view()),
                Box::new(inf.rhs.view()),
            ),
        }
    }

    /// The statement made of this expression.
    pub fn upcast(self) -> (r: Stmt<'a>)
        ensures
            r.view() == self.view(),
    {
        Stmt::Expr(self)
    }
}

impl Integer {
    pub closed spec fn view(&self) -> u64 {
        self.value
    }

    pub fn new(value: u64) -> (r: Integer)
        ensures
            r.view() == value,
    {
        Integer { value }
    }

    /// The expression made of this literal.
    pub fn upcast<'a>(self) -> (r: Expr<'a>)
        ensures
            r.view() == ExprModel::Integer(self.view()),
    {
        Expr::Integer(self)
    }
}

impl<'a> Identifier<'a> {
    /// The bytes of the name.
    pub closed spec fn view(&self) -> Seq<u8> {
        bytes_of(self.name)
    }

    pub fn new(name: &'a str) -> (r: Identifier<'a>)
        ensures
            r.view() == bytes_of(name),
    {
        Identifier { name }
    }

    /// The expression made of this name.
    pub fn upcast(self) -> (r: Expr<'a>)
        ensures
            r.view() == ExprModel::Identifier(self.view()),
    {
        Expr::Identifier(self)
    }
}

impl<'a> Infix<'a> {
    pub closed spec fn view(&self) -> ExprModel {
        ExprModel::Infix(self.op, Box::new(self.lhs.view()), Box::new(self.rhs.view()))
    }

    pub fn new(lhs: Expr<'a>, rhs: Expr<'a>, op: InfixOp) -> (r: Infix<'a>)
        ensures
            r.view() == ExprModel::Infix(op, Box::new(lhs.view()), Box::new(rhs.view())),
    {
        Infix { lhs: Box::new(lhs), rhs: Box::new(rhs), op }
    }

    /// The expression made of this operation.
    pub fn upcast(self) -> (r: Expr<'a>)
        ensures
            r.view() == self.view(),
    {
        Expr::Infix(self)
    }
}

} // verus!

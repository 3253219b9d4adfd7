//! The syntax tree built by the parser and walked by the evaluator.
use vstd::prelude::*;
use crate::token::{Tok, Token};

verus! {

/// Any node of the tree.
#[derive(Debug, PartialEq, Eq)]
pub enum Node {
    Program(Box<Program>),
    Statement(Box<Statement>),
    Expression(Box<Expression>),
}

#[derive(Debug, PartialEq, Eq)]
pub enum Statement {
    Let(Box<LetStatement>),
    Expression(Box<ExpressionStatement>),
}

#[derive(Debug, Eq, PartialEq)]
pub enum Expression {
    Identifier(String),
    Integer(i64),
    Prefix(Box<PrefixExpression>),
    Infix(Box<InfixExpression>),
}

/// A sequence of statements, in source order.
#[derive(Debug, PartialEq, Eq)]
pub struct Program {
    pub statements: Vec<Statement>,
}

#[derive(Debug, PartialEq, Eq)]
pub struct LetStatement {
    pub name: String,
    pub value: Expression,
}

#[derive(Debug, PartialEq, Eq)]
pub struct ExpressionStatement {
    pub expression: Expression,
}

#[derive(Debug, Eq, PartialEq)]
pub struct InfixExpression {
    pub operator: Token,
    pub left: Expression,
    pub right: Expression,
}

#[derive(Debug, Eq, PartialEq)]
pub struct PrefixExpression {
    pub operator: Token,
    pub right: Expression,
}

/// The mathematical model of an [`Expression`].
pub enum Expr {
    Identifier(Seq<char>),
    Integer(i64),
    Prefix(Tok, Box<Expr>),
    Infix(Tok, Box<Expr>, Box<Expr>),
}

/// The mathematical model of a [`Statement`].
pub enum Stmt {
    Let(Seq<char>, Expr),
    Expression(Expr),
}

/// The mathematical model of a [`Node`].
pub enum AstNode {
    Program(Seq<Stmt>),
    Statement(Stmt),
    Expression(Expr),
}

pub open spec fn expr_model(e: Expression) -> Expr
    decreases e,
{
    match e {
        Expression::Identifier(name) => Expr::Identifier(name@),
        Expression::Integer(v) => Expr::Integer(v),
        Expression::Prefix(p) => Expr::Prefix(p.operator@, Box::new(expr_model(p.right))),
        Expression::Infix(i) => Expr::Infix(
            i.operator@,
            Box::new(expr_model(i.left)),
            Box::new(expr_model(i.right)),
        ),
    }
}

impl View for Expression {
    type V = Expr;

    open spec fn view(&self) -> Expr {
        expr_model(*self)
    }
}

impl View for Statement {
    type V = Stmt;

    open spec fn view(&self) -> Stmt {
        match self {
            Statement::Let(l) => Stmt::Let(l.name@, l.value@),
            Statement::Expression(e) => Stmt::Expression(e.expression@),
        }
    }
}

/// The models of a sequence of statements.
pub open spec fn stmts_model(v: Seq<Statement>) -> Seq<Stmt> {
    v.map_values(|s: Statement| s@)
}

impl View for Program {
    type V = Seq<Stmt>;

    open spec fn view(&self) -> Seq<Stmt> {
        stmts_model(self.statements@)
    }
}

impl View for Node {
    type V = AstNode;

    open spec fn view(&self) -> AstNode {
        match self {
            Node::Program(p) => AstNode::Program(p@),
            Node::Statement(s) => AstNode::Statement(s@),
            Node::Expression(e) => AstNode::Expression(e@),
        }
    }
}

impl Program {
    /// A program with no statements.
    pub fn new() -> (r: Program)
        ensures
            r@ == Seq::<Stmt>::empty(),
    {
        let r = Program { statements: Vec::new() };
        proof {
            assert(r@ =~= Seq::<Stmt>::empty());
        }
        r
    }
}

} // verus!

//! Reduces a syntax tree to a value.
use vstd::prelude::*;
use vstd::string::*;
use crate::ast::{
    AstNode, Expr, Expression, InfixExpression, Node, PrefixExpression, Program, Statement, Stmt,
};
use crate::object::Object;
use crate::token::{Tok, Token};

verus! {

/// Why evaluation stopped.
#[derive(Debug)]
pub struct EvalError {
    pub message: String,
}

pub type EvalResult = Result<Object, EvalError>;

/// The outcome of evaluation: a value, or the message of the first failure.
pub type Outcome = Result<Object, Seq<char>>;

pub open spec fn identifier_msg() -> Seq<char> {
    "evaluating an identifier is unsupported"@
}

pub open spec fn let_msg() -> Seq<char> {
    "evaluating a let statement is unsupported"@
}

pub open spec fn overflow_msg() -> Seq<char> {
    "integer overflow"@
}

pub open spec fn prefix_msg() -> Seq<char> {
    "unsupported prefix operator"@
}

pub open spec fn infix_msg() -> Seq<char> {
    "unsupported infix operator"@
}

/// An integer result, or an overflow failure where it leaves the range of `i64`.
pub open spec fn int_result(v: int) -> Outcome {
    if i64::MIN <= v <= i64::MAX {
        Ok(Object::Int(v as i64))
    } else {
        Err(overflow_msg())
    }
}

/// The value of an expression. An operand is evaluated before its operator
/// is looked at, the left operand before the right, and the first failure
/// is the result. Only `-` is a prefix operator and only `+` and `-` are
/// infix operators here; arithmetic that leaves `i64` fails.
pub open spec fn eval_expr(e: Expr) -> Outcome
    decreases e,
{
    match e {
        Expr::Integer(v) => Ok(Object::Int(v)),
        Expr::Identifier(_) => Err(identifier_msg()),
        Expr::Prefix(op, right) => match eval_expr(*right) {
            Err(m) => Err(m),
            Ok(Object::Int(i)) => if op is Minus {
                int_result(-(i as int))
            } else {
                Err(prefix_msg())
            },
        },
        Expr::Infix(op, left, right) => match eval_expr(*left) {
            Err(m) => Err(m),
            Ok(Object::Int(l)) => match eval_expr(*right) {
                Err(m) => Err(m),
                Ok(Object::Int(r)) => if op is Plus {
                    int_result(l + r)
                } else if op is Minus {
                    int_result(l - r)
                } else {
                    Err(infix_msg())
                },
            },
        },
    }
}

/// The value of a statement: a `let` always fails.
pub open spec fn eval_stmt(s: Stmt) -> Outcome {
    match s {
        Stmt::Let(_, _) => Err(let_msg()),
        Stmt::Expression(e) => eval_expr(e),
    }
}

/// Evaluates statements in order, `acc` being the value of the last one so far.
pub open spec fn eval_stmts(sts: Seq<Stmt>, acc: Object) -> Outcome
    decreases sts.len(),
{
    if sts.len() == 0 {
        Ok(acc)
    } else {
        match eval_stmt(sts[0]) {
            Err(m) => Err(m),
            Ok(v) => eval_stmts(sts.drop_first(), v),
        }
    }
}

/// The value of a program: that of its last statement, zero for none.
pub open spec fn eval_program_spec(sts: Seq<Stmt>) -> Outcome {
    eval_stmts(sts, Object::Int(0))
}

/// The value of any node.
pub open spec fn eval_node(n: AstNode) -> Outcome {
    match n {
        AstNode::Program(sts) => eval_program_spec(sts),
        AstNode::Statement(s) => eval_stmt(s),
        AstNode::Expression(e) => eval_expr(e),
    }
}

/// Relates an executable evaluation result to its outcome.
pub open spec fn matches_outcome(o: Outcome, r: EvalResult) -> bool {
    match r {
        Ok(v) => o == Ok::<Object, Seq<char>>(v),
        Err(e) => o == Err::<Object, Seq<char>>(e.message@),
    }
}

fn fail(msg: &str) -> (r: EvalResult)
    ensures
        r matches Err(e) && e.message@ == msg@,
{
    Err(EvalError { message: String::from_str(msg) })
}

/// Evaluates any node.
pub fn eval(node: &Node) -> (r: EvalResult)
    ensures
        matches_outcome(eval_node(node@), r),
{
    match node {
        Node::Program(prog) => eval_program(prog),
        Node::Statement(stmt) => eval_statement(stmt),
        Node::Expression(exp) => eval_expression(exp),
    }
}

fn eval_program(prog: &Program) -> (r: EvalResult)
    ensures
        matches_outcome(eval_program_spec(prog@), r),
{
    let mut result = Object::Int(0);
    let n = prog.statements.len();
    let mut i: usize = 0;
    proof {
        assert(prog@.subrange(0, n as int) =~= prog@);
    }
    while i < n
        invariant
            n == prog.statements.len(),
            i <= n,
            eval_program_spec(prog@) == eval_stmts(prog@.subrange(i as int, n as int), result),
        decreases n - i,
    {
        let res = eval_statement(&prog.statements[i]);
        proof {
            let rest = prog@.subrange(i as int, n as int);
            assert(rest[0] == prog.statements@[i as int]@);
            assert(rest.drop_first() =~= prog@.subrange(i + 1, n as int));
        }
        match res {
            Ok(v) => {
                result = v;
            },
            Err(e) => {
                return Err(e);
            },
        }
        i = i + 1;
    }
    Ok(result)
}

fn eval_statement(stmt: &Statement) -> (r: EvalResult)
    ensures
        matches_outcome(eval_stmt(stmt@), r),
{
    proof {
        reveal_strlit("evaluating a let statement is unsupported");
    }
    match stmt {
        Statement::Expression(exp) => eval_expression(&exp.expression),
        Statement::Let(_) => fail("evaluating a let statement is unsupported"),
    }
}

fn eval_expression(exp: &Expression) -> (r: EvalResult)
    ensures
        matches_outcome(eval_expr(exp@), r),
    decreases exp,
{
    match exp {
        Expression::Integer(i) => Ok(Object::Int(*i)),
        Expression::Prefix(expr) => eval_prefix_expression(expr),
        Expression::Infix(expr) => eval_infix_expression(expr),
        Expression::Identifier(_) => fail("evaluating an identifier is unsupported"),
    }
}

fn checked_result(v: i128) -> (r: EvalResult)
    ensures
        matches_outcome(int_result(v as int), r),
{
    if v < i64::MIN as i128 || v > i64::MAX as i128 {
        fail("integer overflow")
    } else {
        Ok(Object::Int(v as i64))
    }
}

fn eval_infix_expression(exp: &InfixExpression) -> (r: EvalResult)
    ensures
        matches_outcome(
            eval_expr(Expr::Infix(exp.operator@, Box::new(exp.left@), Box::new(exp.right@))),
            r,
        ),
    decreases exp,
{
    let left = match eval_expression(&exp.left) {
        Ok(v) => v,
        Err(e) => {
            return Err(e);
        },
    };
    let right = match eval_expression(&exp.right) {
        Ok(v) => v,
        Err(e) => {
            return Err(e);
        },
    };
    let Object::Int(l) = left;
    let Object::Int(r) = right;
    match exp.operator {
        Token::Plus => checked_result(l as i128 + r as i128),
        Token::Minus => checked_result(l as i128 - r as i128),
        _ => fail("unsupported infix operator"),
    }
}

fn eval_prefix_expression(exp: &PrefixExpression) -> (r: EvalResult)
    ensures
        matches_outcome(eval_expr(Expr::Prefix(exp.operator@, Box::new(exp.right@))), r),
    decreases exp,
{
    let value = match eval_expression(&exp.right) {
        Ok(v) => v,
        Err(e) => {
            return Err(e);
        },
    };
    let Object::Int(i) = value;
    match exp.operator {
        Token::Minus => checked_result(0i128 - i as i128),
        _ => fail("unsupported prefix operator"),
    }
}

} // verus!

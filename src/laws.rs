//! Laws that relate the lexer, the parser and the evaluator.
use vstd::prelude::*;
use crate::ast::{Expr, Stmt};
use crate::evaluator::{eval_expr, eval_program_spec, eval_stmt, eval_stmts, Outcome};
use crate::lexer::{
    digits_value, is_digit_spec, lemma_lex_from_unfold, lex_from, lex_one, scan_digits,
    tokenize,
};
use crate::object::Object;
use crate::parser::{
    expect_spec, parse_expr, parse_infix_loop, parse_prefix, parse_source, parse_statement_spec,
    parse_statements,
};
use crate::token::{Precedence, Tok};

verus! {

/// The outcome of parsing a source text and evaluating the program.
pub open spec fn run_source(s: Seq<char>) -> Outcome {
    match parse_source(s) {
        Ok(sts) => eval_program_spec(sts),
        Err(m) => Err(m),
    }
}

/// Whether an identifier occurs anywhere in an expression.
pub open spec fn mentions_identifier(e: Expr) -> bool
    decreases e,
{
    match e {
        Expr::Identifier(_) => true,
        Expr::Integer(_) => false,
        Expr::Prefix(_, r) => mentions_identifier(*r),
        Expr::Infix(_, l, r) => mentions_identifier(*l) || mentions_identifier(*r),
    }
}

/// A non-empty run of decimal digits.
pub open spec fn is_digit_run(d: Seq<char>) -> bool {
    d.len() > 0 && forall|i: int| 0 <= i < d.len() ==> is_digit_spec(#[trigger] d[i])
}

proof fn lemma_scan_digits_to(s: Seq<char>, i: int, q: int)
    requires
        0 <= i <= q < s.len(),
        forall|j: int| i <= j < q ==> is_digit_spec(#[trigger] s[j]),
        !is_digit_spec(s[q]),
    ensures
        scan_digits(s, i) == q,
    decreases q - i,
{
    if i < q {
        lemma_scan_digits_to(s, i + 1, q);
    }
}

/// A digit run that fits in an `i64`, then `;` and the end of the text,
/// lexes as that integer and a semicolon.
proof fn lemma_lex_literal(s: Seq<char>, p: int, d: Seq<char>)
    requires
        0 <= p,
        is_digit_run(d),
        digits_value(d) <= i64::MAX,
        s.len() == p + d.len() + 1,
        s.subrange(p, p + d.len()) == d,
        s[p + d.len()] == ';',
    ensures
        lex_from(s, p) == seq![Tok::Int(digits_value(d) as i64), Tok::Semicolon],
{
    let q = p + d.len();
    assert(s[p] == d[0]);
    assert forall|j: int| p + 1 <= j < q implies is_digit_spec(#[trigger] s[j]) by {
        assert(s[j] == d[j - p]);
    }
    lemma_scan_digits_to(s, p + 1, q);
    assert(lex_one(s, p) == (Tok::Int(digits_value(d) as i64), q));
    lemma_lex_from_unfold(s, p);
    assert(lex_one(s, q) == (Tok::Semicolon, q + 1));
    lemma_lex_from_unfold(s, q);
    assert(lex_one(s, q + 1).0 is EOF);
    lemma_lex_from_unfold(s, q + 1);
    assert(lex_from(s, p) =~= seq![Tok::Int(digits_value(d) as i64), Tok::Semicolon]);
}

/// A program of the single statement `<e>;`, where `e` is parsed from `ts`
/// with `;` and nothing after it.
proof fn lemma_single_statement(ts: Seq<Tok>, e: Expr)
    requires
        !(ts[0] is Let),
        ts.len() > 1,
        parse_expr(ts, Precedence::Lowest) == Ok::<(Expr, Seq<Tok>), Seq<char>>(
            (e, seq![Tok::Semicolon]),
        ),
    ensures
        parse_statements(ts) == Ok::<Seq<Stmt>, Seq<char>>(seq![Stmt::Expression(e)]),
{
    assert(seq![Tok::Semicolon].drop_first() =~= Seq::<Tok>::empty());
    assert(expect_spec(seq![Tok::Semicolon], Tok::Semicolon) == Ok::<Seq<Tok>, Seq<char>>(
        Seq::empty(),
    ));
    assert(parse_statement_spec(ts) == Ok::<(Stmt, Seq<Tok>), Seq<char>>(
        (Stmt::Expression(e), Seq::empty()),
    ));
    assert(parse_statements(Seq::empty()) == Ok::<Seq<Stmt>, Seq<char>>(Seq::empty()));
    assert(seq![Stmt::Expression(e)] + Seq::<Stmt>::empty() =~= seq![Stmt::Expression(e)]);
}

proof fn lemma_eval_single(e: Expr)
    ensures
        eval_program_spec(seq![Stmt::Expression(e)]) == eval_expr(e),
{
    let sts = seq![Stmt::Expression(e)];
    assert(sts.drop_first() =~= Seq::<Stmt>::empty());
    match eval_expr(e) {
        Ok(v) => assert(eval_stmts(Seq::<Stmt>::empty(), v) == Ok::<Object, Seq<char>>(v)),
        Err(_) => {},
    }
}

/// A run of decimal digits whose value fits in an `i64`, followed by `;`,
/// parses as that integer literal and evaluates to its value.
pub proof fn lemma_literal_round_trip(d: Seq<char>)
    requires
        is_digit_run(d),
        digits_value(d) <= i64::MAX,
    ensures
        parse_source(d + ";"@) == Ok::<Seq<Stmt>, Seq<char>>(
            seq![Stmt::Expression(Expr::Integer(digits_value(d) as i64))],
        ),
        run_source(d + ";"@) == Ok::<Object, Seq<char>>(Object::Int(digits_value(d) as i64)),
{
    reveal_strlit(";");
    let s = d + ";"@;
    let n = digits_value(d) as i64;
    assert(s.subrange(0, d.len() as int) =~= d);
    lemma_lex_literal(s, 0, d);
    let ts = tokenize(s);
    assert(ts.drop_first() =~= seq![Tok::Semicolon]);
    assert(parse_prefix(ts) == Ok::<(Expr, Seq<Tok>), Seq<char>>(
        (Expr::Integer(n), seq![Tok::Semicolon]),
    ));
    assert(parse_infix_loop(seq![Tok::Semicolon], Precedence::Lowest, Expr::Integer(n)) == Ok::<
        (Expr, Seq<Tok>),
        Seq<char>,
    >((Expr::Integer(n), seq![Tok::Semicolon])));
    lemma_single_statement(ts, Expr::Integer(n));
    lemma_eval_single(Expr::Integer(n));
}

/// A minus sign before such a run of digits, followed by `;`, parses as the
/// negated literal and evaluates to the negated value.
pub proof fn lemma_negated_literal(d: Seq<char>)
    requires
        is_digit_run(d),
        digits_value(d) <= i64::MAX,
    ensures
        parse_source("-"@ + d + ";"@) == Ok::<Seq<Stmt>, Seq<char>>(
            seq![
                Stmt::Expression(
                    Expr::Prefix(Tok::Minus, Box::new(Expr::Integer(digits_value(d) as i64))),
                ),
            ],
        ),
        run_source("-"@ + d + ";"@) == Ok::<Object, Seq<char>>(
            Object::Int((-digits_value(d)) as i64),
        ),
{
    reveal_strlit(";");
    reveal_strlit("-");
    let s = "-"@ + d + ";"@;
    let n = digits_value(d) as i64;
    assert(s.subrange(1, 1 + d.len() as int) =~= d);
    lemma_lex_literal(s, 1, d);
    assert(lex_one(s, 0) == (Tok::Minus, 1int));
    lemma_lex_from_unfold(s, 0);
    let ts = tokenize(s);
    assert(ts =~= seq![Tok::Minus, Tok::Int(n), Tok::Semicolon]);
    let ts1 = ts.drop_first();
    assert(ts1 =~= seq![Tok::Int(n), Tok::Semicolon]);
    assert(ts1.drop_first() =~= seq![Tok::Semicolon]);
    assert(parse_prefix(ts1) == Ok::<(Expr, Seq<Tok>), Seq<char>>(
        (Expr::Integer(n), seq![Tok::Semicolon]),
    ));
    assert(parse_infix_loop(seq![Tok::Semicolon], Precedence::Prefix, Expr::Integer(n)) == Ok::<
        (Expr, Seq<Tok>),
        Seq<char>,
    >((Expr::Integer(n), seq![Tok::Semicolon])));
    let e = Expr::Prefix(Tok::Minus, Box::new(Expr::Integer(n)));
    assert(parse_expr(ts1, Precedence::Prefix) == Ok::<(Expr, Seq<Tok>), Seq<char>>(
        (Expr::Integer(n), seq![Tok::Semicolon]),
    ));
    assert(parse_prefix(ts) == Ok::<(Expr, Seq<Tok>), Seq<char>>((e, seq![Tok::Semicolon])));
    assert(parse_infix_loop(seq![Tok::Semicolon], Precedence::Lowest, e) == Ok::<
        (Expr, Seq<Tok>),
        Seq<char>,
    >((e, seq![Tok::Semicolon])));
    lemma_single_statement(ts, e);
    lemma_eval_single(e);
    assert(eval_expr(Expr::Integer(n)) == Ok::<Object, Seq<char>>(Object::Int(n)));
    assert(eval_expr(e) == Ok::<Object, Seq<char>>(Object::Int((-digits_value(d)) as i64)));
}

/// Evaluating a `let` statement fails, whatever it binds.
pub proof fn lemma_let_fails(name: Seq<char>, value: Expr)
    ensures
        eval_stmt(Stmt::Let(name, value)) is Err,
{
}

/// A program that holds a `let` statement anywhere fails to evaluate.
pub proof fn lemma_program_with_let_fails(sts: Seq<Stmt>, i: int)
    requires
        0 <= i < sts.len(),
        sts[i] is Let,
    ensures
        eval_program_spec(sts) is Err,
{
    lemma_stmts_with_let_fail(sts, i, Object::Int(0));
}

proof fn lemma_stmts_with_let_fail(sts: Seq<Stmt>, i: int, acc: Object)
    requires
        0 <= i < sts.len(),
        sts[i] is Let,
    ensures
        eval_stmts(sts, acc) is Err,
    decreases i,
{
    if i > 0 {
        match eval_stmt(sts[0]) {
            Ok(v) => lemma_stmts_with_let_fail(sts.drop_first(), i - 1, v),
            Err(_) => {},
        }
    }
}

/// An expression in which an identifier occurs fails to evaluate, wherever
/// the identifier stands.
pub proof fn lemma_identifier_fails(e: Expr)
    requires
        mentions_identifier(e),
    ensures
        eval_expr(e) is Err,
    decreases e,
{
    match e {
        Expr::Prefix(_, r) => lemma_identifier_fails(*r),
        Expr::Infix(_, l, r) => {
            if mentions_identifier(*l) {
                lemma_identifier_fails(*l);
            } else {
                lemma_identifier_fails(*r);
            }
        },
        _ => {},
    }
}

/// Parsing depends on the text alone: the same text parses to the same
/// statements, or fails with the same diagnostic, every time.
pub proof fn lemma_parse_deterministic(a: Seq<char>, b: Seq<char>)
    requires
        a == b,
    ensures
        parse_source(a) == parse_source(b),
        run_source(a) == run_source(b),
{
}

} // verus!

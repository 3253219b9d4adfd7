//! A second expression grammar, read directly from the characters:
//! sums of products of optionally negated factors, where a factor is an
//! integer or a parenthesised expression. Spaces, tabs, carriage returns and
//! line feeds may surround integers and parentheses. Each parse returns the
//! expression and the text after it.
use vstd::prelude::*;
use vstd::string::*;
use crate::ast::{Expr, Expression, InfixExpression, PrefixExpression};
use crate::lexer::{chars_of, digits_value, is_digit_spec, scan_digits, scan_number};
use crate::token::{Tok, Token};

verus! {

/// The separators that may surround integers and parentheses.
pub open spec fn is_sp(c: char) -> bool {
    c == ' ' || c == '\t' || c == '\r' || c == '\n'
}

/// The first position at or after `p` that holds no separator.
pub open spec fn skip_sp(s: Seq<char>, p: int) -> int
    decreases s.len() - p,
{
    if 0 <= p < s.len() && is_sp(s[p]) {
        skip_sp(s, p + 1)
    } else {
        p
    }
}

/// Folds operator and operand pairs onto `initial`, from the left.
pub open spec fn fold_spec(initial: Expr, ops: Seq<(Tok, Expr)>) -> Expr
    decreases ops.len(),
{
    if ops.len() == 0 {
        initial
    } else {
        Expr::Infix(
            ops.last().0,
            Box::new(fold_spec(initial, ops.drop_last())),
            Box::new(ops.last().1),
        )
    }
}

pub open spec fn pairs_model(v: Seq<(Token, Expression)>) -> Seq<(Tok, Expr)> {
    v.map_values(|x: (Token, Expression)| (x.0@, x.1@))
}

/// An integer, with separators around it: its digits must fit in an `i64`.
pub open spec fn g_number(s: Seq<char>, p: int) -> Option<(Expr, int)> {
    let q = skip_sp(s, p);
    if 0 <= q < s.len() && is_digit_spec(s[q]) {
        let e = scan_digits(s, q + 1);
        let v = digits_value(s.subrange(q, e));
        if v <= i64::MAX {
            Some((Expr::Integer(v as i64), skip_sp(s, e)))
        } else {
            None
        }
    } else {
        None
    }
}

/// `( <expr> )`, with separators around each part.
pub open spec fn g_parens(s: Seq<char>, p: int) -> Option<(Expr, int)>
    decreases s.len() - p, 0nat,
{
    let q = skip_sp(s, p);
    let q1 = skip_sp(s, q + 1);
    if 0 <= q < s.len() && s[q] == '(' && p < q1 <= s.len() {
        match g_expr(s, q1) {
            None => None,
            Some((e, r)) => {
                let r1 = skip_sp(s, r);
                if 0 <= r1 < s.len() && s[r1] == ')' {
                    Some((e, skip_sp(s, r1 + 1)))
                } else {
                    None
                }
            },
        }
    } else {
        None
    }
}

/// An integer, or else a parenthesised expression.
pub open spec fn g_sfactor(s: Seq<char>, p: int) -> Option<(Expr, int)>
    decreases s.len() - p, 1nat,
{
    match g_number(s, p) {
        Some(x) => Some(x),
        None => g_parens(s, p),
    }
}

/// An optional `-` right at `p`, then an integer or a group.
pub open spec fn g_factor(s: Seq<char>, p: int) -> Option<(Expr, int)>
    decreases s.len() - p, 2nat,
{
    if 0 <= p < s.len() && s[p] == '-' {
        match g_sfactor(s, p + 1) {
            Some((e, q)) => Some((Expr::Prefix(Tok::Minus, Box::new(e)), q)),
            None => None,
        }
    } else {
        g_sfactor(s, p)
    }
}

pub open spec fn mul_tok(c: char) -> Tok {
    if c == '*' {
        Tok::Asterisk
    } else {
        Tok::Slash
    }
}

pub open spec fn add_tok(c: char) -> Tok {
    if c == '+' {
        Tok::Plus
    } else {
        Tok::Minus
    }
}

/// As many `* <factor>` and `/ <factor>` as follow, with where they end.
pub open spec fn g_mul_ops(s: Seq<char>, p: int) -> (Seq<(Tok, Expr)>, int)
    decreases s.len() - p, 3nat,
{
    if 0 <= p < s.len() && (s[p] == '*' || s[p] == '/') {
        match g_factor(s, p + 1) {
            Some((f, q)) => if p < q <= s.len() {
                let rest = g_mul_ops(s, q);
                (seq![(mul_tok(s[p]), f)] + rest.0, rest.1)
            } else {
                (Seq::empty(), p)
            },
            None => (Seq::empty(), p),
        }
    } else {
        (Seq::empty(), p)
    }
}

/// A factor, then the products and quotients that follow it.
pub open spec fn g_term(s: Seq<char>, p: int) -> Option<(Expr, int)>
    decreases s.len() - p, 4nat,
{
    match g_factor(s, p) {
        None => None,
        Some((f, q)) => if p < q <= s.len() {
            let ops = g_mul_ops(s, q);
            Some((fold_spec(f, ops.0), ops.1))
        } else {
            Some((f, q))
        },
    }
}

/// As many `+ <term>` and `- <term>` as follow, with where they end.
pub open spec fn g_add_ops(s: Seq<char>, p: int) -> (Seq<(Tok, Expr)>, int)
    decreases s.len() - p, 5nat,
{
    if 0 <= p < s.len() && (s[p] == '+' || s[p] == '-') {
        match g_term(s, p + 1) {
            Some((t, q)) => if p < q <= s.len() {
                let rest = g_add_ops(s, q);
                (seq![(add_tok(s[p]), t)] + rest.0, rest.1)
            } else {
                (Seq::empty(), p)
            },
            None => (Seq::empty(), p),
        }
    } else {
        (Seq::empty(), p)
    }
}

/// A term, then the sums and differences that follow it.
pub open spec fn g_expr(s: Seq<char>, p: int) -> Option<(Expr, int)>
    decreases s.len() - p, 6nat,
{
    match g_term(s, p) {
        None => None,
        Some((t, q)) => if p < q <= s.len() {
            let ops = g_add_ops(s, q);
            Some((fold_spec(t, ops.0), ops.1))
        } else {
            Some((t, q))
        },
    }
}

/// Relates an executable parse at a position to its specification.
pub open spec fn at_matches(sr: Option<(Expr, int)>, r: Option<(Expression, usize)>) -> bool {
    match r {
        Some((e, q)) => sr == Some((e@, q as int)),
        None => sr is None,
    }
}

/// A parse of the whole text `s` as the remaining text and the expression.
pub open spec fn with_rest(s: Seq<char>, sr: Option<(Expr, int)>) -> Option<(Seq<char>, Expr)> {
    match sr {
        Some((e, q)) => Some((s.subrange(q, s.len() as int), e)),
        None => None,
    }
}

pub open spec fn rest_view(r: Option<(String, Expression)>) -> Option<(Seq<char>, Expr)> {
    match r {
        Some((rest, e)) => Some((rest@, e@)),
        None => None,
    }
}

/// Folds operator and operand pairs onto `initial`, from the left:
/// `1, [(-, 2), (+, 3)]` gives `(1 - 2) + 3`.
pub fn fold_exprs(initial: Expression, remainder: Vec<(Token, Expression)>) -> (r: Expression)
    ensures
        r@ == fold_spec(initial@, pairs_model(remainder@)),
    decreases remainder@.len(),
{
    let mut remainder = remainder;
    let ghost all = pairs_model(remainder@);
    match remainder.pop() {
        None => {
            proof {
                assert(all =~= Seq::<(Tok, Expr)>::empty());
            }
            initial
        },
        Some((oper, expr)) => {
            proof {
                assert(all.drop_last() =~= pairs_model(remainder@));
                assert(all.last() == (oper@, expr@));
            }
            let acc = fold_exprs(initial, remainder);
            Expression::Infix(Box::new(InfixExpression { operator: oper, left: acc, right: expr }))
        },
    }
}

/// `factor` negated where a minus sign preceded it.
pub fn sign_exprs(negative: bool, factor: Expression) -> (r: Expression)
    ensures
        r@ == if negative {
            Expr::Prefix(Tok::Minus, Box::new(factor@))
        } else {
            factor@
        },
{
    if negative {
        Expression::Prefix(Box::new(PrefixExpression { operator: Token::Minus, right: factor }))
    } else {
        factor
    }
}

fn skip_spaces(s: &Vec<char>, p: usize) -> (r: usize)
    requires
        p <= s.len(),
    ensures
        r == skip_sp(s@, p as int),
        p <= r <= s.len(),
{
    let mut i = p;
    while i < s.len() && (s[i] == ' ' || s[i] == '\t' || s[i] == '\r' || s[i] == '\n')
        invariant
            p <= i <= s.len(),
            skip_sp(s@, i as int) == skip_sp(s@, p as int),
        decreases s.len() - i,
    {
        i = i + 1;
    }
    i
}

fn number_at(s: &Vec<char>, p: usize) -> (r: Option<(Expression, usize)>)
    requires
        p <= s.len(),
    ensures
        at_matches(g_number(s@, p as int), r),
        r matches Some((_, q)) ==> p < q <= s.len(),
{
    let q = skip_spaces(s, p);
    if q < s.len() && 48 <= s[q] as u32 && s[q] as u32 <= 57 {
        let (e, value) = scan_number(s, q);
        match value {
            Some(n) => {
                let after = skip_spaces(s, e);
                Some((Expression::Integer(n), after))
            },
            None => None,
        }
    } else {
        None
    }
}

fn parens_at(s: &Vec<char>, p: usize) -> (r: Option<(Expression, usize)>)
    requires
        p <= s.len(),
    ensures
        at_matches(g_parens(s@, p as int), r),
        r matches Some((_, q)) ==> p < q <= s.len(),
    decreases s@.len() - p, 0nat,
{
    let q = skip_spaces(s, p);
    if q < s.len() && s[q] == '(' {
        let q1 = skip_spaces(s, q + 1);
        match expr_at(s, q1) {
            None => None,
            Some((e, r)) => {
                let r1 = skip_spaces(s, r);
                if r1 < s.len() && s[r1] == ')' {
                    let after = skip_spaces(s, r1 + 1);
                    Some((e, after))
                } else {
                    None
                }
            },
        }
    } else {
        None
    }
}

fn sfactor_at(s: &Vec<char>, p: usize) -> (r: Option<(Expression, usize)>)
    requires
        p <= s.len(),
    ensures
        at_matches(g_sfactor(s@, p as int), r),
        r matches Some((_, q)) ==> p < q <= s.len(),
    decreases s@.len() - p, 1nat,
{
    match number_at(s, p) {
        Some(x) => Some(x),
        None => parens_at(s, p),
    }
}

fn factor_at(s: &Vec<char>, p: usize) -> (r: Option<(Expression, usize)>)
    requires
        p <= s.len(),
    ensures
        at_matches(g_factor(s@, p as int), r),
        r matches Some((_, q)) ==> p < q <= s.len(),
    decreases s@.len() - p, 2nat,
{
    let negative = p < s.len() && s[p] == '-';
    let start = if negative {
        p + 1
    } else {
        p
    };
    match sfactor_at(s, start) {
        Some((f, q)) => Some((sign_exprs(negative, f), q)),
        None => None,
    }
}

fn term_at(s: &Vec<char>, p: usize) -> (r: Option<(Expression, usize)>)
    requires
        p <= s.len(),
    ensures
        at_matches(g_term(s@, p as int), r),
        r matches Some((_, q)) ==> p < q <= s.len(),
    decreases s@.len() - p, 4nat,
{
    let (initial, q) = match factor_at(s, p) {
        Some(x) => x,
        None => {
            return None;
        },
    };
    let mut remainder: Vec<(Token, Expression)> = Vec::new();
    let mut pos = q;
    let mut stop = false;
    proof {
        assert(pairs_model(remainder@) + g_mul_ops(s@, q as int).0 =~= g_mul_ops(
            s@,
            q as int,
        ).0);
    }
    while !stop && pos < s.len() && (s[pos] == '*' || s[pos] == '/')
        invariant
            p < q <= pos <= s.len(),
            g_mul_ops(s@, q as int).0 == pairs_model(remainder@) + g_mul_ops(s@, pos as int).0,
            g_mul_ops(s@, q as int).1 == g_mul_ops(s@, pos as int).1,
            stop ==> g_mul_ops(s@, pos as int) == (Seq::<(Tok, Expr)>::empty(), pos as int),
        decreases s.len() - pos, if stop { 0nat } else { 1nat },
    {
        let oper = if s[pos] == '*' {
            Token::Asterisk
        } else {
            Token::Slash
        };
        match factor_at(s, pos + 1) {
            Some((f, r)) => {
                let ghost before = pairs_model(remainder@);
                let ghost rest = g_mul_ops(s@, r as int);
                remainder.push((oper, f));
                proof {
                    assert(pairs_model(remainder@) =~= before.push((oper@, f@)));
                    assert(before + (seq![(oper@, f@)] + rest.0) =~= pairs_model(remainder@)
                        + rest.0);
                }
                pos = r;
            },
            None => {
                stop = true;
            },
        }
    }
    proof {
        assert(pairs_model(remainder@) + Seq::<(Tok, Expr)>::empty() =~= pairs_model(
            remainder@,
        ));
    }
    Some((fold_exprs(initial, remainder), pos))
}

fn expr_at(s: &Vec<char>, p: usize) -> (r: Option<(Expression, usize)>)
    requires
        p <= s.len(),
    ensures
        at_matches(g_expr(s@, p as int), r),
        r matches Some((_, q)) ==> p < q <= s.len(),
    decreases s@.len() - p, 6nat,
{
    let (initial, q) = match term_at(s, p) {
        Some(x) => x,
        None => {
            return None;
        },
    };
    let mut remainder: Vec<(Token, Expression)> = Vec::new();
    let mut pos = q;
    let mut stop = false;
    proof {
        assert(pairs_model(remainder@) + g_add_ops(s@, q as int).0 =~= g_add_ops(
            s@,
            q as int,
        ).0);
    }
    while !stop && pos < s.len() && (s[pos] == '+' || s[pos] == '-')
        invariant
            p < q <= pos <= s.len(),
            g_add_ops(s@, q as int).0 == pairs_model(remainder@) + g_add_ops(s@, pos as int).0,
            g_add_ops(s@, q as int).1 == g_add_ops(s@, pos as int).1,
            stop ==> g_add_ops(s@, pos as int) == (Seq::<(Tok, Expr)>::empty(), pos as int),
        decreases s.len() - pos, if stop { 0nat } else { 1nat },
    {
        let oper = if s[pos] == '+' {
            Token::Plus
        } else {
            Token::Minus
        };
        match term_at(s, pos + 1) {
            Some((t, r)) => {
                let ghost before = pairs_model(remainder@);
                let ghost rest = g_add_ops(s@, r as int);
                remainder.push((oper, t));
                proof {
                    assert(pairs_model(remainder@) =~= before.push((oper@, t@)));
                    assert(before + (seq![(oper@, t@)] + rest.0) =~= pairs_model(remainder@)
                        + rest.0);
                }
                pos = r;
            },
            None => {
                stop = true;
            },
        }
    }
    proof {
        assert(pairs_model(remainder@) + Seq::<(Tok, Expr)>::empty() =~= pairs_model(
            remainder@,
        ));
    }
    Some((fold_exprs(initial, remainder), pos))
}

fn finish(input: &str, r: Option<(Expression, usize)>) -> (out: Option<(String, Expression)>)
    requires
        r matches Some((_, q)) ==> q <= input@.len(),
    ensures
        rest_view(out) == match r {
            Some((e, q)) => Some((input@.subrange(q as int, input@.len() as int), e@)),
            None => None,
        },
{
    match r {
        Some((e, q)) => {
            let n = input.unicode_len();
            let rest = input.substring_char(q, n).to_owned();
            Some((rest, e))
        },
        None => None,
    }
}

/// Parses an optionally negated integer or group at the start of `input`.
pub fn factor(input: &str) -> (r: Option<(String, Expression)>)
    ensures
        rest_view(r) == with_rest(input@, g_factor(input@, 0)),
{
    let s = chars_of(input);
    let r = factor_at(&s, 0);
    finish(input, r)
}

/// Parses a product or quotient chain at the start of `input`.
pub fn term(input: &str) -> (r: Option<(String, Expression)>)
    ensures
        rest_view(r) == with_rest(input@, g_term(input@, 0)),
{
    let s = chars_of(input);
    let r = term_at(&s, 0);
    finish(input, r)
}

/// Parses a sum or difference chain at the start of `input`.
pub fn expr(input: &str) -> (r: Option<(String, Expression)>)
    ensures
        rest_view(r) == with_rest(input@, g_expr(input@, 0)),
{
    let s = chars_of(input);
    let r = expr_at(&s, 0);
    finish(input, r)
}

} // verus!

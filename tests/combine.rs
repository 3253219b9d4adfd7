use monkey::ast::{Expression, InfixExpression, PrefixExpression};
use monkey::combine::{expr, factor, fold_exprs, sign_exprs, term};
use monkey::token::Token;

fn rest(s: &str, e: Expression) -> Option<(String, Expression)> {
    Some((s.to_string(), e))
}

fn infix(operator: Token, left: Expression, right: Expression) -> Expression {
    Expression::Infix(Box::new(InfixExpression { operator, left, right }))
}

#[test]
fn test_factor() {
    assert_eq!(factor("1103"), rest("", Expression::Integer(1103)));
    assert_eq!(factor(" 1103"), rest("", Expression::Integer(1103)));
    assert_eq!(factor("1103  "), rest("", Expression::Integer(1103)));
    assert_eq!(factor("  1103   1"), rest("1", Expression::Integer(1103)));
}

#[test]
fn test_expr() {
    let expects = vec![
        ("1103;", Expression::Integer(1103)),
        (
            "-1103;",
            Expression::Prefix(Box::new(PrefixExpression {
                operator: Token::Minus,
                right: Expression::Integer(1103),
            })),
        ),
        (
            "2206-1103;",
            Expression::Infix(Box::new(InfixExpression {
                operator: Token::Minus,
                left: Expression::Integer(2206),
                right: Expression::Integer(1103),
            })),
        ),
        (
            "1103-1103+1103;",
            Expression::Infix(Box::new(InfixExpression {
                operator: Token::Plus,
                right: Expression::Integer(1103),
                left: Expression::Infix(Box::new(InfixExpression {
                    left: Expression::Integer(1103),
                    operator: Token::Minus,
                    right: Expression::Integer(1103),
                })),
            })),
        ),
        (
            "1103*2;",
            Expression::Infix(Box::new(InfixExpression {
                operator: Token::Asterisk,
                left: Expression::Integer(1103),
                right: Expression::Integer(2),
            })),
        ),
        (
            "-1103-1103*1103;",
            Expression::Infix(Box::new(InfixExpression {
                operator: Token::Minus,
                left: Expression::Prefix(Box::new(PrefixExpression {
                    operator: Token::Minus,
                    right: Expression::Integer(1103),
                })),
                right: Expression::Infix(Box::new(InfixExpression {
                    left: Expression::Integer(1103),
                    operator: Token::Asterisk,
                    right: Expression::Integer(1103),
                })),
            })),
        ),
        (
            "1103-(1103+1103);",
            Expression::Infix(Box::new(InfixExpression {
                operator: Token::Minus,
                left: Expression::Integer(1103),
                right: Expression::Infix(Box::new(InfixExpression {
                    left: Expression::Integer(1103),
                    operator: Token::Plus,
                    right: Expression::Integer(1103),
                })),
            })),
        ),
    ];

    for e in expects {
        assert_eq!(expr(e.0), rest(";", e.1));
    }
}

#[test]
fn grammar_failures() {
    assert_eq!(factor(""), None);
    assert_eq!(factor("x"), None);
    assert_eq!(factor(" -1"), None);
    assert_eq!(factor("(1"), None);
    assert_eq!(factor("99999999999999999999"), None);
    assert_eq!(expr(")"), None);
}

#[test]
fn grammar_groups_and_separators() {
    assert_eq!(
        expr(" ( 1 +2 ) * 3 ;"),
        rest(
            ";",
            infix(
                Token::Asterisk,
                infix(Token::Plus, Expression::Integer(1), Expression::Integer(2)),
                Expression::Integer(3),
            ),
        )
    );
    assert_eq!(factor("-(7)\n"), rest("", sign_exprs(true, Expression::Integer(7))));
}

#[test]
fn grammar_stops_before_an_incomplete_operator() {
    // The operator stays unread when no operand follows it.
    assert_eq!(expr("1+;"), rest("+;", Expression::Integer(1)));
    assert_eq!(term("6/2*"), rest("*", infix(Token::Slash, Expression::Integer(6), Expression::Integer(2))));
    assert_eq!(term("6 + 2"), rest("+ 2", Expression::Integer(6)));
}

#[test]
fn folding_is_from_the_left() {
    let folded = fold_exprs(
        Expression::Integer(1),
        vec![
            (Token::Minus, Expression::Integer(2)),
            (Token::Plus, Expression::Integer(3)),
        ],
    );
    assert_eq!(
        folded,
        infix(
            Token::Plus,
            infix(Token::Minus, Expression::Integer(1), Expression::Integer(2)),
            Expression::Integer(3),
        )
    );
    assert_eq!(fold_exprs(Expression::Integer(4), vec![]), Expression::Integer(4));
    assert_eq!(sign_exprs(false, Expression::Integer(4)), Expression::Integer(4));
}

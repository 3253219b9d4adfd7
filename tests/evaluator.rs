use monkey::ast::{Expression, LetStatement, Node, PrefixExpression, Statement};
use monkey::evaluator::eval;
use monkey::object::Object;
use monkey::parser;
use monkey::token::Token;

fn run(text: &str) -> Result<i64, String> {
    let node = parser::parse(text)?;
    match eval(&node) {
        Ok(Object::Int(i)) => Ok(i),
        Err(e) => Err(e.message),
    }
}

#[test]
fn eval_integer_expression() {
    let test = vec![
        ("1103;", 1103),
        ("-1103;", -1103),
        ("2206-1103;", 1103),
        ("1103-1103+1103;", 1103),
    ];

    for t in test {
        let obj = match parser::parse(t.0) {
            Ok(node) => eval(&node).expect(t.0),
            Err(e) => panic!("{}", e),
        };

        match obj {
            Object::Int(i) => assert_eq!(t.1, i),
        }
    }
}

#[test]
fn literals_evaluate_to_themselves() {
    assert_eq!(run("0;"), Ok(0));
    assert_eq!(run("42;"), Ok(42));
    assert_eq!(run("9223372036854775807;"), Ok(i64::MAX));
    assert_eq!(run("-9223372036854775807;"), Ok(-i64::MAX));
}

#[test]
fn subtraction_folds_left_to_right() {
    assert_eq!(run("2206-1103;"), Ok(1103));
    assert_eq!(run("1103-1103+1103;"), Ok(1103));
    assert_eq!(run("10-3-2;"), Ok(5));
}

#[test]
fn grouping_changes_the_result() {
    assert_eq!(run("1103-(1103+1103);"), Ok(-1103));
    assert_eq!(run("-(2-5);"), Ok(3));
}

#[test]
fn products_and_quotients_are_not_evaluated() {
    assert_eq!(run("1103*2;"), Err("unsupported infix operator".to_string()));
    assert_eq!(
        run("-1103-1103*1103;"),
        Err("unsupported infix operator".to_string())
    );
    assert_eq!(run("6/3;"), Err("unsupported infix operator".to_string()));
}

#[test]
fn overflow_is_reported() {
    assert_eq!(run("9223372036854775807+1;"), Err("integer overflow".to_string()));
    assert_eq!(run("-9223372036854775807-2;"), Err("integer overflow".to_string()));
    assert_eq!(run("-9223372036854775807-1;"), Ok(i64::MIN));
}

#[test]
fn let_statements_fail() {
    assert_eq!(
        run("let birthday = 1103;"),
        Err("evaluating a let statement is unsupported".to_string())
    );
    assert_eq!(
        run("1; ;let x = 2;"),
        Err("evaluating a let statement is unsupported".to_string())
    );
    let stmt = Statement::Let(Box::new(LetStatement {
        name: "x".to_string(),
        value: Expression::Integer(1),
    }));
    assert!(eval(&Node::Statement(Box::new(stmt))).is_err());
}

#[test]
fn identifiers_fail() {
    let bare = Node::Expression(Box::new(Expression::Identifier("x".to_string())));
    assert_eq!(
        eval(&bare).unwrap_err().message,
        "evaluating an identifier is unsupported"
    );
    let nested = Node::Expression(Box::new(Expression::Prefix(Box::new(PrefixExpression {
        operator: Token::Minus,
        right: Expression::Identifier("y".to_string()),
    }))));
    assert!(eval(&nested).is_err());
}

#[test]
fn other_prefix_operators_fail() {
    let plus = Node::Expression(Box::new(Expression::Prefix(Box::new(PrefixExpression {
        operator: Token::Plus,
        right: Expression::Integer(1),
    }))));
    assert_eq!(eval(&plus).unwrap_err().message, "unsupported prefix operator");
}

#[test]
fn program_value_is_the_last_statement() {
    assert_eq!(run("1; ;2;"), Ok(2));
    assert_eq!(run(""), Ok(0));
}

#[test]
fn parse_errors_pass_through() {
    assert_eq!(run("let birthday = ;"), Err("invalid token Semicolon".to_string()));
}

#[test]
fn inspect_renders_decimal() {
    assert_eq!(Object::Int(42).inspect(), "42");
    assert_eq!(Object::Int(0).inspect(), "0");
    assert_eq!(Object::Int(-1103).inspect(), "-1103");
    assert_eq!(Object::Int(i64::MIN).inspect(), "-9223372036854775808");
}

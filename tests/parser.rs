use monkey::ast::{
    Expression, ExpressionStatement, InfixExpression, LetStatement, Node, PrefixExpression,
    Program, Statement,
};
use monkey::lexer::Lexer;
use monkey::parser::{parse, Parser};
use monkey::token::Token;

fn setup(input: &str) -> Parser {
    let l = Lexer::new(input);
    Parser::new(l)
}

fn lit(v: i64) -> Expression {
    Expression::Integer(v)
}

fn infix(operator: Token, left: Expression, right: Expression) -> Expression {
    Expression::Infix(Box::new(InfixExpression { operator, left, right }))
}

fn neg(right: Expression) -> Expression {
    Expression::Prefix(Box::new(PrefixExpression { operator: Token::Minus, right }))
}

fn single_expression(input: &str) -> Expression {
    let mut p = setup(input);
    let program = p.parse_program().expect(input);
    assert_eq!(program.statements.len(), 1);
    match program.statements.into_iter().next().unwrap() {
        Statement::Expression(l) => l.expression,
        _ => panic!("expected expression statement"),
    }
}

#[test]
fn parser_parse_let_statement() {
    let input = r#"let birthday = 1103;"#;
    let l = Lexer::new(input);
    let mut p = Parser::new(l);

    let expects = vec![("birthday", Expression::Integer(1103))];

    let program = p.parse_program().unwrap();
    let mut iter = program.statements.iter();

    for e in expects {
        match iter.next().unwrap() {
            Statement::Let(ref l) => {
                assert_eq!(e.0, l.name);
                assert_eq!(e.1, l.value);
            }
            stmt => panic!("expected let statement but got {:?}", stmt),
        }
    }
}

#[test]
fn parser_parse_let_statement_error() {
    let input = r#"let birthday = ;"#;
    let l = Lexer::new(input);
    let mut p = Parser::new(l);

    match p.parse_program() {
        Ok(_) => panic!("error"),
        Err(err) => assert_eq!("invalid token Semicolon", err),
    }
}

#[test]
fn parser_parse_expression_statement() {
    let expects = vec![
        ("1103;", Expression::Integer(1103)),
        (
            "-1103;",
            Expression::Prefix(Box::new(PrefixExpression {
                operator: Token::Minus,
                right: Expression::Integer(1103),
            })),
        ),
        (
            "2206-1103;",
            Expression::Infix(Box::new(InfixExpression {
                operator: Token::Minus,
                left: Expression::Integer(2206),
                right: Expression::Integer(1103),
            })),
        ),
        (
            "1103-1103+1103;",
            Expression::Infix(Box::new(InfixExpression {
                operator: Token::Plus,
                right: Expression::Integer(1103),
                left: Expression::Infix(Box::new(InfixExpression {
                    left: Expression::Integer(1103),
                    operator: Token::Minus,
                    right: Expression::Integer(1103),
                })),
            })),
        ),
        (
            "1103*2;",
            Expression::Infix(Box::new(InfixExpression {
                operator: Token::Asterisk,
                left: Expression::Integer(1103),
                right: Expression::Integer(2),
            })),
        ),
        (
            "-1103-1103*1103;",
            Expression::Infix(Box::new(InfixExpression {
                operator: Token::Minus,
                left: Expression::Prefix(Box::new(PrefixExpression {
                    operator: Token::Minus,
                    right: Expression::Integer(1103),
                })),
                right: Expression::Infix(Box::new(InfixExpression {
                    left: Expression::Integer(1103),
                    operator: Token::Asterisk,
                    right: Expression::Integer(1103),
                })),
            })),
        ),
        (
            "1103-(1103+1103);",
            Expression::Infix(Box::new(InfixExpression {
                operator: Token::Minus,
                left: Expression::Integer(1103),
                right: Expression::Infix(Box::new(InfixExpression {
                    left: Expression::Integer(1103),
                    operator: Token::Plus,
                    right: Expression::Integer(1103),
                })),
            })),
        ),
    ];

    for e in expects {
        let mut p = setup(e.0);
        let program = p.parse_program().expect(e.0);
        let mut iter = program.statements.iter();

        match iter.next().unwrap() {
            Statement::Expression(ref l) => {
                assert_eq!(e.1, l.expression);
            }
            _ => panic!("expected let statement"),
        }
    }
}

#[test]
fn subtraction_keeps_its_operands_in_order() {
    assert_eq!(
        single_expression("2206-1103;"),
        infix(Token::Minus, lit(2206), lit(1103))
    );
}

#[test]
fn equal_strength_operators_associate_left() {
    assert_eq!(
        single_expression("1-2-3;"),
        infix(Token::Minus, infix(Token::Minus, lit(1), lit(2)), lit(3))
    );
    assert_eq!(
        single_expression("8/4/2;"),
        infix(Token::Slash, infix(Token::Slash, lit(8), lit(4)), lit(2))
    );
}

#[test]
fn products_bind_more_strongly_than_sums() {
    assert_eq!(
        single_expression("1+2*3;"),
        infix(Token::Plus, lit(1), infix(Token::Asterisk, lit(2), lit(3)))
    );
    assert_eq!(
        single_expression("1*2+3;"),
        infix(Token::Plus, infix(Token::Asterisk, lit(1), lit(2)), lit(3))
    );
}

#[test]
fn unary_minus_binds_most_strongly() {
    assert_eq!(
        single_expression("-2*3;"),
        infix(Token::Asterisk, neg(lit(2)), lit(3))
    );
    assert_eq!(single_expression("--5;"), neg(neg(lit(5))));
}

#[test]
fn groups_leave_no_trace_in_the_tree() {
    assert_eq!(single_expression("((7));"), lit(7));
    assert_eq!(
        single_expression("(1+2)*3;"),
        infix(Token::Asterisk, infix(Token::Plus, lit(1), lit(2)), lit(3))
    );
}

#[test]
fn empty_text_parses_to_an_empty_program() {
    let mut p = setup("   ");
    assert_eq!(p.parse_program().unwrap(), Program::new());
}

#[test]
fn parse_wraps_the_program_in_a_node() {
    let node = parse("let x = 1;").unwrap();
    let expected = Node::Program(Box::new(Program {
        statements: vec![Statement::Let(Box::new(LetStatement {
            name: "x".to_string(),
            value: lit(1),
        }))],
    }));
    assert_eq!(node, expected);
}

#[test]
fn parsing_twice_gives_equal_trees() {
    let text = "-1103-(1103+1103)*2;";
    assert_eq!(parse(text).unwrap(), parse(text).unwrap());
    let bad = "let = 1;";
    assert_eq!(parse(bad).unwrap_err(), parse(bad).unwrap_err());
}

#[test]
fn malformed_let_names_the_offending_token() {
    assert_eq!(parse("let birthday = ;").unwrap_err(), "invalid token Semicolon");
    assert_eq!(parse("let 5 = 1;").unwrap_err(), "invalid identifier 5");
    assert_eq!(parse("let x 1;").unwrap_err(), "expect token Assign but 1");
    assert_eq!(parse("let x = 1").unwrap_err(), "expect token Semicolon but EOF");
    assert_eq!(parse("let").unwrap_err(), "invalid identifier EOF");
}

#[test]
fn missing_tokens_in_expressions() {
    assert_eq!(parse("1").unwrap_err(), "expect token Semicolon but EOF");
    assert_eq!(parse("(1;").unwrap_err(), "expect token Rparen but Semicolon");
    assert_eq!(parse("1 2;").unwrap_err(), "expect token Semicolon but 2");
    assert_eq!(parse("+1;").unwrap_err(), "invalid token Plus");
    assert_eq!(parse("x;").unwrap_err(), "invalid token Ident(\"x\")");
    assert_eq!(parse("1 + @;").unwrap_err(), "invalid token Illegal");
    assert_eq!(parse("1 -").unwrap_err(), "invalid token EOF");
}

#[test]
fn one_token_is_passed_over_after_each_statement() {
    // The token that follows a statement's `;` is skipped before the next
    // statement starts.
    let mut p = setup("1; ;2;");
    let program = p.parse_program().unwrap();
    assert_eq!(
        program.statements,
        vec![
            Statement::Expression(Box::new(ExpressionStatement { expression: lit(1) })),
            Statement::Expression(Box::new(ExpressionStatement { expression: lit(2) })),
        ]
    );
    assert_eq!(parse("1; 2;").unwrap_err(), "invalid token Semicolon");
}

use std::rc::Rc;

use ankara::ast;
use ankara::ast::{Expression, Operator, VariableDeclaration};
use ankara::lexer::Peekable;
use ankara::parser::{parse, parse_expression, parse_statement, parse_variable_declaration};
use ankara::precedence::Precedence;

#[test]
fn test_parse() {
    let mut lexer = Peekable::new("let x = 1;");
    let program = parse(&mut lexer).unwrap();
    assert_eq!(
        program,
        ast::Program {
            statements: vec![ast::Statement::VariableDeclaration(ast::VariableDeclaration {
                name: "x".to_string(),
                value: ast::Expression::NumberLiteral(ast::NumberLiteral { value: 1 }),
            })],
        }
    );
}

#[test]
fn test_infix_expression() {
    let mut lexer = Peekable::new("1 + 2;");
    let expression = parse_expression(&mut lexer, Precedence::Lowest).unwrap();
    assert_eq!(
        expression,
        Expression::InfixExpression(Box::new(ast::InfixExpression {
            left: Expression::NumberLiteral(ast::NumberLiteral { value: 1 }),
            operator: Operator::Plus,
            right: Expression::NumberLiteral(ast::NumberLiteral { value: 2 }),
        }))
    );

    let mut lexer = Peekable::new("1 + 2 * 3;");
    let expression = parse_expression(&mut lexer, Precedence::Lowest).unwrap();
    assert_eq!(
        expression,
        Expression::InfixExpression(Box::new(ast::InfixExpression {
            left: Expression::NumberLiteral(ast::NumberLiteral { value: 1 }),
            operator: Operator::Plus,
            right: Expression::InfixExpression(Box::new(ast::InfixExpression {
                left: Expression::NumberLiteral(ast::NumberLiteral { value: 2 }),
                operator: Operator::Asterisk,
                right: Expression::NumberLiteral(ast::NumberLiteral { value: 3 }),
            })),
        }))
    );

    let mut lexer = Peekable::new("1 * 2 + 3;");
    let expression = parse_expression(&mut lexer, Precedence::Lowest).unwrap();
    assert_eq!(
        expression,
        Expression::InfixExpression(Box::new(ast::InfixExpression {
            left: Expression::InfixExpression(Box::new(ast::InfixExpression {
                left: Expression::NumberLiteral(ast::NumberLiteral { value: 1 }),
                operator: Operator::Asterisk,
                right: Expression::NumberLiteral(ast::NumberLiteral { value: 2 }),
            })),
            operator: Operator::Plus,
            right: Expression::NumberLiteral(ast::NumberLiteral { value: 3 }),
        }))
    );
}

#[test]
fn test_parse_identifier() {
    let mut lexer = Peekable::new("x;");
    let expression = parse_expression(&mut lexer, Precedence::Lowest).unwrap();
    assert_eq!(expression, Expression::Identifier(ast::Identifier { value: "x".to_string() }));
}

#[test]
fn test_parse_multiple_statements() {
    let mut lexer = Peekable::new(
        "\
        let x = 1;\
        let y = 2;\
        x + y;\
    ",
    );
    let program = parse(&mut lexer).unwrap();
    assert_eq!(
        program,
        ast::Program {
            statements: vec![
                ast::Statement::VariableDeclaration(ast::VariableDeclaration {
                    name: "x".to_string(),
                    value: ast::Expression::NumberLiteral(ast::NumberLiteral { value: 1 }),
                }),
                ast::Statement::VariableDeclaration(ast::VariableDeclaration {
                    name: "y".to_string(),
                    value: ast::Expression::NumberLiteral(ast::NumberLiteral { value: 2 }),
                }),
                ast::Statement::Expression(ast::Expression::InfixExpression(Box::new(ast::InfixExpression {
                    left: ast::Expression::Identifier(ast::Identifier { value: "x".to_string() }),
                    operator: Operator::Plus,
                    right: ast::Expression::Identifier(ast::Identifier { value: "y".to_string() }),
                })))
            ],
        }
    );
}

#[test]
fn test_parse_function_expression() {
    let mut lexer = Peekable::new(
        "\
        let a = fn(x, y) {\
            x + y;\
        };\
    ",
    );
    let variable_declaration = parse_variable_declaration(&mut lexer).unwrap();
    assert_eq!(
        variable_declaration,
        VariableDeclaration {
            name: "a".to_string(),
            value: Expression::FunctionLiteral(Rc::new(ast::FunctionLiteral {
                parameters: vec![
                    ast::Identifier { value: "x".to_string() },
                    ast::Identifier { value: "y".to_string() }
                ],
                body: ast::BlockExpression {
                    statements: vec![ast::Statement::Expression(ast::Expression::InfixExpression(Box::new(
                        ast::InfixExpression {
                            left: ast::Expression::Identifier(ast::Identifier { value: "x".to_string() }),
                            operator: Operator::Plus,
                            right: ast::Expression::Identifier(ast::Identifier { value: "y".to_string() }),
                        }
                    )))],
                },
            })),
        }
    )
}

#[test]
fn test_parse_call_expression() {
    let mut lexer = Peekable::new(
        "\
        add(1, 2);\
    ",
    );
    let expression = parse_expression(&mut lexer, Precedence::Lowest).unwrap();
    assert_eq!(
        expression,
        Expression::CallExpression(Box::new(ast::CallExpression {
            left: ast::Expression::Identifier(ast::Identifier { value: "add".to_string() }),
            arguments: vec![
                ast::Expression::NumberLiteral(ast::NumberLiteral { value: 1 }),
                ast::Expression::NumberLiteral(ast::NumberLiteral { value: 2 }),
            ],
        }))
    );
}

#[test]
fn test_parse_if_expression() {
    let mut lexer = Peekable::new(
        "\
        if (x < y) {\
            x;\
        } else {\
            y;\
        }\
        ",
    );
    let expression = parse_expression(&mut lexer, Precedence::Lowest).unwrap();
    assert_eq!(
        expression,
        Expression::IfExpression(Box::new(ast::IfExpression {
            condition: ast::Expression::InfixExpression(Box::new(ast::InfixExpression {
                left: ast::Expression::Identifier(ast::Identifier { value: "x".to_string() }),
                operator: Operator::LessThan,
                right: ast::Expression::Identifier(ast::Identifier { value: "y".to_string() }),
            })),
            consequence: ast::BlockExpression {
                statements: vec![ast::Statement::Expression(ast::Expression::Identifier(ast::Identifier {
                    value: "x".to_string(),
                }))],
            },
            alternative: Some(ast::BlockExpression {
                statements: vec![ast::Statement::Expression(ast::Expression::Identifier(ast::Identifier {
                    value: "y".to_string(),
                }))],
            }),
        }))
    );
}

#[test]
fn test_parse_array() {
    let mut lexer = Peekable::new(
        "\
        [1, 2, 3, myKey: 4];\
    ",
    );
    let expression = parse_expression(&mut lexer, Precedence::Lowest).unwrap();
    assert_eq!(
        expression,
        Expression::ArrayLiteral(ast::ArrayLiteral {
            elements: vec![
                ast::ArrayMapValue::Value(ast::Expression::NumberLiteral(ast::NumberLiteral { value: 1 })),
                ast::ArrayMapValue::Value(ast::Expression::NumberLiteral(ast::NumberLiteral { value: 2 })),
                ast::ArrayMapValue::Value(ast::Expression::NumberLiteral(ast::NumberLiteral { value: 3 })),
                ast::ArrayMapValue::MapKeyValue(ast::MapKeyValue {
                    key: "myKey".to_string(),
                    value: ast::Expression::NumberLiteral(ast::NumberLiteral { value: 4 }),
                }),
            ],
        })
    );
}

#[test]
fn test_comment() {
    let mut lexer = Peekable::new(
        "\
        // comment
        let x = 1;
        ",
    );
    let program = parse(&mut lexer).unwrap();
    assert_eq!(
        program,
        ast::Program {
            statements: vec![ast::Statement::VariableDeclaration(ast::VariableDeclaration {
                name: "x".to_string(),
                value: ast::Expression::NumberLiteral(ast::NumberLiteral { value: 1 }),
            })],
        }
    );
}

#[test]
fn parse_trailing_expression_is_block_return() {
    let mut lexer = Peekable::new("x + 1");
    let statement = parse_statement(&mut lexer).unwrap();
    assert!(matches!(statement, ast::Statement::BlockReturnStatement(_)));
}

#[test]
fn parse_let_requires_semicolon() {
    let mut lexer = Peekable::new("let x = 1");
    let error = parse(&mut lexer).unwrap_err();
    assert_eq!(error.message, "expected semicolon");
}

#[test]
fn parse_number_overflow_is_an_error() {
    let mut lexer = Peekable::new("let x = 2147483648;");
    let error = parse(&mut lexer).unwrap_err();
    assert_eq!(error.message, "number out of range");
    let mut lexer = Peekable::new("let x = 2147483647;");
    assert!(parse(&mut lexer).is_ok());
}

#[test]
fn parse_unexpected_token() {
    let mut lexer = Peekable::new("let x = );");
    let error = parse(&mut lexer).unwrap_err();
    assert_eq!(error.message, "unexpected token");
}

#[test]
fn parse_assignment_and_string_literal() {
    let mut lexer = Peekable::new("x = \"ab\";");
    let expression = parse_expression(&mut lexer, Precedence::Lowest).unwrap();
    assert_eq!(
        expression,
        Expression::Assign(Box::new(ast::Assign {
            left: Expression::Identifier(ast::Identifier { value: "x".to_string() }),
            right: Expression::StringLiteral(ast::StringLiteral { value: "ab".to_string() }),
        }))
    );
}

#[test]
fn parse_empty_program() {
    let mut lexer = Peekable::new("");
    let program = parse(&mut lexer).unwrap();
    assert!(program.statements.is_empty());
}

#[test]
fn parse_let_without_assign_names_the_token() {
    let mut lexer = Peekable::new("let x 1;");
    assert_eq!(parse(&mut lexer).unwrap_err().message, "expected assign after x but got Number");
    let mut lexer = Peekable::new("let x");
    assert_eq!(parse(&mut lexer).unwrap_err().message, "expected assign");
}

#[test]
fn expression_description() {
    let mut lexer = Peekable::new("f(1 + 2 * x)[\"k\"];");
    let expression = parse_expression(&mut lexer, Precedence::Lowest).unwrap();
    assert_eq!(expression.to_string(), "element access callExpression identifier f");
    let mut lexer = Peekable::new("1 + 2 * x;");
    let expression = parse_expression(&mut lexer, Precedence::Lowest).unwrap();
    assert_eq!(expression.to_string(), "number Literal 1+number Literal 2*identifier x");
}

#[test]
fn parse_switch_with_default_and_call_arguments() {
    let mut lexer = Peekable::new("switch (f(a, b)) { case 1: { 2 } default: { 3 } }");
    let expression = parse_expression(&mut lexer, Precedence::Lowest).unwrap();
    match expression {
        Expression::SwitchExpression(x) => {
            assert_eq!(x.cases.len(), 1);
            assert!(x.default.is_some());
            match &x.expression {
                Expression::CallExpression(c) => assert_eq!(c.arguments.len(), 2),
                _ => panic!("expected a call"),
            }
        }
        _ => panic!("expected a switch"),
    }
}

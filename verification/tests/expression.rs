use rust_sql::ast::{BinaryOperator, Expression, Literal, UnaryOperator};
use rust_sql::expression::parse_expression;

#[test]
fn test_parse_string_literal() {
    let expr = "'hello'";
    let result = parse_expression(expr);
    assert!(result.is_ok());
    assert_eq!(
        result.unwrap(),
        Expression::Literal(Literal::String("hello".to_string()))
    );
}

#[test]
fn test_parse_number_literal() {
    let expr = "42";
    let result = parse_expression(expr);
    assert!(result.is_ok());
    assert_eq!(result.unwrap(), Expression::Literal(Literal::Number(42)));
}

#[test]
fn test_parse_float_literal() {
    let expr = "3.14";
    let result = parse_expression(expr);
    assert!(result.is_ok());
    match result.unwrap() {
        Expression::Literal(Literal::Float(text)) => {
            assert_eq!(text.parse::<f64>().unwrap(), 3.14);
        }
        other => panic!("not a float literal: {:?}", other),
    }
}

#[test]
fn test_parse_boolean_literal_true() {
    let expr = "TRUE";
    let result = parse_expression(expr);
    assert!(result.is_ok());
    assert_eq!(result.unwrap(), Expression::Literal(Literal::Boolean(true)));
}

#[test]
fn test_parse_boolean_literal_false() {
    let expr = "FALSE";
    let result = parse_expression(expr);
    assert!(result.is_ok());
    assert_eq!(
        result.unwrap(),
        Expression::Literal(Literal::Boolean(false))
    );
}

#[test]
fn test_parse_null_literal() {
    let expr = "NULL";
    let result = parse_expression(expr);
    assert!(result.is_ok());
    assert_eq!(result.unwrap(), Expression::Literal(Literal::Null));
}

#[test]
fn test_parse_column_reference() {
    let expr = "name";
    let result = parse_expression(expr);
    assert!(result.is_ok());
    assert_eq!(result.unwrap(), Expression::Column("name".to_string()));
}

#[test]
fn test_parse_equal_comparison() {
    let expr = "name = 'John'";
    let result = parse_expression(expr);
    assert!(result.is_ok());
    assert_eq!(
        result.unwrap(),
        Expression::Binary {
            left: Box::new(Expression::Column("name".to_string())),
            operator: BinaryOperator::Equal,
            right: Box::new(Expression::Literal(Literal::String("John".to_string())))
        }
    );
}

#[test]
fn test_parse_not_equal_comparison() {
    let expr = "age != 25";
    let result = parse_expression(expr);
    assert!(result.is_ok());
    assert_eq!(
        result.unwrap(),
        Expression::Binary {
            left: Box::new(Expression::Column("age".to_string())),
            operator: BinaryOperator::NotEqual,
            right: Box::new(Expression::Literal(Literal::Number(25)))
        }
    );
}

#[test]
fn test_parse_less_than_comparison() {
    let expr = "score < 100";
    let result = parse_expression(expr);
    assert!(result.is_ok());
    assert_eq!(
        result.unwrap(),
        Expression::Binary {
            left: Box::new(Expression::Column("score".to_string())),
            operator: BinaryOperator::LessThan,
            right: Box::new(Expression::Literal(Literal::Number(100)))
        }
    );
}

#[test]
fn test_parse_and_expression() {
    let expr = "age > 18 AND score < 100";
    let result = parse_expression(expr);
    assert!(result.is_ok());
    assert_eq!(
        result.unwrap(),
        Expression::Binary {
            left: Box::new(Expression::Binary {
                left: Box::new(Expression::Column("age".to_string())),
                operator: BinaryOperator::GreaterThan,
                right: Box::new(Expression::Literal(Literal::Number(18)))
            }),
            operator: BinaryOperator::And,
            right: Box::new(Expression::Binary {
                left: Box::new(Expression::Column("score".to_string())),
                operator: BinaryOperator::LessThan,
                right: Box::new(Expression::Literal(Literal::Number(100)))
            })
        }
    );
}

#[test]
fn test_parse_or_expression() {
    let expr = "status = 'active' OR status = 'pending'";
    let result = parse_expression(expr);
    assert!(result.is_ok());
    assert_eq!(
        result.unwrap(),
        Expression::Binary {
            left: Box::new(Expression::Binary {
                left: Box::new(Expression::Column("status".to_string())),
                operator: BinaryOperator::Equal,
                right: Box::new(Expression::Literal(Literal::String("active".to_string())))
            }),
            operator: BinaryOperator::Or,
            right: Box::new(Expression::Binary {
                left: Box::new(Expression::Column("status".to_string())),
                operator: BinaryOperator::Equal,
                right: Box::new(Expression::Literal(Literal::String("pending".to_string())))
            })
        }
    );
}

#[test]
fn test_parse_not_expression() {
    let expr = "NOT active";
    let result = parse_expression(expr);
    assert!(result.is_ok());
    assert_eq!(
        result.unwrap(),
        Expression::Unary {
            operator: UnaryOperator::Not,
            operand: Box::new(Expression::Column("active".to_string()))
        }
    );
}

#[test]
fn test_parse_arithmetic_addition() {
    let expr = "price + tax";
    let result = parse_expression(expr);
    assert!(result.is_ok());
    assert_eq!(
        result.unwrap(),
        Expression::Binary {
            left: Box::new(Expression::Column("price".to_string())),
            operator: BinaryOperator::Add,
            right: Box::new(Expression::Column("tax".to_string()))
        }
    );
}

#[test]
fn test_parse_arithmetic_subtraction() {
    let expr = "total - discount";
    let result = parse_expression(expr);
    assert!(result.is_ok());
    assert_eq!(
        result.unwrap(),
        Expression::Binary {
            left: Box::new(Expression::Column("total".to_string())),
            operator: BinaryOperator::Subtract,
            right: Box::new(Expression::Column("discount".to_string()))
        }
    );
}

#[test]
fn test_parse_arithmetic_multiplication() {
    let expr = "quantity * price";
    let result = parse_expression(expr);
    assert!(result.is_ok());
    assert_eq!(
        result.unwrap(),
        Expression::Binary {
            left: Box::new(Expression::Column("quantity".to_string())),
            operator: BinaryOperator::Multiply,
            right: Box::new(Expression::Column("price".to_string()))
        }
    );
}

#[test]
fn test_parse_arithmetic_division() {
    let expr = "total / count";
    let result = parse_expression(expr);
    assert!(result.is_ok());
    assert_eq!(
        result.unwrap(),
        Expression::Binary {
            left: Box::new(Expression::Column("total".to_string())),
            operator: BinaryOperator::Divide,
            right: Box::new(Expression::Column("count".to_string()))
        }
    );
}

#[test]
fn test_parse_unary_minus() {
    let expr = "-amount";
    let result = parse_expression(expr);
    assert!(result.is_ok());
    assert_eq!(
        result.unwrap(),
        Expression::Unary {
            operator: UnaryOperator::Minus,
            operand: Box::new(Expression::Column("amount".to_string()))
        }
    );
}

#[test]
fn test_parse_greater_than_or_equal() {
    let expr = "score >= 80";
    let result = parse_expression(expr);
    if result.is_err() {
        println!("Parse error: {:?}", result.as_ref().err());
    }
    assert!(result.is_ok());
    let parsed = result.unwrap();
    println!("Parsed result: {:?}", parsed);
    assert_eq!(
        parsed,
        Expression::Binary {
            left: Box::new(Expression::Column("score".to_string())),
            operator: BinaryOperator::GreaterThanOrEqual,
            right: Box::new(Expression::Literal(Literal::Number(80)))
        }
    );
}

#[test]
fn test_parse_complex_expression() {
    let expr = "(age > 18 AND score >= 80) OR status = 'vip'";
    let result = parse_expression(expr);
    if result.is_err() {
        println!("Parse error: {:?}", result.as_ref().err());
    }
    assert!(result.is_ok());
}

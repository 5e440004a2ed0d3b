use rust_sql::ast::{BinaryOperator, Expression, Literal, UnaryOperator};
use rust_sql::error::{ErrorKind, ParseError};
use rust_sql::expression::{build_expression, parse_expression, unquote, ExpressionParser};
use rust_sql::number::read_numeral;
use rust_sql::rule::Rule;
use rust_sql::tree::Pair;

fn column(name: &str) -> Expression {
    Expression::Column(name.to_string())
}

fn number(value: i64) -> Expression {
    Expression::Literal(Literal::Number(value))
}

fn binary(left: Expression, operator: BinaryOperator, right: Expression) -> Expression {
    Expression::Binary { left: Box::new(left), operator, right: Box::new(right) }
}

#[test]
fn every_binary_operator_is_read() {
    let cases = [
        ("a = b", BinaryOperator::Equal),
        ("a != b", BinaryOperator::NotEqual),
        ("a < b", BinaryOperator::LessThan),
        ("a <= b", BinaryOperator::LessThanOrEqual),
        ("a > b", BinaryOperator::GreaterThan),
        ("a >= b", BinaryOperator::GreaterThanOrEqual),
        ("a AND b", BinaryOperator::And),
        ("a OR b", BinaryOperator::Or),
        ("a + b", BinaryOperator::Add),
        ("a - b", BinaryOperator::Subtract),
        ("a * b", BinaryOperator::Multiply),
        ("a / b", BinaryOperator::Divide),
    ];
    for (text, operator) in cases {
        assert_eq!(parse_expression(text).unwrap(), binary(column("a"), operator, column("b")));
    }
}

#[test]
fn every_level_folds_to_the_left() {
    let cases = [
        ("a OR b OR c", BinaryOperator::Or, BinaryOperator::Or),
        ("a AND b AND c", BinaryOperator::And, BinaryOperator::And),
        ("a = b != c", BinaryOperator::Equal, BinaryOperator::NotEqual),
        ("a < b >= c", BinaryOperator::LessThan, BinaryOperator::GreaterThanOrEqual),
        ("a - b + c", BinaryOperator::Subtract, BinaryOperator::Add),
        ("a / b * c", BinaryOperator::Divide, BinaryOperator::Multiply),
    ];
    for (text, first, second) in cases {
        assert_eq!(
            parse_expression(text).unwrap(),
            binary(binary(column("a"), first, column("b")), second, column("c"))
        );
    }
}

#[test]
fn the_ladder_orders_the_levels() {
    assert_eq!(
        parse_expression("a OR b AND c = d < e + f * g").unwrap(),
        binary(
            column("a"),
            BinaryOperator::Or,
            binary(
                column("b"),
                BinaryOperator::And,
                binary(
                    column("c"),
                    BinaryOperator::Equal,
                    binary(
                        column("d"),
                        BinaryOperator::LessThan,
                        binary(
                            column("e"),
                            BinaryOperator::Add,
                            binary(column("f"), BinaryOperator::Multiply, column("g"))
                        )
                    )
                )
            )
        )
    );
    assert_eq!(
        parse_expression("a * b + c < d = e AND f OR g").unwrap(),
        binary(
            binary(
                binary(
                    binary(
                        binary(
                            binary(column("a"), BinaryOperator::Multiply, column("b")),
                            BinaryOperator::Add,
                            column("c")
                        ),
                        BinaryOperator::LessThan,
                        column("d")
                    ),
                    BinaryOperator::Equal,
                    column("e")
                ),
                BinaryOperator::And,
                column("f")
            ),
            BinaryOperator::Or,
            column("g")
        )
    );
}

#[test]
fn the_complex_expression_has_its_structure() {
    assert_eq!(
        parse_expression("(age > 18 AND score >= 80) OR status = 'vip'").unwrap(),
        binary(
            binary(
                binary(column("age"), BinaryOperator::GreaterThan, number(18)),
                BinaryOperator::And,
                binary(column("score"), BinaryOperator::GreaterThanOrEqual, number(80))
            ),
            BinaryOperator::Or,
            binary(
                column("status"),
                BinaryOperator::Equal,
                Expression::Literal(Literal::String("vip".to_string()))
            )
        )
    );
}

#[test]
fn prefix_operators_nest_and_bind_tightest() {
    assert_eq!(
        parse_expression("NOT NOT a").unwrap(),
        Expression::Unary {
            operator: UnaryOperator::Not,
            operand: Box::new(Expression::Unary {
                operator: UnaryOperator::Not,
                operand: Box::new(column("a"))
            })
        }
    );
    assert_eq!(
        parse_expression("- a * b").unwrap(),
        binary(
            Expression::Unary { operator: UnaryOperator::Minus, operand: Box::new(column("a")) },
            BinaryOperator::Multiply,
            column("b")
        )
    );
    assert_eq!(
        parse_expression("a - -b").unwrap(),
        binary(
            column("a"),
            BinaryOperator::Subtract,
            Expression::Unary { operator: UnaryOperator::Minus, operand: Box::new(column("b")) }
        )
    );
    assert_eq!(
        parse_expression("NOT a = b").unwrap(),
        binary(
            Expression::Unary { operator: UnaryOperator::Not, operand: Box::new(column("a")) },
            BinaryOperator::Equal,
            column("b")
        )
    );
}

#[test]
fn literals_in_any_case() {
    assert_eq!(parse_expression("true").unwrap(), Expression::Literal(Literal::Boolean(true)));
    assert_eq!(parse_expression("False").unwrap(), Expression::Literal(Literal::Boolean(false)));
    assert_eq!(parse_expression("null").unwrap(), Expression::Literal(Literal::Null));
    assert_eq!(parse_expression("nullable").unwrap(), column("nullable"));
    assert_eq!(
        parse_expression("''").unwrap(),
        Expression::Literal(Literal::String(String::new()))
    );
    assert_eq!(
        parse_expression("'two words'").unwrap(),
        Expression::Literal(Literal::String("two words".to_string()))
    );
}

#[test]
fn floats_keep_their_digits() {
    assert_eq!(
        parse_expression("3.14").unwrap(),
        Expression::Literal(Literal::Float("3.14".to_string()))
    );
    assert_eq!(
        parse_expression("0.50").unwrap(),
        Expression::Literal(Literal::Float("0.50".to_string()))
    );
    match parse_expression("12345678901234567890.5").unwrap() {
        Expression::Literal(Literal::Float(text)) => {
            assert_eq!(text.parse::<f64>().unwrap(), 12345678901234567890.5);
        }
        other => panic!("not a float literal: {:?}", other),
    }
    assert!(parse_expression("1.").is_err());
    assert!(parse_expression(".5").is_err());
    assert!(parse_expression("1.2.3").is_err());
}

#[test]
fn an_expression_is_read_to_its_end() {
    assert_eq!(
        parse_expression("1 +"),
        Err(ParseError { position: 3, kind: ErrorKind::Expected(Rule::PrimaryExpression) })
    );
    assert_eq!(
        parse_expression("a b"),
        Err(ParseError { position: 2, kind: ErrorKind::Expected(Rule::EndOfInput) })
    );
    assert_eq!(
        parse_expression("(a"),
        Err(ParseError { position: 2, kind: ErrorKind::Expected(Rule::RightParen) })
    );
    assert_eq!(
        parse_expression(""),
        Err(ParseError { position: 0, kind: ErrorKind::Expected(Rule::PrimaryExpression) })
    );
    assert_eq!(parse_expression("  a -- the column\n").unwrap(), column("a"));
    assert_eq!(parse_expression("((a))").unwrap(), column("a"));
}

#[test]
fn the_parse_tree_nests_the_levels() {
    let tree = ExpressionParser::parse("a + 1").unwrap();
    assert_eq!(tree.rule, Rule::Expression);
    let mut node = &tree;
    let mut rules = vec![node.rule];
    while node.rule != Rule::AdditiveExpression {
        assert_eq!(node.children.len(), 1);
        node = &node.children[0];
        rules.push(node.rule);
    }
    assert_eq!(
        rules,
        vec![
            Rule::Expression,
            Rule::OrExpression,
            Rule::AndExpression,
            Rule::EqualityExpression,
            Rule::ComparisonExpression,
            Rule::AdditiveExpression
        ]
    );
    assert_eq!(node.children.len(), 3);
    assert_eq!(node.children[0].rule, Rule::MultiplicativeExpression);
    assert_eq!(node.children[1], Pair { rule: Rule::Add, text: "+".to_string(), children: vec![] });
    assert_eq!(node.children[2].rule, Rule::MultiplicativeExpression);
    assert_eq!(build_expression(tree), binary(column("a"), BinaryOperator::Add, number(1)));
}

#[test]
fn keyword_nodes_hold_the_spelling() {
    let tree = ExpressionParser::parse("not a").unwrap();
    let mut node = &tree;
    while node.rule != Rule::UnaryExpression {
        node = &node.children[0];
    }
    assert_eq!(
        node.children[0],
        Pair { rule: Rule::NotKeyword, text: "NOT".to_string(), children: vec![] }
    );
}

#[test]
fn build_expression_reads_a_tree_made_by_hand() {
    let leaf = |rule: Rule, text: &str| Pair { rule, text: text.to_string(), children: vec![] };
    let node = |rule: Rule, children: Vec<Pair>| Pair { rule, text: String::new(), children };
    let operand = |name: &str| {
        node(
            Rule::UnaryExpression,
            vec![node(Rule::PrimaryExpression, vec![leaf(Rule::Identifier, name)])],
        )
    };
    let chain = node(
        Rule::MultiplicativeExpression,
        vec![
            operand("a"),
            leaf(Rule::Divide, "/"),
            operand("b"),
            leaf(Rule::Multiply, "*"),
            operand("c"),
        ],
    );
    assert_eq!(
        build_expression(chain),
        binary(
            binary(column("a"), BinaryOperator::Divide, column("b")),
            BinaryOperator::Multiply,
            column("c")
        )
    );
    assert_eq!(
        build_expression(leaf(Rule::StringLiteral, "'it'")),
        Expression::Literal(Literal::String("it".to_string()))
    );
}

#[test]
fn unquote_drops_the_first_and_the_last_character() {
    assert_eq!(unquote("'abc'"), "abc");
    assert_eq!(unquote("''"), "");
    assert_eq!(unquote("'ユ'"), "ユ");
    assert_eq!(unquote("'"), "");
    assert_eq!(unquote(""), "");
}

#[test]
fn read_numeral_reads_digits_up_to_the_limit() {
    assert_eq!(read_numeral("0", 10), Some(0));
    assert_eq!(read_numeral("10", 10), Some(10));
    assert_eq!(read_numeral("11", 10), None);
    assert_eq!(read_numeral("0010", 10), Some(10));
    assert_eq!(read_numeral("", 10), None);
    assert_eq!(read_numeral("1a", 10), None);
    assert_eq!(read_numeral("-1", 10), None);
    assert_eq!(read_numeral("18446744073709551615", u64::MAX), Some(u64::MAX));
    assert_eq!(read_numeral("18446744073709551616", u64::MAX), None);
    assert_eq!(read_numeral("99999999999999999999999", u64::MAX), None);
    assert_eq!(read_numeral("4096", u64::MAX), Some(4096));
}

use rust_sql::ast::{
    BinaryOperator, Expression, GroupBy, Literal, OrderBy, OrderDirection, Statement, UnaryOperator,
};
use rust_sql::error::{ErrorKind, ParseError};
use rust_sql::expression::parse_expression;
use rust_sql::parser::parse_sql;
use rust_sql::rule::Rule;

fn column(name: &str) -> Expression {
    Expression::Column(name.to_string())
}

fn number(value: i64) -> Expression {
    Expression::Literal(Literal::Number(value))
}

fn binary(left: Expression, operator: BinaryOperator, right: Expression) -> Expression {
    Expression::Binary { left: Box::new(left), operator, right: Box::new(right) }
}

fn select(table: &str) -> Statement {
    Statement::Select {
        table: table.to_string(),
        where_clause: None,
        order_by: None,
        group_by: None,
        limit: None,
    }
}

fn where_of(sql: &str) -> Expression {
    match parse_sql(sql) {
        Ok(Statement::Select { where_clause: Some(e), .. }) => e,
        other => panic!("no WHERE clause: {:?}", other),
    }
}

fn error_of(sql: &str) -> ParseError {
    match parse_sql(sql) {
        Err(error) => error,
        Ok(statement) => panic!("parsed: {:?}", statement),
    }
}

#[test]
fn keywords_in_any_case_give_the_same_statement() {
    let lower = parse_sql("select * from users;").unwrap();
    let upper = parse_sql("SELECT * FROM users;").unwrap();
    let mixed = parse_sql("SeLeCt * fRoM users;").unwrap();
    assert_eq!(lower, upper);
    assert_eq!(mixed, upper);
    assert_eq!(upper, select("users"));
}

#[test]
fn identifiers_keep_their_case() {
    assert_eq!(parse_sql("select * from Users;").unwrap(), select("Users"));
    assert_ne!(parse_sql("select * from Users;").unwrap(), select("users"));
}

#[test]
fn white_space_and_comments_do_not_change_the_statement() {
    let plain = parse_sql("SELECT * FROM users;").unwrap();
    assert_eq!(parse_sql("  SELECT   *   FROM   users  ;  ").unwrap(), plain);
    assert_eq!(parse_sql("-- comment\nSELECT * FROM users;").unwrap(), plain);
    assert_eq!(parse_sql("SELECT -- all of it\n*\tFROM\r\nusers -- the table\n;").unwrap(), plain);
    assert_eq!(parse_sql("SELECT*FROM users;-- done").unwrap(), plain);
}

#[test]
fn subtraction_folds_to_the_left() {
    let e = where_of("SELECT * FROM t WHERE a - b - c;");
    assert_eq!(
        e,
        binary(
            binary(column("a"), BinaryOperator::Subtract, column("b")),
            BinaryOperator::Subtract,
            column("c")
        )
    );
    assert_ne!(
        e,
        binary(
            column("a"),
            BinaryOperator::Subtract,
            binary(column("b"), BinaryOperator::Subtract, column("c"))
        )
    );
}

#[test]
fn multiplication_binds_tighter_than_addition_and_equality() {
    assert_eq!(
        where_of("SELECT * FROM t WHERE 1 + 2 * 3 = 7;"),
        binary(
            binary(
                number(1),
                BinaryOperator::Add,
                binary(number(2), BinaryOperator::Multiply, number(3))
            ),
            BinaryOperator::Equal,
            number(7)
        )
    );
}

#[test]
fn parentheses_come_first() {
    assert_eq!(
        where_of("SELECT * FROM t WHERE (1 + 2) * 3 = 9;"),
        binary(
            binary(
                binary(number(1), BinaryOperator::Add, number(2)),
                BinaryOperator::Multiply,
                number(3)
            ),
            BinaryOperator::Equal,
            number(9)
        )
    );
}

#[test]
fn order_by_defaults_to_ascending() {
    let expected = Statement::Select {
        table: "users".to_string(),
        where_clause: None,
        order_by: Some(OrderBy { column: "name".to_string(), direction: OrderDirection::Asc }),
        group_by: None,
        limit: None,
    };
    assert_eq!(parse_sql("SELECT * FROM users ORDER BY name;").unwrap(), expected);
    assert_eq!(parse_sql("SELECT * FROM users ORDER BY name ASC;").unwrap(), expected);
}

#[test]
fn order_by_descending() {
    assert_eq!(
        parse_sql("SELECT * FROM users ORDER BY name desc;").unwrap(),
        Statement::Select {
            table: "users".to_string(),
            where_clause: None,
            order_by: Some(OrderBy { column: "name".to_string(), direction: OrderDirection::Desc }),
            group_by: None,
            limit: None,
        }
    );
}

#[test]
fn select_with_every_clause() {
    assert_eq!(
        parse_sql(
            "SELECT * FROM orders WHERE total > 10 GROUP BY region, year \
             ORDER BY region DESC LIMIT 25;"
        )
        .unwrap(),
        Statement::Select {
            table: "orders".to_string(),
            where_clause: Some(binary(column("total"), BinaryOperator::GreaterThan, number(10))),
            order_by: Some(OrderBy {
                column: "region".to_string(),
                direction: OrderDirection::Desc
            }),
            group_by: Some(GroupBy { columns: vec!["region".to_string(), "year".to_string()] }),
            limit: Some(25),
        }
    );
}

#[test]
fn clauses_may_be_left_out_one_by_one() {
    assert_eq!(
        parse_sql("SELECT * FROM t GROUP BY a LIMIT 1;").unwrap(),
        Statement::Select {
            table: "t".to_string(),
            where_clause: None,
            order_by: None,
            group_by: Some(GroupBy { columns: vec!["a".to_string()] }),
            limit: Some(1),
        }
    );
    assert_eq!(
        parse_sql("SELECT * FROM t LIMIT 0;").unwrap(),
        Statement::Select {
            table: "t".to_string(),
            where_clause: None,
            order_by: None,
            group_by: None,
            limit: Some(0),
        }
    );
}

#[test]
fn clauses_out_of_order_are_rejected() {
    assert_eq!(
        error_of("SELECT * FROM t LIMIT 1 WHERE a;"),
        ParseError { position: 24, kind: ErrorKind::Expected(Rule::Semicolon) }
    );
    assert!(parse_sql("SELECT * FROM t ORDER BY a GROUP BY b;").is_err());
    assert!(parse_sql("SELECT * FROM t WHERE a WHERE b;").is_err());
}

#[test]
fn limit_takes_the_whole_range_of_u64() {
    assert_eq!(
        parse_sql("SELECT * FROM t LIMIT 18446744073709551615;").unwrap(),
        Statement::Select {
            table: "t".to_string(),
            where_clause: None,
            order_by: None,
            group_by: None,
            limit: Some(18446744073709551615),
        }
    );
    assert_eq!(
        error_of("SELECT * FROM t LIMIT 18446744073709551616;"),
        ParseError { position: 22, kind: ErrorKind::NumberTooLarge }
    );
    assert_eq!(
        error_of("SELECT * FROM t LIMIT many;"),
        ParseError { position: 22, kind: ErrorKind::Expected(Rule::NumberLiteral) }
    );
}

#[test]
fn integer_literals_take_the_range_of_i64() {
    assert_eq!(parse_expression("9223372036854775807").unwrap(), number(9223372036854775807));
    assert_eq!(parse_expression("007").unwrap(), number(7));
    assert_eq!(
        parse_expression("9223372036854775808"),
        Err(ParseError { position: 0, kind: ErrorKind::NumberTooLarge })
    );
    assert_eq!(
        parse_expression("-5").unwrap(),
        Expression::Unary { operator: UnaryOperator::Minus, operand: Box::new(number(5)) }
    );
}

#[test]
fn update_and_delete_take_a_condition() {
    assert_eq!(
        parse_sql("UPDATE users SET name = 'x' WHERE id = 3;").unwrap(),
        Statement::Update {
            table: "users".to_string(),
            set: vec![("name".to_string(), "x".to_string())],
            where_clause: Some(binary(column("id"), BinaryOperator::Equal, number(3))),
        }
    );
    assert_eq!(
        parse_sql("DELETE FROM users WHERE NOT active;").unwrap(),
        Statement::Delete {
            table: "users".to_string(),
            where_clause: Some(Expression::Unary {
                operator: UnaryOperator::Not,
                operand: Box::new(column("active"))
            }),
        }
    );
    assert!(parse_sql("DELETE FROM users ORDER BY id;").is_err());
    assert!(parse_sql("UPDATE users SET name = 'x' LIMIT 1;").is_err());
}

#[test]
fn empty_lists_are_rejected() {
    assert_eq!(
        error_of("INSERT INTO users VALUES ();"),
        ParseError { position: 26, kind: ErrorKind::Expected(Rule::StringLiteral) }
    );
    assert_eq!(
        error_of("UPDATE users SET ;"),
        ParseError { position: 17, kind: ErrorKind::Expected(Rule::Identifier) }
    );
    assert!(parse_sql("SELECT * FROM t GROUP BY ;").is_err());
}

#[test]
fn values_are_string_literals_only() {
    assert!(parse_sql("INSERT INTO users VALUES (1);").is_err());
    assert!(parse_sql("INSERT INTO users VALUES (NULL);").is_err());
    assert!(parse_sql("UPDATE users SET age = 3;").is_err());
    assert!(parse_sql("INSERT INTO users VALUES ('a',);").is_err());
}

#[test]
fn a_quote_inside_a_value_is_rejected() {
    assert_eq!(
        error_of("INSERT INTO users VALUES ('foo'bar');"),
        ParseError { position: 34, kind: ErrorKind::UnterminatedString }
    );
    assert_eq!(
        error_of("INSERT INTO users VALUES ('foo'bar);"),
        ParseError { position: 31, kind: ErrorKind::Expected(Rule::RightParen) }
    );
    assert!(parse_sql("INSERT INTO users VALUES ('it\\'s');").is_err());
}

#[test]
fn text_outside_ascii_is_kept() {
    assert_eq!(
        parse_sql("INSERT INTO users VALUES ('ユーザー');").unwrap(),
        Statement::Insert { table: "users".to_string(), values: vec!["ユーザー".to_string()] }
    );
    assert_eq!(
        parse_expression("'naïve — ユ'").unwrap(),
        Expression::Literal(Literal::String("naïve — ユ".to_string()))
    );
    assert_eq!(
        error_of("SELECT * FROM ユーザー;"),
        ParseError { position: 14, kind: ErrorKind::UnexpectedCharacter }
    );
}

#[test]
fn error_offsets_count_characters() {
    assert_eq!(
        error_of("INSERT INTO t VALUES ('ユーザー') x"),
        ParseError { position: 30, kind: ErrorKind::Expected(Rule::Semicolon) }
    );
}

#[test]
fn an_unfinished_expression_is_rejected() {
    assert_eq!(
        error_of("SELECT * FROM t WHERE 1 + ;"),
        ParseError { position: 26, kind: ErrorKind::Expected(Rule::PrimaryExpression) }
    );
    assert_eq!(
        error_of("SELECT * FROM t WHERE (1 + 2;"),
        ParseError { position: 28, kind: ErrorKind::Expected(Rule::RightParen) }
    );
    assert!(parse_sql("SELECT * FROM t WHERE ;").is_err());
    assert!(parse_sql("SELECT * FROM t WHERE 1 + 2);").is_err());
}

#[test]
fn a_statement_ends_with_a_semicolon() {
    assert_eq!(
        error_of("SELECT * FROM users"),
        ParseError { position: 19, kind: ErrorKind::Expected(Rule::Semicolon) }
    );
    assert_eq!(
        error_of("SELECT * FROM users; SELECT * FROM users;"),
        ParseError { position: 21, kind: ErrorKind::Expected(Rule::EndOfInput) }
    );
    assert_eq!(
        error_of(""),
        ParseError { position: 0, kind: ErrorKind::Expected(Rule::Statement) }
    );
    assert_eq!(
        error_of("DROP TABLE users;"),
        ParseError { position: 0, kind: ErrorKind::Expected(Rule::Statement) }
    );
}

#[test]
fn only_a_star_can_be_selected() {
    assert_eq!(
        error_of("SELECT name FROM users;"),
        ParseError { position: 7, kind: ErrorKind::Expected(Rule::Star) }
    );
}

#[test]
fn keywords_are_whole_words() {
    assert_eq!(
        where_of("SELECT * FROM t WHERE note = ordering;"),
        binary(column("note"), BinaryOperator::Equal, column("ordering"))
    );
    assert_eq!(parse_sql("SELECT * FROM fromage;").unwrap(), select("fromage"));
    assert!(parse_sql("SELECT * FROMusers;").is_err());
}

#[test]
fn keywords_are_reserved() {
    assert_eq!(
        error_of("SELECT * FROM select;"),
        ParseError { position: 14, kind: ErrorKind::Expected(Rule::Identifier) }
    );
    assert!(parse_sql("SELECT * FROM t WHERE order = 1;").is_err());
}

#[test]
fn every_lexical_error_has_its_input() {
    assert_eq!(
        error_of("SELECT * FROM t WHERE a ? b;"),
        ParseError { position: 24, kind: ErrorKind::UnexpectedCharacter }
    );
    assert_eq!(
        error_of("SELECT * FROM t WHERE a ! b;"),
        ParseError { position: 24, kind: ErrorKind::UnexpectedCharacter }
    );
    assert_eq!(
        error_of("SELECT * FROM t WHERE a = 'abc;"),
        ParseError { position: 26, kind: ErrorKind::UnterminatedString }
    );
    assert_eq!(
        error_of("SELECT * FROM t WHERE a = 1.;"),
        ParseError { position: 27, kind: ErrorKind::UnexpectedCharacter }
    );
}

#[test]
fn the_message_names_what_was_expected_and_where() {
    assert_eq!(error_of("SELECT * FROM users").message(), "expected ; at offset 19");
    assert_eq!(error_of("SELECT * users;").message(), "expected FROM at offset 9");
    assert_eq!(error_of("SELECT * FROM 1;").message(), "expected a name at offset 14");
    assert_eq!(
        error_of("SELECT * FROM t WHERE ;").message(),
        "expected an expression at offset 22"
    );
    assert_eq!(
        error_of("SELECT * FROM t WHERE a ? b;").message(),
        "unexpected character at offset 24"
    );
    assert_eq!(
        error_of("SELECT * FROM t WHERE a = 'b;").message(),
        "string literal without its closing quote at offset 26"
    );
    assert_eq!(
        error_of("SELECT * FROM t LIMIT 99999999999999999999;").message(),
        "number too large at offset 22"
    );
    assert_eq!(error_of("").message(), "expected a statement at offset 0");
    assert_eq!(
        ParseError { position: 1234567890, kind: ErrorKind::Expected(Rule::EndOfInput) }.message(),
        "expected the end of the text at offset 1234567890"
    );
}

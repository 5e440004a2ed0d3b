use rust_sql::ast::Statement;
use rust_sql::parser::parse_sql;

#[test]
fn test_parse_select_statement() {
    let sql = "SELECT * FROM users;";
    let result = parse_sql(sql);
    assert!(result.is_ok());
    assert_eq!(
        result.unwrap(),
        Statement::Select {
            table: "users".to_string(),
            where_clause: None,
            order_by: None,
            group_by: None,
            limit: None,
        }
    );
}

#[test]
fn test_parse_insert_statement() {
    let sql = "INSERT INTO users VALUES ('test_user', 'test_password');";
    let result = parse_sql(sql);
    assert!(result.is_ok());
    assert_eq!(
        result.unwrap(),
        Statement::Insert {
            table: "users".to_string(),
            values: vec!["test_user".to_string(), "test_password".to_string()]
        }
    );
}

#[test]
fn test_parse_update_statement() {
    let sql = "UPDATE users SET name = 'new_name', password = 'new_password';";
    let result = parse_sql(sql);
    assert!(result.is_ok());
    assert_eq!(
        result.unwrap(),
        Statement::Update {
            table: "users".to_string(),
            set: vec![
                ("name".to_string(), "new_name".to_string()),
                ("password".to_string(), "new_password".to_string())
            ],
            where_clause: None,
        }
    );
}

#[test]
fn test_parse_delete_statement() {
    let sql = "DELETE FROM users;";
    let result = parse_sql(sql);
    assert!(result.is_ok());
    assert_eq!(
        result.unwrap(),
        Statement::Delete {
            table: "users".to_string(),
            where_clause: None,
        }
    );
}

#[test]
fn test_parse_invalid_sql() {
    let sql = "SELECT FROM users;";
    let result = parse_sql(sql);
    assert!(result.is_err());
}

#[test]
fn test_parse_with_whitespace() {
    let sql = "  SELECT   *   FROM   users  ;  ";
    let result = parse_sql(sql);
    assert!(result.is_ok());
}

#[test]
fn test_parse_with_comment() {
    let sql = "-- This is a comment
SELECT * FROM users;";
    let result = parse_sql(sql);
    assert!(result.is_ok());
}

#[test]
fn test_parse_select_statement_lowercase() {
    let sql = "select * from users;";
    let result = parse_sql(sql);
    assert!(result.is_ok());
}

#[test]
fn test_parse_insert_single_value() {
    let sql = "INSERT INTO users VALUES ('only_one');";
    let result = parse_sql(sql);
    assert!(result.is_ok());
    assert_eq!(
        result.unwrap(),
        Statement::Insert {
            table: "users".to_string(),
            values: vec!["only_one".to_string()]
        }
    );
}

#[test]
fn test_parse_update_single_assignment() {
    let sql = "UPDATE users SET name = 'foo';";
    let result = parse_sql(sql);
    assert!(result.is_ok());
    assert_eq!(
        result.unwrap(),
        Statement::Update {
            table: "users".to_string(),
            set: vec![("name".to_string(), "foo".to_string())],
            where_clause: None,
        }
    );
}

#[test]
fn test_parse_table_name_with_underscore_and_number() {
    let sql = "SELECT * FROM user_01;";
    let result = parse_sql(sql);
    assert!(result.is_ok());
    assert_eq!(
        result.unwrap(),
        Statement::Select {
            table: "user_01".to_string(),
            where_clause: None,
            order_by: None,
            group_by: None,
            limit: None,
        }
    );
}

#[test]
fn test_parse_insert_value_with_underscore_and_number() {
    let sql = "INSERT INTO users VALUES ('foo_1', 'bar2');";
    let result = parse_sql(sql);
    assert!(result.is_ok());
    assert_eq!(
        result.unwrap(),
        Statement::Insert {
            table: "users".to_string(),
            values: vec!["foo_1".to_string(), "bar2".to_string()]
        }
    );
}

#[test]
fn test_parse_update_assignment_with_underscore_and_number() {
    let sql = "UPDATE users SET name_1 = 'foo', pass2 = 'bar';";
    let result = parse_sql(sql);
    assert!(result.is_ok());
    assert_eq!(
        result.unwrap(),
        Statement::Update {
            table: "users".to_string(),
            set: vec![
                ("name_1".to_string(), "foo".to_string()),
                ("pass2".to_string(), "bar".to_string())
            ],
            where_clause: None,
        }
    );
}

#[test]
fn test_parse_insert_empty_value_list_should_fail() {
    let sql = "INSERT INTO users VALUES ();";
    let result = parse_sql(sql);
    assert!(result.is_err());
}

#[test]
fn test_parse_update_empty_assignment_list_should_fail() {
    let sql = "UPDATE users SET ;";
    let result = parse_sql(sql);
    assert!(result.is_err());
}

#[test]
fn test_parse_insert_value_with_single_quote_should_fail() {
    let sql = "INSERT INTO users VALUES ('foo\'bar');";
    let result = parse_sql(sql);
    assert!(result.is_err());
}

#[test]
fn test_parse_insert_value_with_japanese() {
    let sql = "INSERT INTO users VALUES ('ユーザー', 'パスワード');";
    let result = parse_sql(sql);
    assert!(result.is_ok());
    assert_eq!(
        result.unwrap(),
        Statement::Insert {
            table: "users".to_string(),
            values: vec!["ユーザー".to_string(), "パスワード".to_string()]
        }
    );
}

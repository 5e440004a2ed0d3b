use rust_sql::ast::Statement;
use rust_sql::error::{ErrorKind, ParseError};
use rust_sql::number::write_number;
use rust_sql::parser::{build_statement, SQLParser};
use rust_sql::recognizer::{recognize_expression, recognize_statement};
use rust_sql::rule::Rule;
use rust_sql::text::{characters, scan, slice_text, to_lower, CharClass};
use rust_sql::token::{Token, TokenKind, Tokens};
use rust_sql::tree::Pair;

fn leaf(rule: Rule, text: &str) -> Pair {
    Pair { rule, text: text.to_string(), children: vec![] }
}

fn node(rule: Rule, children: Vec<Pair>) -> Pair {
    Pair { rule, text: String::new(), children }
}

#[test]
fn the_scanner_cuts_a_statement_into_tokens() {
    let tokens = Tokens::scan("SELECT * FROM t -- all\nWHERE a<=1.5;").unwrap();
    assert_eq!(
        tokens.tokens,
        vec![
            Token { kind: TokenKind::SelectKeyword, start: 0, end: 6 },
            Token { kind: TokenKind::Star, start: 7, end: 8 },
            Token { kind: TokenKind::FromKeyword, start: 9, end: 13 },
            Token { kind: TokenKind::Identifier, start: 14, end: 15 },
            Token { kind: TokenKind::WhereKeyword, start: 23, end: 28 },
            Token { kind: TokenKind::Identifier, start: 29, end: 30 },
            Token { kind: TokenKind::LessEqual, start: 30, end: 32 },
            Token { kind: TokenKind::FloatLiteral, start: 32, end: 35 },
            Token { kind: TokenKind::Semicolon, start: 35, end: 36 },
        ]
    );
    assert_eq!(tokens.len(), 9);
    assert_eq!(tokens.kind_at(4), TokenKind::WhereKeyword);
    assert!(tokens.holds(1, TokenKind::Star));
    assert!(!tokens.holds(1, TokenKind::Slash));
    assert!(!tokens.holds(9, TokenKind::Semicolon));
    assert_eq!(tokens.text_at(0), "SELECT");
    assert_eq!(tokens.text_at(3), "t");
    assert_eq!(tokens.text_at(6), "<=");
    assert_eq!(tokens.text_at(7), "1.5");
    assert_eq!(tokens.offset(4), 23);
    assert_eq!(tokens.offset(9), 36);
}

#[test]
fn every_symbol_is_a_token() {
    let tokens = Tokens::scan("= != < <= > >= + - * / ( ) , ;").unwrap();
    let kinds: Vec<TokenKind> = tokens.tokens.iter().map(|token| token.kind).collect();
    assert_eq!(
        kinds,
        vec![
            TokenKind::Equal,
            TokenKind::NotEqual,
            TokenKind::Less,
            TokenKind::LessEqual,
            TokenKind::Greater,
            TokenKind::GreaterEqual,
            TokenKind::Plus,
            TokenKind::Minus,
            TokenKind::Star,
            TokenKind::Slash,
            TokenKind::LeftParen,
            TokenKind::RightParen,
            TokenKind::Comma,
            TokenKind::Semicolon,
        ]
    );
}

#[test]
fn every_keyword_is_a_token_in_any_case() {
    let text = "select From WHERE insert into values update set delete group by order asc desc \
                limit and or not true false null";
    let tokens = Tokens::scan(text).unwrap();
    let kinds: Vec<TokenKind> = tokens.tokens.iter().map(|token| token.kind).collect();
    assert_eq!(
        kinds,
        vec![
            TokenKind::SelectKeyword,
            TokenKind::FromKeyword,
            TokenKind::WhereKeyword,
            TokenKind::InsertKeyword,
            TokenKind::IntoKeyword,
            TokenKind::ValuesKeyword,
            TokenKind::UpdateKeyword,
            TokenKind::SetKeyword,
            TokenKind::DeleteKeyword,
            TokenKind::GroupKeyword,
            TokenKind::ByKeyword,
            TokenKind::OrderKeyword,
            TokenKind::AscKeyword,
            TokenKind::DescKeyword,
            TokenKind::LimitKeyword,
            TokenKind::AndKeyword,
            TokenKind::OrKeyword,
            TokenKind::NotKeyword,
            TokenKind::TrueKeyword,
            TokenKind::FalseKeyword,
            TokenKind::NullKeyword,
        ]
    );
    for i in 0..tokens.len() {
        let kind = tokens.kind_at(i);
        assert_eq!(Some(tokens.text_at(i).as_str()), kind.fixed_text());
    }
}

#[test]
fn a_comment_runs_to_the_end_of_its_line() {
    assert_eq!(Tokens::scan("-- nothing here").unwrap().len(), 0);
    assert_eq!(Tokens::scan("a -- b\n-- c\n d").unwrap().len(), 2);
    assert_eq!(Tokens::scan("a - - b").unwrap().len(), 4);
    assert_eq!(Tokens::scan("a --- b").unwrap().len(), 1);
    assert_eq!(Tokens::scan("'-- not a comment'").unwrap().len(), 1);
}

#[test]
fn the_scanner_names_the_first_bad_character() {
    match Tokens::scan("a # b") {
        Err(error) => {
            assert_eq!(error, ParseError { position: 2, kind: ErrorKind::UnexpectedCharacter })
        }
        Ok(_) => panic!("scanned"),
    }
    match Tokens::scan("a 'b") {
        Err(error) => {
            assert_eq!(error, ParseError { position: 2, kind: ErrorKind::UnterminatedString })
        }
        Ok(_) => panic!("scanned"),
    }
}

#[test]
fn the_recogniser_counts_tokens() {
    let tokens = Tokens::scan("SELECT * FROM   users WHERE").unwrap();
    assert_eq!(
        recognize_statement(&tokens),
        Err(ParseError { position: 5, kind: ErrorKind::Expected(Rule::PrimaryExpression) })
    );
    let tokens = Tokens::scan("a   b").unwrap();
    assert_eq!(
        recognize_expression(&tokens),
        Err(ParseError { position: 1, kind: ErrorKind::Expected(Rule::EndOfInput) })
    );
}

#[test]
fn the_tree_of_a_select_statement() {
    let tree = SQLParser::parse("select * from users limit 3;").unwrap();
    assert_eq!(
        tree,
        node(
            Rule::Statement,
            vec![node(
                Rule::SelectStatement,
                vec![
                    node(Rule::SelectClause, vec![leaf(Rule::SelectKeyword, "SELECT")]),
                    node(
                        Rule::FromClause,
                        vec![leaf(Rule::FromKeyword, "FROM"), leaf(Rule::Identifier, "users")]
                    ),
                    node(
                        Rule::LimitClause,
                        vec![leaf(Rule::LimitKeyword, "LIMIT"), leaf(Rule::NumberLiteral, "3")]
                    ),
                ]
            )]
        )
    );
    assert_eq!(tree.as_rule(), Rule::Statement);
    assert_eq!(tree.len(), 1);
    assert_eq!(tree.child(0).child(1).child(1).as_str(), "users");
    assert_eq!(
        build_statement(&tree),
        Statement::Select {
            table: "users".to_string(),
            where_clause: None,
            order_by: None,
            group_by: None,
            limit: Some(3),
        }
    );
}

#[test]
fn the_tree_of_an_insert_statement() {
    let tree = SQLParser::parse("INSERT INTO t VALUES ('a', 'b');").unwrap();
    assert_eq!(
        tree,
        node(
            Rule::Statement,
            vec![node(
                Rule::InsertStatement,
                vec![
                    leaf(Rule::InsertKeyword, "INSERT"),
                    leaf(Rule::IntoKeyword, "INTO"),
                    leaf(Rule::Identifier, "t"),
                    node(
                        Rule::ValuesClause,
                        vec![
                            leaf(Rule::ValuesKeyword, "VALUES"),
                            node(
                                Rule::ValueList,
                                vec![
                                    leaf(Rule::StringLiteral, "'a'"),
                                    leaf(Rule::StringLiteral, "'b'")
                                ]
                            ),
                        ]
                    ),
                ]
            )]
        )
    );
}

#[test]
fn build_statement_reads_a_tree_made_by_hand() {
    let tree = node(
        Rule::Statement,
        vec![node(
            Rule::UpdateStatement,
            vec![
                leaf(Rule::UpdateKeyword, "UPDATE"),
                leaf(Rule::Identifier, "t"),
                node(
                    Rule::SetClause,
                    vec![
                        leaf(Rule::SetKeyword, "SET"),
                        node(
                            Rule::AssignmentList,
                            vec![node(
                                Rule::Assignment,
                                vec![leaf(Rule::Identifier, "a"), leaf(Rule::StringLiteral, "'1'")],
                            )],
                        ),
                    ],
                ),
            ],
        )],
    );
    assert_eq!(
        build_statement(&tree),
        Statement::Update {
            table: "t".to_string(),
            set: vec![("a".to_string(), "1".to_string())],
            where_clause: None,
        }
    );
}

#[test]
fn runs_of_characters() {
    let chars = characters("abc_1  x");
    assert_eq!(chars, vec!['a', 'b', 'c', '_', '1', ' ', ' ', 'x']);
    assert_eq!(scan(&chars, 0, CharClass::IdentifierPart), 5);
    assert_eq!(scan(&chars, 0, CharClass::IdentifierStart), 4);
    assert_eq!(scan(&chars, 0, CharClass::Digit), 0);
    assert_eq!(scan(&chars, 4, CharClass::Digit), 5);
    assert_eq!(scan(&chars, 5, CharClass::Space), 7);
    assert_eq!(scan(&chars, 0, CharClass::NotQuote), 8);
    assert_eq!(scan(&chars, 8, CharClass::NotNewline), 8);
    assert_eq!(slice_text(&chars, 2, 5), "c_1");
    assert_eq!(slice_text(&chars, 3, 3), "");
    assert_eq!(characters("ユé"), vec!['ユ', 'é']);
}

#[test]
fn classes_of_characters() {
    assert!(CharClass::Space.contains('\t') && CharClass::Space.contains('\r'));
    assert!(CharClass::Space.contains('\n') && CharClass::Space.contains(' '));
    assert!(!CharClass::Space.contains('\u{a0}'));
    assert!(CharClass::Digit.contains('0') && CharClass::Digit.contains('9'));
    assert!(!CharClass::Digit.contains('/') && !CharClass::Digit.contains(':'));
    assert!(CharClass::IdentifierStart.contains('_') && CharClass::IdentifierStart.contains('Z'));
    assert!(!CharClass::IdentifierStart.contains('1'));
    assert!(!CharClass::IdentifierStart.contains('é'));
    assert!(CharClass::IdentifierPart.contains('1') && !CharClass::IdentifierPart.contains('-'));
    assert!(CharClass::NotQuote.contains('"') && !CharClass::NotQuote.contains('\''));
    assert!(CharClass::NotNewline.contains('\r') && !CharClass::NotNewline.contains('\n'));
}

#[test]
fn small_letters_of_capitals() {
    assert_eq!(to_lower('A'), 'a');
    assert_eq!(to_lower('Z'), 'z');
    assert_eq!(to_lower('m'), 'm');
    assert_eq!(to_lower('@'), '@');
    assert_eq!(to_lower('['), '[');
    assert_eq!(to_lower('É'), 'É');
}

#[test]
fn numbers_are_written_in_base_ten() {
    assert_eq!(write_number(0), "0");
    assert_eq!(write_number(7), "7");
    assert_eq!(write_number(10), "10");
    assert_eq!(write_number(4096), "4096");
    assert_eq!(write_number(usize::MAX), usize::MAX.to_string());
}

#[test]
fn an_error_at_a_token_is_moved_to_its_offset() {
    let tokens = Tokens::scan("  a  bb").unwrap();
    let kind = ErrorKind::Expected(Rule::EndOfInput);
    assert_eq!(tokens.locate(ParseError { position: 0, kind }), ParseError { position: 2, kind });
    assert_eq!(tokens.locate(ParseError { position: 1, kind }), ParseError { position: 5, kind });
    assert_eq!(tokens.locate(ParseError { position: 2, kind }), ParseError { position: 7, kind });
}

#[test]
fn rules_and_errors_are_described() {
    assert_eq!(Rule::Identifier.describe(), "a name");
    assert_eq!(Rule::Semicolon.describe(), ";");
    assert_eq!(Rule::GroupByClause.describe(), "a GROUP BY clause");
    assert_eq!(ErrorKind::UnexpectedCharacter.describe(), "unexpected character");
    assert_eq!(ErrorKind::NumberTooLarge.describe(), "number too large");
    assert_eq!(ErrorKind::Expected(Rule::ByKeyword).describe(), "expected BY");
}

#[test]
fn nodes_are_made_and_read() {
    let name = Pair::leaf(Rule::Identifier, "a".to_string());
    assert_eq!(name, leaf(Rule::Identifier, "a"));
    assert_eq!(name.as_rule(), Rule::Identifier);
    assert_eq!(name.as_str(), "a");
    assert_eq!(name.len(), 0);
    let primary = Pair::node(Rule::PrimaryExpression, vec![name]);
    assert_eq!(primary, node(Rule::PrimaryExpression, vec![leaf(Rule::Identifier, "a")]));
    assert_eq!(primary.as_str(), "");
    assert_eq!(primary.len(), 1);
    assert_eq!(primary.child(0), &leaf(Rule::Identifier, "a"));
}

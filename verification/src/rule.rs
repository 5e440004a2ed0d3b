//! The labels of the grammar's rules.

use vstd::prelude::*;

verus! {

/// The label of a grammar rule. Every node of a parse tree carries one, and
/// an error names the rule that the parser expected.
#[derive(Clone, Copy, Debug, PartialEq, Eq, Hash, Structural)]
pub enum Rule {
    // Statements and their clauses.
    Statement,
    SelectStatement,
    InsertStatement,
    UpdateStatement,
    DeleteStatement,
    SelectClause,
    FromClause,
    WhereClause,
    GroupByClause,
    OrderByClause,
    LimitClause,
    ValuesClause,
    ValueList,
    SetClause,
    AssignmentList,
    Assignment,
    // The expression ladder, loosest level first.
    Expression,
    OrExpression,
    AndExpression,
    EqualityExpression,
    ComparisonExpression,
    AdditiveExpression,
    MultiplicativeExpression,
    UnaryExpression,
    PrimaryExpression,
    // Literals and names.
    StringLiteral,
    NumberLiteral,
    FloatLiteral,
    BooleanLiteral,
    NullLiteral,
    Identifier,
    // Keywords.
    SelectKeyword,
    FromKeyword,
    WhereKeyword,
    InsertKeyword,
    IntoKeyword,
    ValuesKeyword,
    UpdateKeyword,
    SetKeyword,
    DeleteKeyword,
    GroupKeyword,
    ByKeyword,
    OrderKeyword,
    AscKeyword,
    DescKeyword,
    LimitKeyword,
    AndKeyword,
    OrKeyword,
    NotKeyword,
    TrueKeyword,
    FalseKeyword,
    NullKeyword,
    // Operators.
    Equal,
    NotEqual,
    LessThan,
    LessThanOrEqual,
    GreaterThan,
    GreaterThanOrEqual,
    Add,
    Subtract,
    Multiply,
    Divide,
    Minus,
    // Punctuation. No node carries these; errors name them.
    Star,
    Assign,
    LeftParen,
    RightParen,
    Comma,
    Semicolon,
    EndOfInput,
}

impl Rule {
    /// What the rule stands for, in words or as it is written.
    pub open spec fn description(self) -> Seq<char> {
        match self {
            Rule::Statement => "a statement"@,
            Rule::SelectStatement => "a SELECT statement"@,
            Rule::InsertStatement => "an INSERT statement"@,
            Rule::UpdateStatement => "an UPDATE statement"@,
            Rule::DeleteStatement => "a DELETE statement"@,
            Rule::SelectClause => "SELECT *"@,
            Rule::FromClause => "a FROM clause"@,
            Rule::WhereClause => "a WHERE clause"@,
            Rule::GroupByClause => "a GROUP BY clause"@,
            Rule::OrderByClause => "an ORDER BY clause"@,
            Rule::LimitClause => "a LIMIT clause"@,
            Rule::ValuesClause => "a VALUES clause"@,
            Rule::ValueList => "a list of values"@,
            Rule::SetClause => "a SET clause"@,
            Rule::AssignmentList => "a list of assignments"@,
            Rule::Assignment => "an assignment"@,
            Rule::Expression => "an expression"@,
            Rule::OrExpression => "an expression"@,
            Rule::AndExpression => "an expression"@,
            Rule::EqualityExpression => "an expression"@,
            Rule::ComparisonExpression => "an expression"@,
            Rule::AdditiveExpression => "an expression"@,
            Rule::MultiplicativeExpression => "an expression"@,
            Rule::UnaryExpression => "an expression"@,
            Rule::PrimaryExpression => "an expression"@,
            Rule::StringLiteral => "a string literal"@,
            Rule::NumberLiteral => "a number"@,
            Rule::FloatLiteral => "a number with a decimal point"@,
            Rule::BooleanLiteral => "TRUE or FALSE"@,
            Rule::NullLiteral => "NULL"@,
            Rule::Identifier => "a name"@,
            Rule::SelectKeyword => "SELECT"@,
            Rule::FromKeyword => "FROM"@,
            Rule::WhereKeyword => "WHERE"@,
            Rule::InsertKeyword => "INSERT"@,
            Rule::IntoKeyword => "INTO"@,
            Rule::ValuesKeyword => "VALUES"@,
            Rule::UpdateKeyword => "UPDATE"@,
            Rule::SetKeyword => "SET"@,
            Rule::DeleteKeyword => "DELETE"@,
            Rule::GroupKeyword => "GROUP"@,
            Rule::ByKeyword => "BY"@,
            Rule::OrderKeyword => "ORDER"@,
            Rule::AscKeyword => "ASC"@,
            Rule::DescKeyword => "DESC"@,
            Rule::LimitKeyword => "LIMIT"@,
            Rule::AndKeyword => "AND"@,
            Rule::OrKeyword => "OR"@,
            Rule::NotKeyword => "NOT"@,
            Rule::TrueKeyword => "TRUE"@,
            Rule::FalseKeyword => "FALSE"@,
            Rule::NullKeyword => "NULL"@,
            Rule::Equal => "="@,
            Rule::NotEqual => "!="@,
            Rule::LessThan => "<"@,
            Rule::LessThanOrEqual => "<="@,
            Rule::GreaterThan => ">"@,
            Rule::GreaterThanOrEqual => ">="@,
            Rule::Add => "+"@,
            Rule::Subtract => "-"@,
            Rule::Multiply => "*"@,
            Rule::Divide => "/"@,
            Rule::Minus => "-"@,
            Rule::Star => "*"@,
            Rule::Assign => "="@,
            Rule::LeftParen => "("@,
            Rule::RightParen => ")"@,
            Rule::Comma => ","@,
            Rule::Semicolon => ";"@,
            Rule::EndOfInput => "the end of the text"@,
        }
    }

    /// Computes [`Rule::description`].
    pub fn describe(self) -> (text: &'static str)
        ensures
            text@ == self.description(),
    {
        match self {
            Rule::Statement => "a statement",
            Rule::SelectStatement => "a SELECT statement",
            Rule::InsertStatement => "an INSERT statement",
            Rule::UpdateStatement => "an UPDATE statement",
            Rule::DeleteStatement => "a DELETE statement",
            Rule::SelectClause => "SELECT *",
            Rule::FromClause => "a FROM clause",
            Rule::WhereClause => "a WHERE clause",
            Rule::GroupByClause => "a GROUP BY clause",
            Rule::OrderByClause => "an ORDER BY clause",
            Rule::LimitClause => "a LIMIT clause",
            Rule::ValuesClause => "a VALUES clause",
            Rule::ValueList => "a list of values",
            Rule::SetClause => "a SET clause",
            Rule::AssignmentList => "a list of assignments",
            Rule::Assignment => "an assignment",
            Rule::Expression => "an expression",
            Rule::OrExpression => "an expression",
            Rule::AndExpression => "an expression",
            Rule::EqualityExpression => "an expression",
            Rule::ComparisonExpression => "an expression",
            Rule::AdditiveExpression => "an expression",
            Rule::MultiplicativeExpression => "an expression",
            Rule::UnaryExpression => "an expression",
            Rule::PrimaryExpression => "an expression",
            Rule::StringLiteral => "a string literal",
            Rule::NumberLiteral => "a number",
            Rule::FloatLiteral => "a number with a decimal point",
            Rule::BooleanLiteral => "TRUE or FALSE",
            Rule::NullLiteral => "NULL",
            Rule::Identifier => "a name",
            Rule::SelectKeyword => "SELECT",
            Rule::FromKeyword => "FROM",
            Rule::WhereKeyword => "WHERE",
            Rule::InsertKeyword => "INSERT",
            Rule::IntoKeyword => "INTO",
            Rule::ValuesKeyword => "VALUES",
            Rule::UpdateKeyword => "UPDATE",
            Rule::SetKeyword => "SET",
            Rule::DeleteKeyword => "DELETE",
            Rule::GroupKeyword => "GROUP",
            Rule::ByKeyword => "BY",
            Rule::OrderKeyword => "ORDER",
            Rule::AscKeyword => "ASC",
            Rule::DescKeyword => "DESC",
            Rule::LimitKeyword => "LIMIT",
            Rule::AndKeyword => "AND",
            Rule::OrKeyword => "OR",
            Rule::NotKeyword => "NOT",
            Rule::TrueKeyword => "TRUE",
            Rule::FalseKeyword => "FALSE",
            Rule::NullKeyword => "NULL",
            Rule::Equal => "=",
            Rule::NotEqual => "!=",
            Rule::LessThan => "<",
            Rule::LessThanOrEqual => "<=",
            Rule::GreaterThan => ">",
            Rule::GreaterThanOrEqual => ">=",
            Rule::Add => "+",
            Rule::Subtract => "-",
            Rule::Multiply => "*",
            Rule::Divide => "/",
            Rule::Minus => "-",
            Rule::Star => "*",
            Rule::Assign => "=",
            Rule::LeftParen => "(",
            Rule::RightParen => ")",
            Rule::Comma => ",",
            Rule::Semicolon => ";",
            Rule::EndOfInput => "the end of the text",
        }
    }
}

} // verus!

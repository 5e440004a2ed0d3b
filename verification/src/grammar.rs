//! The grammar: which sequences of tokens are statements and expressions,
//! and the parse tree of each.
//!
//! Every rule is a function of the tokens and a place among them. It gives
//! the tree of what it recognised there and the number of tokens that it
//! covers, or the place where the tokens leave the grammar and the rule that
//! was expected there. A rule never looks back, and never gives up a token
//! that it has accepted.

use crate::error::{ErrorKind, Failure};
use crate::number::numeral;
use crate::rule::Rule;
use crate::token::{Lexeme, TokenKind};
use crate::tree::{leaf, node, PairView};
use vstd::prelude::*;

verus! {

/// What a rule gives: a tree and the number of tokens under it, or a failure.
pub type Parsed = Result<(PairView, nat), Failure>;

/// What a repetition gives: its trees and the number of tokens under them.
pub type ParsedList = Result<(Seq<PairView>, nat), Failure>;

/// The largest integer literal of an expression.
pub const MAX_INTEGER: u64 = 0x7fff_ffff_ffff_ffff;

/// The largest number of a `LIMIT` clause.
pub const MAX_LIMIT: u64 = 0xffff_ffff_ffff_ffff;

/// How many tokens are left from `pos` on.
pub open spec fn left(ts: Seq<Lexeme>, pos: int) -> nat {
    if pos < ts.len() {
        (ts.len() - pos) as nat
    } else {
        0
    }
}

/// A token of `kind` stands at `pos`.
pub open spec fn holds(ts: Seq<Lexeme>, pos: int, kind: TokenKind) -> bool {
    0 <= pos < ts.len() && ts[pos].kind == kind
}

/// The failure of a rule that found something else at `pos`.
pub open spec fn expected(pos: int, rule: Rule) -> Failure {
    Failure { position: pos, kind: ErrorKind::Expected(rule) }
}

/// One token of `kind`, as a node of `rule`.
pub open spec fn token(ts: Seq<Lexeme>, pos: int, kind: TokenKind, rule: Rule) -> Parsed {
    if holds(ts, pos, kind) {
        Ok((leaf(rule, ts[pos].text), 1))
    } else {
        Err(expected(pos, rule))
    }
}

/// A level of binary operators. The levels are listed from the loosest to
/// the tightest.
#[derive(Clone, Copy, Debug, PartialEq, Eq, Structural)]
pub enum Level {
    Or,
    And,
    Equality,
    Comparison,
    Additive,
    Multiplicative,
}

impl Level {
    /// The rule of an expression of this level.
    pub open spec fn rule(self) -> Rule {
        match self {
            Level::Or => Rule::OrExpression,
            Level::And => Rule::AndExpression,
            Level::Equality => Rule::EqualityExpression,
            Level::Comparison => Rule::ComparisonExpression,
            Level::Additive => Rule::AdditiveExpression,
            Level::Multiplicative => Rule::MultiplicativeExpression,
        }
    }

    /// The number of levels that bind tighter.
    pub open spec fn rank(self) -> nat {
        match self {
            Level::Or => 5,
            Level::And => 4,
            Level::Equality => 3,
            Level::Comparison => 2,
            Level::Additive => 1,
            Level::Multiplicative => 0,
        }
    }

    /// The next level that binds tighter; none for the tightest.
    pub open spec fn tighter(self) -> Option<Level> {
        match self {
            Level::Or => Some(Level::And),
            Level::And => Some(Level::Equality),
            Level::Equality => Some(Level::Comparison),
            Level::Comparison => Some(Level::Additive),
            Level::Additive => Some(Level::Multiplicative),
            Level::Multiplicative => None,
        }
    }

    /// The rule of the operator that a token of `kind` is at this level, if
    /// it is one.
    pub open spec fn operator(self, kind: TokenKind) -> Option<Rule> {
        match (self, kind) {
            (Level::Or, TokenKind::OrKeyword) => Some(Rule::OrKeyword),
            (Level::And, TokenKind::AndKeyword) => Some(Rule::AndKeyword),
            (Level::Equality, TokenKind::Equal) => Some(Rule::Equal),
            (Level::Equality, TokenKind::NotEqual) => Some(Rule::NotEqual),
            (Level::Comparison, TokenKind::Less) => Some(Rule::LessThan),
            (Level::Comparison, TokenKind::LessEqual) => Some(Rule::LessThanOrEqual),
            (Level::Comparison, TokenKind::Greater) => Some(Rule::GreaterThan),
            (Level::Comparison, TokenKind::GreaterEqual) => Some(Rule::GreaterThanOrEqual),
            (Level::Additive, TokenKind::Plus) => Some(Rule::Add),
            (Level::Additive, TokenKind::Minus) => Some(Rule::Subtract),
            (Level::Multiplicative, TokenKind::Star) => Some(Rule::Multiply),
            (Level::Multiplicative, TokenKind::Slash) => Some(Rule::Divide),
            _ => None,
        }
    }
}

/// The rule of the prefix operator that a token of `kind` is, if it is one.
pub open spec fn prefix_operator(kind: TokenKind) -> Option<Rule> {
    match kind {
        TokenKind::NotKeyword => Some(Rule::NotKeyword),
        TokenKind::Minus => Some(Rule::Minus),
        _ => None,
    }
}

/// A primary expression: a literal, a column name, or an expression in
/// parentheses. An integer literal must not exceed [`MAX_INTEGER`].
pub open spec fn primary(ts: Seq<Lexeme>, pos: int) -> Parsed
    decreases left(ts, pos), 0nat,
{
    if pos < 0 || pos >= ts.len() {
        Err(expected(pos, Rule::PrimaryExpression))
    } else {
        let text = ts[pos].text;
        match ts[pos].kind {
            TokenKind::StringLiteral => Ok(
                (node(Rule::PrimaryExpression, seq![leaf(Rule::StringLiteral, text)]), 1),
            ),
            TokenKind::NumberLiteral => if numeral(text, MAX_INTEGER) is Some {
                Ok((node(Rule::PrimaryExpression, seq![leaf(Rule::NumberLiteral, text)]), 1))
            } else {
                Err(Failure { position: pos, kind: ErrorKind::NumberTooLarge })
            },
            TokenKind::FloatLiteral => Ok(
                (node(Rule::PrimaryExpression, seq![leaf(Rule::FloatLiteral, text)]), 1),
            ),
            TokenKind::TrueKeyword => Ok(
                (
                    node(
                        Rule::PrimaryExpression,
                        seq![node(Rule::BooleanLiteral, seq![leaf(Rule::TrueKeyword, text)])],
                    ),
                    1,
                ),
            ),
            TokenKind::FalseKeyword => Ok(
                (
                    node(
                        Rule::PrimaryExpression,
                        seq![node(Rule::BooleanLiteral, seq![leaf(Rule::FalseKeyword, text)])],
                    ),
                    1,
                ),
            ),
            TokenKind::NullKeyword => Ok(
                (
                    node(
                        Rule::PrimaryExpression,
                        seq![node(Rule::NullLiteral, seq![leaf(Rule::NullKeyword, text)])],
                    ),
                    1,
                ),
            ),
            TokenKind::Identifier => Ok(
                (node(Rule::PrimaryExpression, seq![leaf(Rule::Identifier, text)]), 1),
            ),
            TokenKind::LeftParen => match expression(ts, pos + 1) {
                Err(failure) => Err(failure),
                Ok((inner, n)) => if holds(ts, pos + 1 + n, TokenKind::RightParen) {
                    Ok((node(Rule::PrimaryExpression, seq![inner]), n + 2))
                } else {
                    Err(expected(pos + 1 + n, Rule::RightParen))
                },
            },
            _ => Err(expected(pos, Rule::PrimaryExpression)),
        }
    }
}

/// A unary expression: any number of `NOT` and `-` before a primary
/// expression.
pub open spec fn unary(ts: Seq<Lexeme>, pos: int) -> Parsed
    decreases left(ts, pos), 1nat,
{
    if 0 <= pos < ts.len() && prefix_operator(ts[pos].kind) is Some {
        match unary(ts, pos + 1) {
            Err(failure) => Err(failure),
            Ok((operand, n)) => Ok(
                (
                    node(
                        Rule::UnaryExpression,
                        seq![leaf(prefix_operator(ts[pos].kind)->0, ts[pos].text), operand],
                    ),
                    1 + n,
                ),
            ),
        }
    } else {
        match primary(ts, pos) {
            Err(failure) => Err(failure),
            Ok((inner, n)) => Ok((node(Rule::UnaryExpression, seq![inner]), n)),
        }
    }
}

/// An operand of `level`: an expression of the next tighter level, or a
/// unary expression at the tightest.
pub open spec fn operand(level: Level, ts: Seq<Lexeme>, pos: int) -> Parsed
    decreases left(ts, pos), 3 * level.rank() + 2,
{
    match level.tighter() {
        Some(next) => binary(next, ts, pos),
        None => unary(ts, pos),
    }
}

/// The operators of `level` that follow a first operand, each with the
/// operand behind it.
pub open spec fn chain(level: Level, ts: Seq<Lexeme>, pos: int) -> ParsedList
    decreases left(ts, pos), 3 * level.rank() + 3,
{
    if 0 <= pos < ts.len() && level.operator(ts[pos].kind) is Some {
        let sign = leaf(level.operator(ts[pos].kind)->0, ts[pos].text);
        match operand(level, ts, pos + 1) {
            Err(failure) => Err(failure),
            Ok((right, n)) => match chain(level, ts, pos + 1 + n) {
                Err(failure) => Err(failure),
                Ok((rest, m)) => Ok((seq![sign, right] + rest, 1 + n + m)),
            },
        }
    } else {
        Ok((Seq::empty(), 0))
    }
}

/// An expression of `level`: an operand, then any number of operators of the
/// level, each with an operand behind it.
pub open spec fn binary(level: Level, ts: Seq<Lexeme>, pos: int) -> Parsed
    decreases left(ts, pos), 3 * level.rank() + 4,
{
    match operand(level, ts, pos) {
        Err(failure) => Err(failure),
        Ok((first, n)) => match chain(level, ts, pos + n) {
            Err(failure) => Err(failure),
            Ok((rest, m)) => Ok((node(level.rule(), seq![first] + rest), n + m)),
        },
    }
}

/// An expression.
pub open spec fn expression(ts: Seq<Lexeme>, pos: int) -> Parsed
    decreases left(ts, pos), 20nat,
{
    match binary(Level::Or, ts, pos) {
        Err(failure) => Err(failure),
        Ok((inner, n)) => Ok((node(Rule::Expression, seq![inner]), n)),
    }
}

/// How far a rule made of several parts has come: the nodes of the parts
/// read so far, the place after them, and the failure of the first part that
/// failed.
pub ghost struct Progress {
    pub children: Seq<PairView>,
    pub pos: int,
    pub failure: Option<Failure>,
}

/// Nothing read yet, at `pos`.
pub open spec fn begin(pos: int) -> Progress {
    Progress { children: Seq::empty(), pos, failure: None }
}

impl Progress {
    /// Adds a part that leaves several nodes. After a failure nothing more is
    /// read.
    pub open spec fn take_all(self, part: ParsedList) -> Progress {
        if self.failure is Some {
            self
        } else {
            match part {
                Ok((trees, n)) => Progress {
                    children: self.children + trees,
                    pos: self.pos + n,
                    failure: None,
                },
                Err(failure) => Progress { failure: Some(failure), ..self },
            }
        }
    }

    /// Adds a part that leaves one node.
    pub open spec fn take(self, part: Parsed) -> Progress {
        self.take_all(kept(part))
    }

    /// Adds a part that leaves no node.
    pub open spec fn pass(self, part: Parsed) -> Progress {
        self.take_all(dropped(part))
    }

    /// The node of `rule` over the parts read since `start`.
    pub open spec fn done(self, rule: Rule, start: int) -> Parsed {
        match self.failure {
            Some(failure) => Err(failure),
            None => Ok((node(rule, self.children), (self.pos - start) as nat)),
        }
    }
}

/// What `part` gives, with its tree kept as a list of one.
pub open spec fn kept(part: Parsed) -> ParsedList {
    match part {
        Ok((tree, n)) => Ok((seq![tree], n)),
        Err(failure) => Err(failure),
    }
}

/// What `part` gives, with its tree dropped.
pub open spec fn dropped(part: Parsed) -> ParsedList {
    match part {
        Ok((_, n)) => Ok((Seq::empty(), n)),
        Err(failure) => Err(failure),
    }
}

/// `part` where `present` holds, nothing otherwise.
pub open spec fn optional(present: bool, part: Parsed) -> ParsedList {
    if present {
        kept(part)
    } else {
        Ok((Seq::empty(), 0))
    }
}

/// One or more tokens of `kind`, as nodes of `rule`, with a comma between
/// each two.
pub open spec fn list(ts: Seq<Lexeme>, pos: int, kind: TokenKind, rule: Rule) -> ParsedList
    decreases left(ts, pos),
{
    if !holds(ts, pos, kind) {
        Err(expected(pos, rule))
    } else if holds(ts, pos + 1, TokenKind::Comma) {
        match list(ts, pos + 2, kind, rule) {
            Err(failure) => Err(failure),
            Ok((rest, n)) => Ok((seq![leaf(rule, ts[pos].text)] + rest, 2 + n)),
        }
    } else {
        Ok((seq![leaf(rule, ts[pos].text)], 1))
    }
}

/// `FROM` and the name of a table.
pub open spec fn from_clause(ts: Seq<Lexeme>, pos: int) -> Parsed {
    let step1 = begin(pos).take(token(ts, pos, TokenKind::FromKeyword, Rule::FromKeyword));
    let step2 = step1.take(token(ts, step1.pos, TokenKind::Identifier, Rule::Identifier));
    step2.done(Rule::FromClause, pos)
}

/// `WHERE` and an expression.
pub open spec fn where_clause(ts: Seq<Lexeme>, pos: int) -> Parsed {
    let step1 = begin(pos).take(token(ts, pos, TokenKind::WhereKeyword, Rule::WhereKeyword));
    let step2 = step1.take(expression(ts, step1.pos));
    step2.done(Rule::WhereClause, pos)
}

/// `GROUP BY` and one or more column names.
pub open spec fn group_by_clause(ts: Seq<Lexeme>, pos: int) -> Parsed {
    let step1 = begin(pos).take(token(ts, pos, TokenKind::GroupKeyword, Rule::GroupKeyword));
    let step2 = step1.take(token(ts, step1.pos, TokenKind::ByKeyword, Rule::ByKeyword));
    let step3 = step2.take_all(list(ts, step2.pos, TokenKind::Identifier, Rule::Identifier));
    step3.done(Rule::GroupByClause, pos)
}

/// `ASC` or `DESC`, where one of them stands at `pos`.
pub open spec fn direction(ts: Seq<Lexeme>, pos: int) -> ParsedList {
    if holds(ts, pos, TokenKind::AscKeyword) {
        Ok((seq![leaf(Rule::AscKeyword, ts[pos].text)], 1))
    } else if holds(ts, pos, TokenKind::DescKeyword) {
        Ok((seq![leaf(Rule::DescKeyword, ts[pos].text)], 1))
    } else {
        Ok((Seq::empty(), 0))
    }
}

/// `ORDER BY`, a column name and, if it is given, a direction.
pub open spec fn order_by_clause(ts: Seq<Lexeme>, pos: int) -> Parsed {
    let step1 = begin(pos).take(token(ts, pos, TokenKind::OrderKeyword, Rule::OrderKeyword));
    let step2 = step1.take(token(ts, step1.pos, TokenKind::ByKeyword, Rule::ByKeyword));
    let step3 = step2.take(token(ts, step2.pos, TokenKind::Identifier, Rule::Identifier));
    let step4 = step3.take_all(direction(ts, step3.pos));
    step4.done(Rule::OrderByClause, pos)
}

/// A number of rows: an integer literal that does not exceed [`MAX_LIMIT`].
pub open spec fn row_count(ts: Seq<Lexeme>, pos: int) -> Parsed {
    if !holds(ts, pos, TokenKind::NumberLiteral) {
        Err(expected(pos, Rule::NumberLiteral))
    } else if numeral(ts[pos].text, MAX_LIMIT) is None {
        Err(Failure { position: pos, kind: ErrorKind::NumberTooLarge })
    } else {
        Ok((leaf(Rule::NumberLiteral, ts[pos].text), 1))
    }
}

/// `LIMIT` and a number of rows.
pub open spec fn limit_clause(ts: Seq<Lexeme>, pos: int) -> Parsed {
    let step1 = begin(pos).take(token(ts, pos, TokenKind::LimitKeyword, Rule::LimitKeyword));
    let step2 = step1.take(row_count(ts, step1.pos));
    step2.done(Rule::LimitClause, pos)
}

/// `SELECT *`.
pub open spec fn select_clause(ts: Seq<Lexeme>, pos: int) -> Parsed {
    let step1 = begin(pos).take(token(ts, pos, TokenKind::SelectKeyword, Rule::SelectKeyword));
    let step2 = step1.pass(token(ts, step1.pos, TokenKind::Star, Rule::Star));
    step2.done(Rule::SelectClause, pos)
}

/// A `SELECT` statement. Its optional clauses come in one order: `WHERE`,
/// `GROUP BY`, `ORDER BY`, `LIMIT`.
#[verifier::opaque]
pub open spec fn select_statement(ts: Seq<Lexeme>, pos: int) -> Parsed {
    let step1 = begin(pos).take(select_clause(ts, pos));
    let step2 = step1.take(from_clause(ts, step1.pos));
    let step3 = step2.take_all(
        optional(holds(ts, step2.pos, TokenKind::WhereKeyword), where_clause(ts, step2.pos)),
    );
    let step4 = step3.take_all(
        optional(holds(ts, step3.pos, TokenKind::GroupKeyword), group_by_clause(ts, step3.pos)),
    );
    let step5 = step4.take_all(
        optional(holds(ts, step4.pos, TokenKind::OrderKeyword), order_by_clause(ts, step4.pos)),
    );
    let step6 = step5.take_all(
        optional(holds(ts, step5.pos, TokenKind::LimitKeyword), limit_clause(ts, step5.pos)),
    );
    let step7 = step6.pass(token(ts, step6.pos, TokenKind::Semicolon, Rule::Semicolon));
    step7.done(Rule::SelectStatement, pos)
}

/// One or more string literals with commas between them.
pub open spec fn value_list(ts: Seq<Lexeme>, pos: int) -> Parsed {
    let step1 = begin(pos).take_all(list(ts, pos, TokenKind::StringLiteral, Rule::StringLiteral));
    step1.done(Rule::ValueList, pos)
}

/// `VALUES` and a list of values in parentheses.
pub open spec fn values_clause(ts: Seq<Lexeme>, pos: int) -> Parsed {
    let step1 = begin(pos).take(token(ts, pos, TokenKind::ValuesKeyword, Rule::ValuesKeyword));
    let step2 = step1.pass(token(ts, step1.pos, TokenKind::LeftParen, Rule::LeftParen));
    let step3 = step2.take(value_list(ts, step2.pos));
    let step4 = step3.pass(token(ts, step3.pos, TokenKind::RightParen, Rule::RightParen));
    step4.done(Rule::ValuesClause, pos)
}

/// An `INSERT` statement.
#[verifier::opaque]
pub open spec fn insert_statement(ts: Seq<Lexeme>, pos: int) -> Parsed {
    let step1 = begin(pos).take(token(ts, pos, TokenKind::InsertKeyword, Rule::InsertKeyword));
    let step2 = step1.take(token(ts, step1.pos, TokenKind::IntoKeyword, Rule::IntoKeyword));
    let step3 = step2.take(token(ts, step2.pos, TokenKind::Identifier, Rule::Identifier));
    let step4 = step3.take(values_clause(ts, step3.pos));
    let step5 = step4.pass(token(ts, step4.pos, TokenKind::Semicolon, Rule::Semicolon));
    step5.done(Rule::InsertStatement, pos)
}

/// A column name, `=` and a string literal.
pub open spec fn assignment(ts: Seq<Lexeme>, pos: int) -> Parsed {
    let step1 = begin(pos).take(token(ts, pos, TokenKind::Identifier, Rule::Identifier));
    let step2 = step1.pass(token(ts, step1.pos, TokenKind::Equal, Rule::Assign));
    let step3 = step2.take(token(ts, step2.pos, TokenKind::StringLiteral, Rule::StringLiteral));
    step3.done(Rule::Assignment, pos)
}

/// One or more assignments with commas between them.
pub open spec fn assignments(ts: Seq<Lexeme>, pos: int) -> ParsedList
    decreases left(ts, pos),
{
    match assignment(ts, pos) {
        Err(failure) => Err(failure),
        Ok((first, n)) => if holds(ts, pos + n, TokenKind::Comma) {
            match assignments(ts, pos + n + 1) {
                Err(failure) => Err(failure),
                Ok((rest, m)) => Ok((seq![first] + rest, n + 1 + m)),
            }
        } else {
            Ok((seq![first], n))
        },
    }
}

/// The assignments of an `UPDATE` statement.
pub open spec fn assignment_list(ts: Seq<Lexeme>, pos: int) -> Parsed {
    let step1 = begin(pos).take_all(assignments(ts, pos));
    step1.done(Rule::AssignmentList, pos)
}

/// `SET` and a list of assignments.
pub open spec fn set_clause(ts: Seq<Lexeme>, pos: int) -> Parsed {
    let step1 = begin(pos).take(token(ts, pos, TokenKind::SetKeyword, Rule::SetKeyword));
    let step2 = step1.take(assignment_list(ts, step1.pos));
    step2.done(Rule::SetClause, pos)
}

/// An `UPDATE` statement.
#[verifier::opaque]
pub open spec fn update_statement(ts: Seq<Lexeme>, pos: int) -> Parsed {
    let step1 = begin(pos).take(token(ts, pos, TokenKind::UpdateKeyword, Rule::UpdateKeyword));
    let step2 = step1.take(token(ts, step1.pos, TokenKind::Identifier, Rule::Identifier));
    let step3 = step2.take(set_clause(ts, step2.pos));
    let step4 = step3.take_all(
        optional(holds(ts, step3.pos, TokenKind::WhereKeyword), where_clause(ts, step3.pos)),
    );
    let step5 = step4.pass(token(ts, step4.pos, TokenKind::Semicolon, Rule::Semicolon));
    step5.done(Rule::UpdateStatement, pos)
}

/// A `DELETE` statement.
#[verifier::opaque]
pub open spec fn delete_statement(ts: Seq<Lexeme>, pos: int) -> Parsed {
    let step1 = begin(pos).take(token(ts, pos, TokenKind::DeleteKeyword, Rule::DeleteKeyword));
    let step2 = step1.take(token(ts, step1.pos, TokenKind::FromKeyword, Rule::FromKeyword));
    let step3 = step2.take(token(ts, step2.pos, TokenKind::Identifier, Rule::Identifier));
    let step4 = step3.take_all(
        optional(holds(ts, step3.pos, TokenKind::WhereKeyword), where_clause(ts, step3.pos)),
    );
    let step5 = step4.pass(token(ts, step4.pos, TokenKind::Semicolon, Rule::Semicolon));
    step5.done(Rule::DeleteStatement, pos)
}

/// A statement: its first keyword decides which.
pub open spec fn statement(ts: Seq<Lexeme>, pos: int) -> Parsed {
    let inner = if holds(ts, pos, TokenKind::SelectKeyword) {
        select_statement(ts, pos)
    } else if holds(ts, pos, TokenKind::InsertKeyword) {
        insert_statement(ts, pos)
    } else if holds(ts, pos, TokenKind::UpdateKeyword) {
        update_statement(ts, pos)
    } else if holds(ts, pos, TokenKind::DeleteKeyword) {
        delete_statement(ts, pos)
    } else {
        Err(expected(pos, Rule::Statement))
    };
    begin(pos).take(inner).done(Rule::Statement, pos)
}

/// The tree of `part`, where `part` covers all the tokens.
pub open spec fn whole(ts: Seq<Lexeme>, part: Parsed) -> Result<PairView, Failure> {
    match part {
        Err(failure) => Err(failure),
        Ok((tree, n)) => if n == ts.len() {
            Ok(tree)
        } else {
            Err(expected(n as int, Rule::EndOfInput))
        },
    }
}

/// The tree of the tokens `ts` read as one statement.
pub open spec fn statement_tree(ts: Seq<Lexeme>) -> Result<PairView, Failure> {
    whole(ts, statement(ts, 0))
}

/// The tree of the tokens `ts` read as one expression.
pub open spec fn expression_tree(ts: Seq<Lexeme>) -> Result<PairView, Failure> {
    whole(ts, expression(ts, 0))
}

} // verus!

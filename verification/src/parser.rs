//! Statements: from the text to the syntax tree.

use crate::ast::{
    Expression, ExpressionView, GroupBy, GroupByView, OrderBy, OrderByView, OrderDirection,
    Statement, StatementView,
};
use crate::error::{Failure, ParseError};
use crate::expression::{expression_of, is_expression, lemma_expression_shape, unquote, unquoted};
use crate::grammar::{
    assignment, assignments, begin, delete_statement, from_clause, group_by_clause, holds,
    insert_statement, left, limit_clause, list, optional, order_by_clause, select_clause,
    select_statement, set_clause, statement, statement_tree, token, update_statement, where_clause,
    MAX_LIMIT,
};
use crate::guarantees::{is_valid, lemma_statements_are_valid};
use crate::number::{numeral, read_numeral};
use crate::recognizer::recognize_statement;
use crate::rule::Rule;
use crate::token::{lexemes, located, scan_tokens, Lexeme, TokenKind, Tokens};
use crate::tree::{Pair, PairView};
use vstd::prelude::*;
use vstd::string::*;

verus! {

/// The place of the first of `parts`, from the `i`th on, that carries `rule`.
pub open spec fn position_from(parts: Seq<PairView>, rule: Rule, i: int) -> Option<int>
    decreases parts.len() - i,
{
    if i < 0 || i >= parts.len() {
        None
    } else if parts[i].rule == rule {
        Some(i)
    } else {
        position_from(parts, rule, i + 1)
    }
}

/// The first of `parts`, from the `i`th on, that carries `rule`.
pub open spec fn clause_from(parts: Seq<PairView>, rule: Rule, i: int) -> Option<PairView> {
    match position_from(parts, rule, i) {
        Some(j) => Some(parts[j]),
        None => None,
    }
}

/// The tree is an optional clause as the grammar gives it.
pub open spec fn is_clause(t: PairView) -> bool {
    match t.rule {
        Rule::WhereClause => t.children.len() == 2 && is_expression(t.children[1]),
        Rule::GroupByClause => t.children.len() >= 3,
        Rule::OrderByClause => t.children.len() == 3 || t.children.len() == 4,
        Rule::LimitClause => t.children.len() == 2 && numeral(t.children[1].text, MAX_LIMIT)
            is Some,
        _ => false,
    }
}

/// From the `i`th on, the parts are optional clauses.
pub open spec fn are_clauses(parts: Seq<PairView>, i: int) -> bool {
    forall|j: int| i <= j < parts.len() ==> is_clause(#[trigger] parts[j])
}

/// The tree is one that the grammar gives for a statement: each node has
/// the parts that the builder reads.
pub open spec fn is_statement(t: PairView) -> bool {
    &&& t.rule == Rule::Statement
    &&& t.children.len() == 1
    &&& {
        let parts = t.children[0].children;
        match t.children[0].rule {
            Rule::SelectStatement => {
                &&& parts.len() >= 2
                &&& parts[1].children.len() == 2
                &&& are_clauses(parts, 2)
            },
            Rule::InsertStatement => {
                &&& parts.len() == 4
                &&& parts[3].children.len() == 2
                &&& parts[3].children[1].children.len() >= 1
            },
            Rule::UpdateStatement => {
                &&& parts.len() >= 3
                &&& parts[2].children.len() == 2
                &&& parts[2].children[1].children.len() >= 1
                &&& forall|i: int|
                    0 <= i < parts[2].children[1].children.len() ==> (
                    #[trigger] parts[2].children[1].children[i]).children.len() == 2
                &&& are_clauses(parts, 3)
            },
            Rule::DeleteStatement => {
                &&& parts.len() >= 3
                &&& are_clauses(parts, 3)
            },
            _ => false,
        }
    }
}

/// The texts of the nodes `parts`.
pub open spec fn texts(parts: Seq<PairView>) -> Seq<Seq<char>> {
    Seq::new(parts.len(), |i: int| parts[i].text)
}

/// The condition of the `WHERE` clause among `parts`, from the `i`th on.
pub open spec fn where_of(parts: Seq<PairView>, i: int) -> Option<ExpressionView> {
    match clause_from(parts, Rule::WhereClause, i) {
        Some(clause) => Some(expression_of(clause.children[1])),
        None => None,
    }
}

/// The columns of the `GROUP BY` clause among `parts`, from the `i`th on.
pub open spec fn group_by_of(parts: Seq<PairView>, i: int) -> Option<GroupByView> {
    match clause_from(parts, Rule::GroupByClause, i) {
        Some(clause) => Some(
            GroupByView {
                columns: texts(clause.children.subrange(2, clause.children.len() as int)),
            },
        ),
        None => None,
    }
}

/// The direction of an `ORDER BY` clause with the parts `parts`: descending
/// where `DESC` is written, ascending otherwise.
pub open spec fn direction_of(parts: Seq<PairView>) -> OrderDirection {
    if parts.len() > 3 && parts[3].rule == Rule::DescKeyword {
        OrderDirection::Desc
    } else {
        OrderDirection::Asc
    }
}

/// The order of the `ORDER BY` clause among `parts`, from the `i`th on.
pub open spec fn order_by_of(parts: Seq<PairView>, i: int) -> Option<OrderByView> {
    match clause_from(parts, Rule::OrderByClause, i) {
        Some(clause) => Some(
            OrderByView {
                column: clause.children[2].text,
                direction: direction_of(clause.children),
            },
        ),
        None => None,
    }
}

/// The number of the `LIMIT` clause among `parts`, from the `i`th on.
pub open spec fn limit_of(parts: Seq<PairView>, i: int) -> Option<u64> {
    match clause_from(parts, Rule::LimitClause, i) {
        Some(clause) => numeral(clause.children[1].text, MAX_LIMIT),
        None => None,
    }
}

/// The values of a list of string literals: each without its quotes.
pub open spec fn values_of(literals: Seq<PairView>) -> Seq<Seq<char>> {
    Seq::new(literals.len(), |i: int| unquoted(literals[i].text))
}

/// The assignments of a list: of each, the column's name and the value
/// without its quotes.
pub open spec fn assignments_of(list: Seq<PairView>) -> Seq<(Seq<char>, Seq<char>)> {
    Seq::new(list.len(), |i: int| (list[i].children[0].text, unquoted(list[i].children[1].text)))
}

/// The statement that a tree of the grammar stands for. Of a tree that the
/// grammar cannot give, nothing is said.
pub open spec fn statement_of(t: PairView) -> StatementView {
    let parts = t.children[0].children;
    match t.children[0].rule {
        Rule::InsertStatement => StatementView::Insert {
            table: parts[2].text,
            values: values_of(parts[3].children[1].children),
        },
        Rule::UpdateStatement => StatementView::Update {
            table: parts[1].text,
            set: assignments_of(parts[2].children[1].children),
            where_clause: where_of(parts, 3),
        },
        Rule::DeleteStatement => StatementView::Delete {
            table: parts[2].text,
            where_clause: where_of(parts, 3),
        },
        Rule::SelectStatement => StatementView::Select {
            table: parts[1].children[1].text,
            where_clause: where_of(parts, 2),
            order_by: order_by_of(parts, 2),
            group_by: group_by_of(parts, 2),
            limit: limit_of(parts, 2),
        },
        _ => arbitrary(),
    }
}

/// Finds the first part of `pair`, from the `i`th on, that carries `rule`.
fn find_clause(pair: &Pair, rule: Rule, i: usize) -> (r: Option<usize>)
    ensures
        match r {
            Some(j) => position_from(pair@.children, rule, i as int) == Some(j as int) && i <= j
                < pair@.children.len() && pair@.children[j as int].rule == rule,
            None => position_from(pair@.children, rule, i as int) is None,
        },
{
    let mut j: usize = i;
    while j < pair.len()
        invariant
            i <= j,
            position_from(pair@.children, rule, i as int) == position_from(
                pair@.children,
                rule,
                j as int,
            ),
        decreases pair@.children.len() - j,
    {
        if pair.child(j).as_rule() == rule {
            return Some(j);
        }
        j = j + 1;
    }
    None
}

/// Builds the condition of the `WHERE` clause of a statement, if it has one.
fn build_where(pair: &Pair, i: usize) -> (r: Option<Expression>)
    requires
        are_clauses(pair@.children, i as int),
    ensures
        crate::ast::optional_view(r) == where_of(pair@.children, i as int),
{
    match find_clause(pair, Rule::WhereClause, i) {
        Some(j) => {
            let clause = pair.child(j);
            Some(crate::expression::expression_from(clause.child(1)))
        },
        None => None,
    }
}

/// The text of a node, as a string of its own.
fn text_of(pair: &Pair) -> (text: String)
    ensures
        text@ == pair@.text,
{
    String::from_str(pair.as_str())
}

/// Builds the columns of the `GROUP BY` clause of a statement, if it has
/// one.
fn build_group_by(pair: &Pair, i: usize) -> (r: Option<GroupBy>)
    requires
        are_clauses(pair@.children, i as int),
    ensures
        match r {
            Some(group) => group_by_of(pair@.children, i as int) == Some(group@),
            None => group_by_of(pair@.children, i as int) is None,
        },
{
    match find_clause(pair, Rule::GroupByClause, i) {
        Some(j) => {
            let clause = pair.child(j);
            let n = clause.len();
            let ghost names = clause@.children.subrange(2, n as int);
            let mut columns: Vec<String> = Vec::new();
            let mut k: usize = 2;
            while k < n
                invariant
                    2 <= k <= n,
                    n == clause@.children.len(),
                    names == clause@.children.subrange(2, n as int),
                    columns.deep_view() == texts(names.take(k - 2)),
                decreases n - k,
            {
                let ghost before = columns.deep_view();
                let name = text_of(clause.child(k));
                columns.push(name);
                k = k + 1;
                assert(columns.deep_view() =~= before.push(name@));
            }
            assert(names.take(n - 2) =~= names);
            Some(GroupBy { columns })
        },
        None => None,
    }
}

/// Builds the order of the `ORDER BY` clause of a statement, if it has one.
fn build_order_by(pair: &Pair, i: usize) -> (r: Option<OrderBy>)
    requires
        are_clauses(pair@.children, i as int),
    ensures
        match r {
            Some(order) => order_by_of(pair@.children, i as int) == Some(order@),
            None => order_by_of(pair@.children, i as int) is None,
        },
{
    match find_clause(pair, Rule::OrderByClause, i) {
        Some(j) => {
            let clause = pair.child(j);
            let descending = clause.len() > 3 && clause.child(3).as_rule() == Rule::DescKeyword;
            let direction = if descending {
                OrderDirection::Desc
            } else {
                OrderDirection::Asc
            };
            Some(OrderBy { column: text_of(clause.child(2)), direction })
        },
        None => None,
    }
}

/// Builds the number of the `LIMIT` clause of a statement, if it has one.
fn build_limit(pair: &Pair, i: usize) -> (r: Option<u64>)
    requires
        are_clauses(pair@.children, i as int),
    ensures
        r == limit_of(pair@.children, i as int),
{
    match find_clause(pair, Rule::LimitClause, i) {
        Some(j) => {
            let clause = pair.child(j);
            read_numeral(clause.child(1).as_str(), MAX_LIMIT)
        },
        None => None,
    }
}

/// Builds the values of a list of string literals.
fn build_values(list: &Pair) -> (values: Vec<String>)
    ensures
        values.deep_view() == values_of(list@.children),
{
    let n = list.len();
    let mut values: Vec<String> = Vec::new();
    let mut k: usize = 0;
    while k < n
        invariant
            k <= n,
            n == list@.children.len(),
            values.deep_view() == values_of(list@.children.take(k as int)),
        decreases n - k,
    {
        let ghost before = values.deep_view();
        let value = unquote(list.child(k).as_str());
        values.push(value);
        k = k + 1;
        assert(values.deep_view() =~= before.push(value@));
    }
    values
}

/// Builds the assignments of a list.
fn build_assignments(list: &Pair) -> (set: Vec<(String, String)>)
    requires
        forall|i: int|
            0 <= i < list@.children.len() ==> (#[trigger] list@.children[i]).children.len() == 2,
    ensures
        set.deep_view() == assignments_of(list@.children),
{
    let n = list.len();
    let mut set: Vec<(String, String)> = Vec::new();
    let mut k: usize = 0;
    while k < n
        invariant
            k <= n,
            n == list@.children.len(),
            forall|i: int|
                0 <= i < list@.children.len() ==> (#[trigger] list@.children[i]).children.len()
                    == 2,
            set.deep_view() == assignments_of(list@.children.take(k as int)),
        decreases n - k,
    {
        let ghost before = set.deep_view();
        let assignment = list.child(k);
        let column = text_of(assignment.child(0));
        let value = unquote(assignment.child(1).as_str());
        let ghost entry = (column@, value@);
        set.push((column, value));
        k = k + 1;
        assert(set.deep_view() =~= before.push(entry));
    }
    set
}

/// Builds the statement of a tree that the grammar gives for a statement.
pub fn build_statement(pair: &Pair) -> (statement: Statement)
    requires
        is_statement(pair@),
    ensures
        statement@ == statement_of(pair@),
{
    let inner = pair.child(0);
    match inner.as_rule() {
        Rule::InsertStatement => Statement::Insert {
            table: text_of(inner.child(2)),
            values: build_values(inner.child(3).child(1)),
        },
        Rule::UpdateStatement => Statement::Update {
            table: text_of(inner.child(1)),
            set: build_assignments(inner.child(2).child(1)),
            where_clause: build_where(inner, 3),
        },
        Rule::DeleteStatement => Statement::Delete {
            table: text_of(inner.child(2)),
            where_clause: build_where(inner, 3),
        },
        Rule::SelectStatement => Statement::Select {
            table: text_of(inner.child(1).child(1)),
            where_clause: build_where(inner, 2),
            order_by: build_order_by(inner, 2),
            group_by: build_group_by(inner, 2),
            limit: build_limit(inner, 2),
        },
        _ => unreached(),
    }
}

/// A list of tokens has at least one node.
pub proof fn lemma_list_shape(ts: Seq<Lexeme>, pos: int, kind: TokenKind, rule: Rule)
    ensures
        list(ts, pos, kind, rule) matches Ok((trees, _)) ==> trees.len() >= 1,
    decreases left(ts, pos),
{
}

/// A list of assignments has at least one node, and each has two parts.
pub proof fn lemma_assignments_shape(ts: Seq<Lexeme>, pos: int)
    ensures
        assignments(ts, pos) matches Ok((trees, _)) ==> trees.len() >= 1 && forall|i: int|
            0 <= i < trees.len() ==> (#[trigger] trees[i]).children.len() == 2,
    decreases left(ts, pos),
{
    if let Ok((first, n)) = assignment(ts, pos) {
        if holds(ts, pos + n, TokenKind::Comma) {
            lemma_assignments_shape(ts, pos + n + 1);
        }
    }
}

/// A `WHERE` clause of the grammar is a clause that the builder can read.
pub proof fn lemma_where_shape(ts: Seq<Lexeme>, pos: int)
    ensures
        where_clause(ts, pos) matches Ok((t, _)) ==> t.rule == Rule::WhereClause && is_clause(t),
{
    lemma_expression_shape(ts, pos + 1);
}

/// A `SELECT` statement of the grammar has the parts that the builder
/// reads.
#[verifier::rlimit(30)]
pub proof fn lemma_select_shape(ts: Seq<Lexeme>, pos: int)
    ensures
        select_statement(ts, pos) matches Ok((t, _)) ==> {
            &&& t.rule == Rule::SelectStatement
            &&& t.children.len() >= 2
            &&& t.children[1].children.len() == 2
            &&& are_clauses(t.children, 2)
        },
{
    reveal(select_statement);
    let step1 = begin(pos).take(select_clause(ts, pos));
    let step2 = step1.take(from_clause(ts, step1.pos));
    let step3 = step2.take_all(
        optional(holds(ts, step2.pos, TokenKind::WhereKeyword), where_clause(ts, step2.pos)),
    );
    let step4 = step3.take_all(
        optional(holds(ts, step3.pos, TokenKind::GroupKeyword), group_by_clause(ts, step3.pos)),
    );
    let step5 = step4.take_all(
        optional(holds(ts, step4.pos, TokenKind::OrderKeyword), order_by_clause(ts, step4.pos)),
    );
    let step6 = step5.take_all(
        optional(holds(ts, step5.pos, TokenKind::LimitKeyword), limit_clause(ts, step5.pos)),
    );
    let step7 = step6.pass(token(ts, step6.pos, TokenKind::Semicolon, Rule::Semicolon));
    if step7.failure is None {
        lemma_where_shape(ts, step2.pos);
        lemma_list_shape(ts, step3.pos + 2, TokenKind::Identifier, Rule::Identifier);
        assert(step2.children.len() == 2);
        assert(step2.children[1].children.len() == 2);
        assert(are_clauses(step3.children, 2));
        assert(are_clauses(step4.children, 2));
        assert(are_clauses(step5.children, 2));
        assert(are_clauses(step6.children, 2));
        assert(step7.children =~= step6.children);
    }
}

/// What the grammar gives for a statement is a tree that the builder can
/// read.
pub proof fn lemma_statement_shape(ts: Seq<Lexeme>, pos: int)
    ensures
        statement(ts, pos) matches Ok((t, _)) ==> is_statement(t),
{
    if holds(ts, pos, TokenKind::SelectKeyword) {
        lemma_select_shape(ts, pos);
    } else if holds(ts, pos, TokenKind::InsertKeyword) {
        lemma_insert_shape(ts, pos);
    } else if holds(ts, pos, TokenKind::UpdateKeyword) {
        lemma_update_shape(ts, pos);
    } else if holds(ts, pos, TokenKind::DeleteKeyword) {
        lemma_delete_shape(ts, pos);
    }
}

/// An `INSERT` statement of the grammar has the parts that the builder
/// reads.
pub proof fn lemma_insert_shape(ts: Seq<Lexeme>, pos: int)
    ensures
        insert_statement(ts, pos) matches Ok((t, _)) ==> {
            &&& t.rule == Rule::InsertStatement
            &&& t.children.len() == 4
            &&& t.children[3].children.len() == 2
            &&& t.children[3].children[1].children.len() >= 1
        },
{
    reveal(insert_statement);
}

/// An `UPDATE` statement of the grammar has the parts that the builder
/// reads.
pub proof fn lemma_update_shape(ts: Seq<Lexeme>, pos: int)
    ensures
        update_statement(ts, pos) matches Ok((t, _)) ==> {
            &&& t.rule == Rule::UpdateStatement
            &&& t.children.len() >= 3
            &&& t.children[2].children.len() == 2
            &&& t.children[2].children[1].children.len() >= 1
            &&& forall|i: int|
                0 <= i < t.children[2].children[1].children.len() ==> (
                #[trigger] t.children[2].children[1].children[i]).children.len() == 2
            &&& are_clauses(t.children, 3)
        },
{
    reveal(update_statement);
    lemma_assignments_shape(ts, pos + 3);
    let step1 = begin(pos).take(token(ts, pos, TokenKind::UpdateKeyword, Rule::UpdateKeyword));
    let step2 = step1.take(token(ts, step1.pos, TokenKind::Identifier, Rule::Identifier));
    let step3 = step2.take(set_clause(ts, step2.pos));
    let step4 = step3.take_all(
        optional(holds(ts, step3.pos, TokenKind::WhereKeyword), where_clause(ts, step3.pos)),
    );
    let step5 = step4.pass(token(ts, step4.pos, TokenKind::Semicolon, Rule::Semicolon));
    if step5.failure is None {
        lemma_where_shape(ts, step3.pos);
    }
}

/// A `DELETE` statement of the grammar has the parts that the builder
/// reads.
pub proof fn lemma_delete_shape(ts: Seq<Lexeme>, pos: int)
    ensures
        delete_statement(ts, pos) matches Ok((t, _)) ==> {
            &&& t.rule == Rule::DeleteStatement
            &&& t.children.len() >= 3
            &&& are_clauses(t.children, 3)
        },
{
    reveal(delete_statement);
    let step1 = begin(pos).take(token(ts, pos, TokenKind::DeleteKeyword, Rule::DeleteKeyword));
    let step2 = step1.take(token(ts, step1.pos, TokenKind::FromKeyword, Rule::FromKeyword));
    let step3 = step2.take(token(ts, step2.pos, TokenKind::Identifier, Rule::Identifier));
    let step4 = step3.take_all(
        optional(holds(ts, step3.pos, TokenKind::WhereKeyword), where_clause(ts, step3.pos)),
    );
    let step5 = step4.pass(token(ts, step4.pos, TokenKind::Semicolon, Rule::Semicolon));
    if step5.failure is None {
        lemma_where_shape(ts, step3.pos);
    }
}

/// The parse tree of the text `s` read as one statement.
pub open spec fn statement_pairs(s: Seq<char>) -> Result<PairView, Failure> {
    match scan_tokens(s, 0) {
        Err(failure) => Err(failure),
        Ok(spans) => match statement_tree(lexemes(s, spans)) {
            Err(failure) => Err(located(s, spans, failure)),
            Ok(tree) => Ok(tree),
        },
    }
}

/// The statement that the text `s` writes, or where and why it writes none.
pub open spec fn parsed_statement(s: Seq<char>) -> Result<StatementView, Failure> {
    match statement_pairs(s) {
        Err(failure) => Err(failure),
        Ok(tree) => Ok(statement_of(tree)),
    }
}

/// The recogniser of statements.
pub struct SQLParser;

impl SQLParser {
    /// Reads `text` as one statement and gives its parse tree.
    pub fn parse(text: &str) -> (r: Result<Pair, ParseError>)
        ensures
            match r {
                Ok(pair) => statement_pairs(text@) == Ok::<PairView, Failure>(pair@)
                    && is_statement(pair@),
                Err(error) => statement_pairs(text@) == Err::<PairView, Failure>(error@),
            },
    {
        let ts = Tokens::scan(text)?;
        proof {
            lemma_statement_shape(ts.lexemes(), 0);
        }
        match recognize_statement(&ts) {
            Ok(pair) => Ok(pair),
            Err(error) => Err(ts.locate(error)),
        }
    }
}

/// Parses `sql` as one statement.
///
/// The text is a statement of the grammar, closed by `;`, with nothing but
/// white space and comments before and after it; any other text is
/// rejected, with the place of the first token that does not fit. The
/// statement that comes back is valid.
pub fn parse_sql(sql: &str) -> (r: Result<Statement, ParseError>)
    ensures
        match r {
            Ok(statement) => parsed_statement(sql@) == Ok::<StatementView, Failure>(statement@)
                && is_valid(statement@),
            Err(error) => parsed_statement(sql@) == Err::<StatementView, Failure>(error@),
        },
{
    let pair = SQLParser::parse(sql)?;
    proof {
        lemma_statements_are_valid(sql@);
    }
    Ok(build_statement(&pair))
}

} // verus!

//! What holds of every statement that the grammar accepts.

use crate::ast::{OrderByView, OrderDirection, StatementView};
use crate::expression::unquoted;
use crate::grammar::{
    assignment, assignments, begin, delete_statement, from_clause, group_by_clause, holds,
    insert_statement, left, limit_clause, list, optional, order_by_clause, select_clause,
    select_statement, statement, statement_tree, token, update_statement, where_clause,
};
use crate::expression::expression_of;
use crate::grammar::{expression, Parsed, MAX_LIMIT};
use crate::number::numeral;
use crate::parser::{group_by_of, limit_of, order_by_of, position_from, statement_of, where_of};
use crate::parser::{are_clauses, lemma_statement_shape};
use crate::rule::Rule;
use crate::shape::is_shaped;
use crate::tree::PairView;
use crate::parser::parsed_statement;
use crate::shape::{is_identifier, is_quoted, lemma_scan_shape};
use crate::token::{
    keyword_of, lemma_scan_tokens_fit, lexemes, scan_tokens, Lexeme, Span, TokenKind,
};
use crate::tree::leaf;
use vstd::prelude::*;

verus! {

/// The table that a statement names.
pub open spec fn table_of(statement: StatementView) -> Seq<char> {
    match statement {
        StatementView::Select { table, .. } => table,
        StatementView::Insert { table, .. } => table,
        StatementView::Update { table, .. } => table,
        StatementView::Delete { table, .. } => table,
    }
}

/// The keyword that a statement begins with.
pub open spec fn first_keyword(statement: StatementView) -> TokenKind {
    match statement {
        StatementView::Select { .. } => TokenKind::SelectKeyword,
        StatementView::Insert { .. } => TokenKind::InsertKeyword,
        StatementView::Update { .. } => TokenKind::UpdateKeyword,
        StatementView::Delete { .. } => TokenKind::DeleteKeyword,
    }
}

/// The keyword behind which a statement names its table: `FROM` in
/// `SELECT * FROM` and `DELETE FROM`, `INTO` in `INSERT INTO`, and `UPDATE`.
pub open spec fn table_keyword(statement: StatementView) -> TokenKind {
    match statement {
        StatementView::Select { .. } => TokenKind::FromKeyword,
        StatementView::Insert { .. } => TokenKind::IntoKeyword,
        StatementView::Update { .. } => TokenKind::UpdateKeyword,
        StatementView::Delete { .. } => TokenKind::FromKeyword,
    }
}

/// The place, among the tokens of a statement, of the name of its table.
pub open spec fn table_place(statement: StatementView) -> int {
    match statement {
        StatementView::Select { .. } => 3,
        StatementView::Insert { .. } => 2,
        StatementView::Update { .. } => 1,
        StatementView::Delete { .. } => 2,
    }
}

/// The nodes of a list of tokens are the nodes of every second token from
/// `pos` on: the tokens between them are the commas.
pub proof fn lemma_list_items(ts: Seq<Lexeme>, pos: int, kind: TokenKind, rule: Rule)
    ensures
        list(ts, pos, kind, rule) matches Ok((trees, n)) ==> {
            &&& trees.len() >= 1
            &&& n == 2 * trees.len() - 1
            &&& forall|i: int|
                0 <= i < trees.len() ==> holds(ts, pos + 2 * i, kind) && #[trigger] trees[i]
                    == leaf(rule, ts[pos + 2 * i].text)
            &&& !holds(ts, pos + n, TokenKind::Comma)
        },
    decreases left(ts, pos),
{
    if holds(ts, pos, kind) && holds(ts, pos + 1, TokenKind::Comma) {
        lemma_list_items(ts, pos + 2, kind, rule);
    }
}

/// The nodes of a list of assignments are the nodes of every fourth token
/// from `pos` on and of the string literal two tokens behind each.
pub proof fn lemma_assignment_items(ts: Seq<Lexeme>, pos: int)
    ensures
        assignments(ts, pos) matches Ok((trees, n)) ==> {
            &&& trees.len() >= 1
            &&& n == 4 * trees.len() - 1
            &&& forall|i: int|
                0 <= i < trees.len() ==> {
                    &&& holds(ts, pos + 4 * i, TokenKind::Identifier)
                    &&& holds(ts, pos + 4 * i + 1, TokenKind::Equal)
                    &&& holds(ts, pos + 4 * i + 2, TokenKind::StringLiteral)
                    &&& (#[trigger] trees[i]).children == seq![
                        leaf(Rule::Identifier, ts[pos + 4 * i].text),
                        leaf(Rule::StringLiteral, ts[pos + 4 * i + 2].text),
                    ]
                }
            &&& !holds(ts, pos + n, TokenKind::Comma)
        },
    decreases left(ts, pos),
{
    if let Ok((first, n)) = assignment(ts, pos) {
        if holds(ts, pos + 3, TokenKind::Comma) {
            lemma_assignment_items(ts, pos + 4);
        }
    }
}

/// A statement begins with its keyword and names, behind the keyword of its
/// table, the table that the tokens name there.
pub proof fn lemma_table_follows_keyword(ts: Seq<Lexeme>)
    ensures
        statement_tree(ts) matches Ok(tree) ==> {
            let statement = statement_of(tree);
            let place = table_place(statement);
            &&& holds(ts, 0, first_keyword(statement))
            &&& holds(ts, place - 1, table_keyword(statement))
            &&& holds(ts, place, TokenKind::Identifier)
            &&& table_of(statement) == ts[place].text
        },
{
    if holds(ts, 0, TokenKind::SelectKeyword) {
        lemma_select_parts(ts);
    } else if holds(ts, 0, TokenKind::InsertKeyword) {
        lemma_insert_parts(ts);
    } else if holds(ts, 0, TokenKind::UpdateKeyword) {
        lemma_update_parts(ts);
    } else if holds(ts, 0, TokenKind::DeleteKeyword) {
        lemma_delete_parts(ts);
    }
}

/// The first parts of a `SELECT` statement: `SELECT`, `*`, `FROM` and the
/// name of the table.
pub proof fn lemma_select_parts(ts: Seq<Lexeme>)
    ensures
        select_statement(ts, 0) matches Ok((tree, _)) ==> {
            &&& tree.rule == Rule::SelectStatement
            &&& holds(ts, 0, TokenKind::SelectKeyword)
            &&& holds(ts, 1, TokenKind::Star)
            &&& holds(ts, 2, TokenKind::FromKeyword)
            &&& holds(ts, 3, TokenKind::Identifier)
            &&& tree.children.len() >= 2
            &&& tree.children[1].children.len() == 2
            &&& tree.children[1].children[1].text == ts[3].text
        },
{
    reveal(select_statement);
    // The first steps of the rule, named for the solver to follow them.
    let pos = 0;
    let step1 = begin(pos).take(select_clause(ts, pos));
    let step2 = step1.take(from_clause(ts, step1.pos));
    let step3 = step2.take_all(
        optional(holds(ts, step2.pos, TokenKind::WhereKeyword), where_clause(ts, step2.pos)),
    );
    let step4 = step3.take_all(
        optional(holds(ts, step3.pos, TokenKind::GroupKeyword), group_by_clause(ts, step3.pos)),
    );
    let step5 = step4.take_all(
        optional(holds(ts, step4.pos, TokenKind::OrderKeyword), order_by_clause(ts, step4.pos)),
    );
}

/// The parts of an `INSERT` statement: `INSERT INTO`, the name of the
/// table, `VALUES` and the values in parentheses.
pub proof fn lemma_insert_parts(ts: Seq<Lexeme>)
    ensures
        insert_statement(ts, 0) matches Ok((tree, n)) ==> {
            let literals = tree.children[3].children[1].children;
            &&& tree.rule == Rule::InsertStatement
            &&& holds(ts, 0, TokenKind::InsertKeyword)
            &&& holds(ts, 1, TokenKind::IntoKeyword)
            &&& holds(ts, 2, TokenKind::Identifier)
            &&& holds(ts, 3, TokenKind::ValuesKeyword)
            &&& holds(ts, 4, TokenKind::LeftParen)
            &&& tree.children.len() == 4
            &&& tree.children[2].text == ts[2].text
            &&& literals.len() >= 1
            &&& n == 2 * literals.len() + 6
            &&& forall|i: int|
                0 <= i < literals.len() ==> holds(ts, 5 + 2 * i, TokenKind::StringLiteral)
                    && (#[trigger] literals[i]).text == ts[5 + 2 * i].text
        },
{
    reveal(insert_statement);
    lemma_list_items(ts, 5, TokenKind::StringLiteral, Rule::StringLiteral);
}

/// The first parts of an `UPDATE` statement: `UPDATE`, the name of the
/// table, `SET` and the assignments.
pub proof fn lemma_update_parts(ts: Seq<Lexeme>)
    ensures
        update_statement(ts, 0) matches Ok((tree, _)) ==> {
            let entries = tree.children[2].children[1].children;
            &&& tree.rule == Rule::UpdateStatement
            &&& holds(ts, 0, TokenKind::UpdateKeyword)
            &&& holds(ts, 1, TokenKind::Identifier)
            &&& holds(ts, 2, TokenKind::SetKeyword)
            &&& tree.children.len() >= 3
            &&& tree.children[1].text == ts[1].text
            &&& entries.len() >= 1
            &&& forall|i: int|
                0 <= i < entries.len() ==> {
                    &&& holds(ts, 3 + 4 * i, TokenKind::Identifier)
                    &&& holds(ts, 4 + 4 * i, TokenKind::Equal)
                    &&& holds(ts, 5 + 4 * i, TokenKind::StringLiteral)
                    &&& (#[trigger] entries[i]).children.len() == 2
                    &&& entries[i].children[0].text == ts[3 + 4 * i].text
                    &&& entries[i].children[1].text == ts[5 + 4 * i].text
                }
            &&& ts.len() >= 4 * entries.len() + 3
        },
{
    reveal(update_statement);
    lemma_assignment_items(ts, 3);
    // The first steps of the rule, named for the solver to follow them.
    let pos = 0;
    let step1 = begin(pos).take(token(ts, pos, TokenKind::UpdateKeyword, Rule::UpdateKeyword));
}

/// The first parts of a `DELETE` statement: `DELETE FROM` and the name of
/// the table.
pub proof fn lemma_delete_parts(ts: Seq<Lexeme>)
    ensures
        delete_statement(ts, 0) matches Ok((tree, _)) ==> {
            &&& tree.rule == Rule::DeleteStatement
            &&& holds(ts, 0, TokenKind::DeleteKeyword)
            &&& holds(ts, 1, TokenKind::FromKeyword)
            &&& holds(ts, 2, TokenKind::Identifier)
            &&& tree.children.len() >= 3
            &&& tree.children[2].text == ts[2].text
        },
{
    reveal(delete_statement);
    // The first steps of the rule, named for the solver to follow them.
    let pos = 0;
    let step1 = begin(pos).take(token(ts, pos, TokenKind::DeleteKeyword, Rule::DeleteKeyword));
}

/// The content of the string literal that `span` covers in `s`: the
/// characters between its quotes.
pub open spec fn content(s: Seq<char>, span: Span) -> Seq<char> {
    s.subrange(span.start + 1, span.end - 1)
}

/// The characters that `span` covers in `s`.
pub open spec fn source(s: Seq<char>, span: Span) -> Seq<char> {
    s.subrange(span.start, span.end)
}

/// The `k`th token of `s` is a name, and `name` is its text.
pub open spec fn is_name_in(s: Seq<char>, spans: Seq<Span>, k: int, name: Seq<char>) -> bool {
    &&& 0 <= k < spans.len()
    &&& spans[k].kind == TokenKind::Identifier
    &&& name == source(s, spans[k])
}

/// The `k`th token of `s` is a string literal, and `value` is the text
/// between its quotes, which holds no single quote.
pub open spec fn is_content_in(s: Seq<char>, spans: Seq<Span>, k: int, value: Seq<char>) -> bool {
    &&& 0 <= k < spans.len()
    &&& spans[k].kind == TokenKind::StringLiteral
    &&& value == content(s, spans[k])
    &&& !value.contains('\'')
}

/// From the `k`th token of `s` on stand a name, `=` and a string literal,
/// and `entry` holds the name and the content of the literal.
pub open spec fn is_entry_in(
    s: Seq<char>,
    spans: Seq<Span>,
    k: int,
    entry: (Seq<char>, Seq<char>),
) -> bool {
    &&& is_name_in(s, spans, k, entry.0)
    &&& spans[k + 1].kind == TokenKind::Equal
    &&& is_content_in(s, spans, k + 2, entry.1)
}

/// A statement that parses begins with its keyword, and its table is the
/// name that the text holds behind `FROM`, `INTO` or `UPDATE`: the very
/// characters of the text, which make a name and spell no keyword.
pub proof fn lemma_table_is_the_name_in_the_text(s: Seq<char>)
    ensures
        parsed_statement(s) matches Ok(statement) ==> {
            let spans = scan_tokens(s, 0)->Ok_0;
            let place = table_place(statement);
            &&& place < spans.len()
            &&& spans[0].kind == first_keyword(statement)
            &&& spans[place - 1].kind == table_keyword(statement)
            &&& spans[place].kind == TokenKind::Identifier
            &&& table_of(statement) == source(s, spans[place])
            &&& is_identifier(table_of(statement))
            &&& keyword_of(table_of(statement)) is None
        },
{
    if let Ok(statement) = parsed_statement(s) {
        let spans = scan_tokens(s, 0)->Ok_0;
        let ts = lexemes(s, spans);
        lemma_table_follows_keyword(ts);
        lemma_scan_shape(s, 0);
    }
}

/// `value` is the content of the string literal at `pos`.
pub open spec fn is_literal_at(ts: Seq<Lexeme>, pos: int, value: Seq<char>) -> bool {
    holds(ts, pos, TokenKind::StringLiteral) && value == unquoted(ts[pos].text)
}

/// `entry` is the assignment at `pos`: a name, `=`, and a string literal,
/// which gives the value without its quotes.
pub open spec fn is_assignment_at(
    ts: Seq<Lexeme>,
    pos: int,
    entry: (Seq<char>, Seq<char>),
) -> bool {
    &&& holds(ts, pos, TokenKind::Identifier)
    &&& holds(ts, pos + 1, TokenKind::Equal)
    &&& entry.0 == ts[pos].text
    &&& is_literal_at(ts, pos + 2, entry.1)
}

/// `values` are the string literals of every second token from `pos` on,
/// each without its quotes.
pub open spec fn are_literals_from(ts: Seq<Lexeme>, pos: int, values: Seq<Seq<char>>) -> bool {
    forall|i: int| 0 <= i < values.len() ==> is_literal_at(ts, pos + 2 * i, #[trigger] values[i])
}

/// `set` are the assignments of every four tokens from `pos` on.
pub open spec fn are_assignments_from(
    ts: Seq<Lexeme>,
    pos: int,
    set: Seq<(Seq<char>, Seq<char>)>,
) -> bool {
    forall|i: int| 0 <= i < set.len() ==> is_assignment_at(ts, pos + 4 * i, #[trigger] set[i])
}

/// The values of an `INSERT` statement are those of the string literals
/// among its tokens: every second token from the sixth on, each without its
/// quotes. There is at least one, and the statement ends behind the last.
pub proof fn lemma_insert_values(ts: Seq<Lexeme>)
    ensures
        statement_tree(ts) matches Ok(tree) ==> (statement_of(tree) is Insert ==> {
            let values = statement_of(tree)->values;
            &&& values.len() >= 1
            &&& ts.len() == 2 * values.len() + 6
            &&& are_literals_from(ts, 5, values)
        }),
{
    if let Ok(tree) = statement_tree(ts) {
        if let StatementView::Insert { values, .. } = statement_of(tree) {
            lemma_table_follows_keyword(ts);
            lemma_insert_parts(ts);
        }
    }
}

/// The assignments of an `UPDATE` statement are those of its tokens, from
/// the fourth token on, with a comma between each two. There is at least
/// one.
pub proof fn lemma_update_assignments(ts: Seq<Lexeme>)
    ensures
        statement_tree(ts) matches Ok(tree) ==> (statement_of(tree) is Update ==> {
            let set = statement_of(tree)->set;
            &&& set.len() >= 1
            &&& ts.len() >= 4 * set.len() + 3
            &&& are_assignments_from(ts, 3, set)
        }),
{
    if let Ok(tree) = statement_tree(ts) {
        if let StatementView::Update { set, .. } = statement_of(tree) {
            lemma_table_follows_keyword(ts);
            lemma_update_parts(ts);
        }
    }
}

/// An `INSERT` statement that parses has at least one value, and its values
/// are the contents of the string literals of the text, in their order and
/// character for character. None holds a single quote.
pub proof fn lemma_values_are_the_literals_in_the_text(s: Seq<char>)
    ensures
        parsed_statement(s) matches Ok(StatementView::Insert { values, .. }) ==> {
            let spans = scan_tokens(s, 0)->Ok_0;
            &&& values.len() >= 1
            &&& spans.len() == 2 * values.len() + 6
            &&& forall|i: int|
                0 <= i < values.len() ==> is_content_in(s, spans, 5 + 2 * i, #[trigger] values[i])
        },
{
    if let Ok(StatementView::Insert { values, .. }) = parsed_statement(s) {
        let spans = scan_tokens(s, 0)->Ok_0;
        let ts = lexemes(s, spans);
        lemma_insert_values(ts);
        lemma_scan_shape(s, 0);
        lemma_scan_tokens_fit(s, 0);
        assert forall|i: int| 0 <= i < values.len() implies is_content_in(
            s,
            spans,
            5 + 2 * i,
            #[trigger] values[i],
        ) by {
            assert(is_literal_at(ts, 5 + 2 * i, values[i]));
            lemma_content_of_quoted(s, spans[5 + 2 * i]);
        }
    }
}

/// The content of a quoted stretch of the text is the text between its
/// quotes, and holds no quote.
pub proof fn lemma_content_of_quoted(s: Seq<char>, span: Span)
    requires
        0 <= span.start < span.end <= s.len(),
        is_quoted(source(s, span)),
    ensures
        unquoted(source(s, span)) == content(s, span),
        !content(s, span).contains('\''),
{
    let text = source(s, span);
    assert(text.subrange(1, text.len() - 1) =~= content(s, span));
}

/// An `UPDATE` statement that parses has at least one assignment. Of each,
/// the column is the name that the text holds there, and the value is the
/// content of the string literal behind its `=`, character for character;
/// it holds no single quote.
pub proof fn lemma_assignments_are_those_of_the_text(s: Seq<char>)
    ensures
        parsed_statement(s) matches Ok(StatementView::Update { set, .. }) ==> {
            let spans = scan_tokens(s, 0)->Ok_0;
            &&& set.len() >= 1
            &&& forall|i: int|
                0 <= i < set.len() ==> is_entry_in(s, spans, 3 + 4 * i, #[trigger] set[i])
        },
{
    if let Ok(StatementView::Update { set, .. }) = parsed_statement(s) {
        let spans = scan_tokens(s, 0)->Ok_0;
        let ts = lexemes(s, spans);
        lemma_update_assignments(ts);
        lemma_scan_shape(s, 0);
        lemma_scan_tokens_fit(s, 0);
        assert forall|i: int| 0 <= i < set.len() implies is_entry_in(
            s,
            spans,
            3 + 4 * i,
            #[trigger] set[i],
        ) by {
            assert(is_assignment_at(ts, 3 + 4 * i, set[i]));
            lemma_content_of_quoted(s, spans[5 + 4 * i]);
        }
    }
}

/// The number of tokens of an optional clause: those of `part` where it is
/// `present`, none otherwise.
pub open spec fn clause_len(present: bool, part: Parsed) -> int {
    match part {
        Ok((_, n)) if present => n as int,
        _ => 0,
    }
}

/// Where the `GROUP BY` clause of a `SELECT` statement begins, if it has
/// one: behind the table, or behind the `WHERE` clause.
pub open spec fn group_place(ts: Seq<Lexeme>) -> int {
    4 + clause_len(holds(ts, 4, TokenKind::WhereKeyword), where_clause(ts, 4))
}

/// Where the `ORDER BY` clause of a `SELECT` statement begins, if it has
/// one.
pub open spec fn order_place(ts: Seq<Lexeme>) -> int {
    let at = group_place(ts);
    at + clause_len(holds(ts, at, TokenKind::GroupKeyword), group_by_clause(ts, at))
}

/// Where the `LIMIT` clause of a `SELECT` statement begins, if it has one.
pub open spec fn limit_place(ts: Seq<Lexeme>) -> int {
    let at = order_place(ts);
    at + clause_len(holds(ts, at, TokenKind::OrderKeyword), order_by_clause(ts, at))
}

/// `name` is the text of the name at `pos`.
pub open spec fn is_name_at(ts: Seq<Lexeme>, pos: int, name: Seq<char>) -> bool {
    holds(ts, pos, TokenKind::Identifier) && name == ts[pos].text
}

/// The columns of a `GROUP BY` clause are the names of every second token
/// behind `GROUP BY`. There is at least one.
pub proof fn lemma_group_by_columns(ts: Seq<Lexeme>, pos: int)
    ensures
        group_by_clause(ts, pos) matches Ok((tree, n)) ==> {
            &&& tree.rule == Rule::GroupByClause
            &&& group_by_of(seq![tree], 0) is Some
            &&& ({
                let columns = group_by_of(seq![tree], 0)->0.columns;
                &&& columns.len() >= 1
                &&& n == 2 * columns.len() + 1
                &&& forall|i: int|
                    0 <= i < columns.len() ==> is_name_at(
                        ts,
                        pos + 2 + 2 * i,
                        #[trigger] columns[i],
                    )
            })
        },
{
    lemma_list_items(ts, pos + 2, TokenKind::Identifier, Rule::Identifier);
}

/// An `ORDER BY` clause orders by the name behind `ORDER BY`: downwards
/// where `DESC` follows the name, upwards where `ASC` or nothing follows
/// it.
pub proof fn lemma_order_by_defaults_to_ascending(ts: Seq<Lexeme>, pos: int)
    ensures
        order_by_clause(ts, pos) matches Ok((tree, n)) ==> {
            &&& tree.rule == Rule::OrderByClause
            &&& holds(ts, pos + 2, TokenKind::Identifier)
            &&& order_by_of(seq![tree], 0) == Some(
                OrderByView {
                    column: ts[pos + 2].text,
                    direction: if holds(ts, pos + 3, TokenKind::DescKeyword) {
                        OrderDirection::Desc
                    } else {
                        OrderDirection::Asc
                    },
                },
            )
        },
{
}

/// The number of a `LIMIT` clause is the numeral behind `LIMIT`.
pub proof fn lemma_limit_number(ts: Seq<Lexeme>, pos: int)
    ensures
        limit_clause(ts, pos) matches Ok((tree, n)) ==> {
            &&& tree.rule == Rule::LimitClause
            &&& holds(ts, pos + 1, TokenKind::NumberLiteral)
            &&& limit_of(seq![tree], 0) is Some
            &&& limit_of(seq![tree], 0) == numeral(ts[pos + 1].text, MAX_LIMIT)
        },
{
}

/// The condition of a `WHERE` clause is the expression behind `WHERE`.
pub proof fn lemma_where_condition(ts: Seq<Lexeme>, pos: int)
    ensures
        where_clause(ts, pos) matches Ok((tree, n)) ==> {
            &&& tree.rule == Rule::WhereClause
            &&& expression(ts, pos + 1) is Ok
            &&& where_of(seq![tree], 0) == Some(expression_of(expression(ts, pos + 1)->Ok_0.0))
        },
{
}

/// A `SELECT` statement holds what its clauses say, each where it stands:
/// the condition of `WHERE` behind the table, then the columns of
/// `GROUP BY`, the order of `ORDER BY` and the number of `LIMIT`; and
/// nothing for a clause that is not written.
#[verifier::rlimit(50)]
pub proof fn lemma_select_clauses(ts: Seq<Lexeme>)
    ensures
        select_statement(ts, 0) matches Ok((tree, _)) ==> {
            let parts = tree.children;
            &&& where_of(parts, 2) == if holds(ts, 4, TokenKind::WhereKeyword) {
                where_of(seq![where_clause(ts, 4)->Ok_0.0], 0)
            } else {
                None
            }
            &&& group_by_of(parts, 2) == if holds(ts, group_place(ts), TokenKind::GroupKeyword) {
                group_by_of(seq![group_by_clause(ts, group_place(ts))->Ok_0.0], 0)
            } else {
                None
            }
            &&& order_by_of(parts, 2) == if holds(ts, order_place(ts), TokenKind::OrderKeyword) {
                order_by_of(seq![order_by_clause(ts, order_place(ts))->Ok_0.0], 0)
            } else {
                None
            }
            &&& limit_of(parts, 2) == if holds(ts, limit_place(ts), TokenKind::LimitKeyword) {
                limit_of(seq![limit_clause(ts, limit_place(ts))->Ok_0.0], 0)
            } else {
                None
            }
        },
{
    reveal(select_statement);
    reveal_with_fuel(position_from, 8);
    let pos = 0;
    let step1 = begin(pos).take(select_clause(ts, pos));
    let step2 = step1.take(from_clause(ts, step1.pos));
    let step3 = step2.take_all(
        optional(holds(ts, step2.pos, TokenKind::WhereKeyword), where_clause(ts, step2.pos)),
    );
    let step4 = step3.take_all(
        optional(holds(ts, step3.pos, TokenKind::GroupKeyword), group_by_clause(ts, step3.pos)),
    );
    let step5 = step4.take_all(
        optional(holds(ts, step4.pos, TokenKind::OrderKeyword), order_by_clause(ts, step4.pos)),
    );
    let step6 = step5.take_all(
        optional(holds(ts, step5.pos, TokenKind::LimitKeyword), limit_clause(ts, step5.pos)),
    );
    let step7 = step6.pass(token(ts, step6.pos, TokenKind::Semicolon, Rule::Semicolon));
    if step7.failure is None {
        assert(step2.pos == 4);
        assert(step3.pos == group_place(ts));
        assert(step4.pos == order_place(ts));
        assert(step5.pos == limit_place(ts));
        assert(step7.children =~= step6.children);
        assert(step2.children.len() == 2);
        assert(step2.children[0].rule == Rule::SelectClause);
        assert(step2.children[1].rule == Rule::FromClause);
    }
}

/// The tokens `ts` are of the kinds `kinds`, one for one.
pub open spec fn has_kinds(ts: Seq<Lexeme>, kinds: Seq<TokenKind>) -> bool {
    &&& ts.len() == kinds.len()
    &&& forall|i: int| 0 <= i < ts.len() ==> (#[trigger] ts[i]).kind == kinds[i]
}

/// `SELECT * FROM` and a name, closed by `;`, is the `SELECT` statement on
/// the table of that name, without any clause.
pub proof fn lemma_plain_select(ts: Seq<Lexeme>)
    requires
        has_kinds(
            ts,
            seq![
                TokenKind::SelectKeyword,
                TokenKind::Star,
                TokenKind::FromKeyword,
                TokenKind::Identifier,
                TokenKind::Semicolon,
            ],
        ),
    ensures
        statement_tree(ts) is Ok,
        statement_of(statement_tree(ts)->Ok_0) == (StatementView::Select {
            table: ts[3].text,
            where_clause: None,
            order_by: None,
            group_by: None,
            limit: None,
        }),
{
    reveal(select_statement);
    reveal_with_fuel(position_from, 3);
    assert(ts[0].kind == TokenKind::SelectKeyword && ts[1].kind == TokenKind::Star && ts[2].kind
        == TokenKind::FromKeyword && ts[3].kind == TokenKind::Identifier && ts[4].kind
        == TokenKind::Semicolon);
    let step1 = begin(0).take(select_clause(ts, 0));
    let step2 = step1.take(from_clause(ts, step1.pos));
    assert(step2.pos == 4 && step2.failure is None && step2.children.len() == 2);
    lemma_select_parts(ts);
    let tree = select_statement(ts, 0)->Ok_0.0;
    assert(tree.children =~= step2.children);
}

/// `SELECT * FROM` and a name, `ORDER BY` and a name, closed by `;`, orders
/// upwards.
pub proof fn lemma_plain_order_by(ts: Seq<Lexeme>)
    requires
        has_kinds(
            ts,
            seq![
                TokenKind::SelectKeyword,
                TokenKind::Star,
                TokenKind::FromKeyword,
                TokenKind::Identifier,
                TokenKind::OrderKeyword,
                TokenKind::ByKeyword,
                TokenKind::Identifier,
                TokenKind::Semicolon,
            ],
        ),
    ensures
        statement_tree(ts) is Ok,
        statement_of(statement_tree(ts)->Ok_0) == (StatementView::Select {
            table: ts[3].text,
            where_clause: None,
            order_by: Some(OrderByView { column: ts[6].text, direction: OrderDirection::Asc }),
            group_by: None,
            limit: None,
        }),
{
    reveal(select_statement);
    reveal_with_fuel(position_from, 4);
    assert(ts[0].kind == TokenKind::SelectKeyword && ts[1].kind == TokenKind::Star && ts[2].kind
        == TokenKind::FromKeyword && ts[3].kind == TokenKind::Identifier && ts[4].kind
        == TokenKind::OrderKeyword && ts[5].kind == TokenKind::ByKeyword && ts[6].kind
        == TokenKind::Identifier && ts[7].kind == TokenKind::Semicolon);
    let step1 = begin(0).take(select_clause(ts, 0));
    let step2 = step1.take(from_clause(ts, step1.pos));
    assert(step2.pos == 4 && step2.failure is None && step2.children.len() == 2);
    let order = order_by_clause(ts, 4)->Ok_0.0;
    assert(order_by_clause(ts, 4) is Ok);
    lemma_select_parts(ts);
    let tree = select_statement(ts, 0)->Ok_0.0;
    assert(tree.children =~= step2.children + seq![order]);
}

/// `DELETE FROM` and a name, closed by `;`, is the `DELETE` statement on
/// the table of that name, without a condition.
pub proof fn lemma_plain_delete(ts: Seq<Lexeme>)
    requires
        has_kinds(
            ts,
            seq![
                TokenKind::DeleteKeyword,
                TokenKind::FromKeyword,
                TokenKind::Identifier,
                TokenKind::Semicolon,
            ],
        ),
    ensures
        statement_tree(ts) is Ok,
        statement_of(statement_tree(ts)->Ok_0) == (StatementView::Delete {
            table: ts[2].text,
            where_clause: None,
        }),
{
    reveal(delete_statement);
}

/// `INSERT INTO` and a name, `VALUES` and one string literal in
/// parentheses, closed by `;`, inserts the content of that literal.
pub proof fn lemma_plain_insert(ts: Seq<Lexeme>)
    requires
        has_kinds(
            ts,
            seq![
                TokenKind::InsertKeyword,
                TokenKind::IntoKeyword,
                TokenKind::Identifier,
                TokenKind::ValuesKeyword,
                TokenKind::LeftParen,
                TokenKind::StringLiteral,
                TokenKind::RightParen,
                TokenKind::Semicolon,
            ],
        ),
    ensures
        statement_tree(ts) is Ok,
        statement_of(statement_tree(ts)->Ok_0) == (StatementView::Insert {
            table: ts[2].text,
            values: seq![unquoted(ts[5].text)],
        }),
{
    reveal(insert_statement);
    let values = statement_of(statement_tree(ts)->Ok_0)->values;
    assert(values =~= seq![unquoted(ts[5].text)]);
}

/// `UPDATE` and a name, `SET`, a name, `=` and a string literal, closed by
/// `;`, sets that column to the content of that literal, in every row.
pub proof fn lemma_plain_update(ts: Seq<Lexeme>)
    requires
        has_kinds(
            ts,
            seq![
                TokenKind::UpdateKeyword,
                TokenKind::Identifier,
                TokenKind::SetKeyword,
                TokenKind::Identifier,
                TokenKind::Equal,
                TokenKind::StringLiteral,
                TokenKind::Semicolon,
            ],
        ),
    ensures
        statement_tree(ts) is Ok,
        statement_of(statement_tree(ts)->Ok_0) == (StatementView::Update {
            table: ts[1].text,
            set: seq![(ts[3].text, unquoted(ts[5].text))],
            where_clause: None,
        }),
{
    reveal(update_statement);
    let set = statement_of(statement_tree(ts)->Ok_0)->set;
    assert(set =~= seq![(ts[3].text, unquoted(ts[5].text))]);
}

/// The token before the place where a rule ended is a `;`.
pub open spec fn ends_with_semicolon(r: Parsed, ts: Seq<Lexeme>, pos: int) -> bool {
    r matches Ok((_, n)) ==> holds(ts, pos + n - 1, TokenKind::Semicolon)
}

/// A `SELECT` statement ends with `;`.
pub proof fn lemma_select_ends_with_a_semicolon(ts: Seq<Lexeme>, pos: int)
    ensures
        ends_with_semicolon(select_statement(ts, pos), ts, pos),
{
    reveal(select_statement);
}

/// An `INSERT` statement ends with `;`.
pub proof fn lemma_insert_ends_with_a_semicolon(ts: Seq<Lexeme>, pos: int)
    ensures
        ends_with_semicolon(insert_statement(ts, pos), ts, pos),
{
    reveal(insert_statement);
}

/// An `UPDATE` statement ends with `;`.
pub proof fn lemma_update_ends_with_a_semicolon(ts: Seq<Lexeme>, pos: int)
    ensures
        ends_with_semicolon(update_statement(ts, pos), ts, pos),
{
    reveal(update_statement);
}

/// A `DELETE` statement ends with `;`.
pub proof fn lemma_delete_ends_with_a_semicolon(ts: Seq<Lexeme>, pos: int)
    ensures
        ends_with_semicolon(delete_statement(ts, pos), ts, pos),
{
    reveal(delete_statement);
}

/// A statement ends with `;`: the last of its tokens is one.
pub proof fn lemma_statements_end_with_a_semicolon(ts: Seq<Lexeme>)
    ensures
        statement_tree(ts) is Ok ==> holds(ts, ts.len() - 1, TokenKind::Semicolon),
{
    lemma_select_ends_with_a_semicolon(ts, 0);
    lemma_insert_ends_with_a_semicolon(ts, 0);
    lemma_update_ends_with_a_semicolon(ts, 0);
    lemma_delete_ends_with_a_semicolon(ts, 0);
}

/// A text that parses as a statement ends with `;`, but for white space and
/// comments.
pub proof fn lemma_text_ends_with_a_semicolon(s: Seq<char>)
    ensures
        parsed_statement(s) is Ok ==> {
            let spans = scan_tokens(s, 0)->Ok_0;
            &&& spans.len() >= 1
            &&& spans.last().kind == TokenKind::Semicolon
        },
{
    if parsed_statement(s) is Ok {
        let spans = scan_tokens(s, 0)->Ok_0;
        lemma_statements_end_with_a_semicolon(lexemes(s, spans));
    }
}

/// The value is the content of a string literal: it holds no single quote.
pub open spec fn is_value(value: Seq<char>) -> bool {
    !value.contains('\'')
}

/// The entry is an assignment: a name and a value.
pub open spec fn is_entry(entry: (Seq<char>, Seq<char>)) -> bool {
    is_identifier(entry.0) && is_value(entry.1)
}

/// The statement is one that a text can write: its table is a name; an
/// `INSERT` has at least one value and an `UPDATE` at least one assignment,
/// of a name and a value; a `GROUP BY` has at least one column.
pub open spec fn is_valid(statement: StatementView) -> bool {
    &&& is_identifier(table_of(statement))
    &&& match statement {
        StatementView::Select { group_by, .. } => group_by matches Some(group)
            ==> group.columns.len() >= 1,
        StatementView::Insert { values, .. } => {
            &&& values.len() >= 1
            &&& forall|i: int| 0 <= i < values.len() ==> is_value(#[trigger] values[i])
        },
        StatementView::Update { set, .. } => {
            &&& set.len() >= 1
            &&& forall|i: int| 0 <= i < set.len() ==> is_entry(#[trigger] set[i])
        },
        StatementView::Delete { .. } => true,
    }
}

/// A `GROUP BY` clause that the builder reads has at least one column.
proof fn lemma_groups_have_columns(parts: Seq<PairView>, i: int)
    requires
        0 <= i,
        are_clauses(parts, i),
    ensures
        group_by_of(parts, i) matches Some(group) ==> group.columns.len() >= 1,
    decreases parts.len() - i,
{
    if i < parts.len() && parts[i].rule != Rule::GroupByClause {
        lemma_groups_have_columns(parts, i + 1);
    }
}

/// Every statement that parses is valid.
pub proof fn lemma_statements_are_valid(s: Seq<char>)
    ensures
        parsed_statement(s) matches Ok(statement) ==> is_valid(statement),
{
    if let Ok(statement) = parsed_statement(s) {
        let spans = scan_tokens(s, 0)->Ok_0;
        let tree = statement_tree(lexemes(s, spans))->Ok_0;
        lemma_table_is_the_name_in_the_text(s);
        match statement {
            StatementView::Select { .. } => {
                lemma_statement_shape(lexemes(s, spans), 0);
                lemma_groups_have_columns(tree.children[0].children, 2);
            },
            StatementView::Insert { values, .. } => {
                lemma_values_are_the_literals_in_the_text(s);
                assert forall|i: int| 0 <= i < values.len() implies is_value(
                    #[trigger] values[i],
                ) by {
                    assert(is_content_in(s, spans, 5 + 2 * i, values[i]));
                }
            },
            StatementView::Update { set, .. } => {
                lemma_assignments_are_those_of_the_text(s);
                lemma_scan_shape(s, 0);
                assert forall|i: int| 0 <= i < set.len() implies is_entry(#[trigger] set[i]) by {
                    assert(is_entry_in(s, spans, 3 + 4 * i, set[i]));
                    assert(is_shaped(lexemes(s, spans)[3 + 4 * i]));
                }
            },
            StatementView::Delete { .. } => {},
        }
    }
}

} // verus!

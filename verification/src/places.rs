//! Where rules end and where they fail: inside the tokens, at or behind the
//! place where they began.

use crate::error::Failure;
use crate::expression::parsed_expression;
use crate::grammar::{
    assignment, assignments, begin, binary, chain, delete_statement, expression, expression_tree,
    from_clause, group_by_clause, holds, insert_statement, left, limit_clause, list, operand,
    optional, order_by_clause, prefix_operator, primary, select_clause, select_statement,
    set_clause, statement, statement_tree, token, unary, update_statement, where_clause, Level,
    Parsed, ParsedList,
};
use crate::parser::parsed_statement;
use crate::rule::Rule;
use crate::token::{
    lemma_scan_tokens_fit, lemma_token_fits, lemma_trivia_fits, lexemes, remaining, scan_tokens,
    token_at, trivia, Lexeme, TokenKind,
};
use vstd::prelude::*;

verus! {

/// What a rule gave at `pos` lies inside the `len` tokens: what it read ends
/// there, and a failure lies at or behind `pos` and no further than the
/// end.
pub open spec fn lies_within(r: Parsed, pos: int, len: nat) -> bool {
    match r {
        Ok((_, n)) => pos + n <= len,
        Err(failure) => pos <= failure.position <= len,
    }
}

/// What a repetition gave at `pos` lies inside the `len` tokens.
pub open spec fn all_lie_within(r: ParsedList, pos: int, len: nat) -> bool {
    match r {
        Ok((_, n)) => pos + n <= len,
        Err(failure) => pos <= failure.position <= len,
    }
}

/// A primary expression lies inside the tokens.
pub proof fn lemma_primary_lies_within(ts: Seq<Lexeme>, pos: int)
    requires
        0 <= pos <= ts.len(),
    ensures
        lies_within(primary(ts, pos), pos, ts.len()),
    decreases left(ts, pos), 0nat,
{
    if pos < ts.len() && ts[pos].kind == TokenKind::LeftParen {
        lemma_expression_lies_within(ts, pos + 1);
    }
}

/// A unary expression lies inside the tokens.
pub proof fn lemma_unary_lies_within(ts: Seq<Lexeme>, pos: int)
    requires
        0 <= pos <= ts.len(),
    ensures
        lies_within(unary(ts, pos), pos, ts.len()),
    decreases left(ts, pos), 1nat,
{
    if pos < ts.len() && prefix_operator(ts[pos].kind) is Some {
        lemma_unary_lies_within(ts, pos + 1);
    } else {
        lemma_primary_lies_within(ts, pos);
    }
}

/// An operand of `level` lies inside the tokens.
pub proof fn lemma_operand_lies_within(level: Level, ts: Seq<Lexeme>, pos: int)
    requires
        0 <= pos <= ts.len(),
    ensures
        lies_within(operand(level, ts, pos), pos, ts.len()),
    decreases left(ts, pos), 3 * level.rank() + 2,
{
    match level.tighter() {
        Some(next) => lemma_binary_lies_within(next, ts, pos),
        None => lemma_unary_lies_within(ts, pos),
    }
}

/// The rest of a chain of `level` lies inside the tokens.
pub proof fn lemma_chain_lies_within(level: Level, ts: Seq<Lexeme>, pos: int)
    requires
        0 <= pos <= ts.len(),
    ensures
        all_lie_within(chain(level, ts, pos), pos, ts.len()),
    decreases left(ts, pos), 3 * level.rank() + 3,
{
    if pos < ts.len() && level.operator(ts[pos].kind) is Some {
        lemma_operand_lies_within(level, ts, pos + 1);
        if let Ok((_, n)) = operand(level, ts, pos + 1) {
            lemma_chain_lies_within(level, ts, pos + 1 + n);
        }
    }
}

/// An expression of `level` lies inside the tokens.
pub proof fn lemma_binary_lies_within(level: Level, ts: Seq<Lexeme>, pos: int)
    requires
        0 <= pos <= ts.len(),
    ensures
        lies_within(binary(level, ts, pos), pos, ts.len()),
    decreases left(ts, pos), 3 * level.rank() + 4,
{
    lemma_operand_lies_within(level, ts, pos);
    if let Ok((_, n)) = operand(level, ts, pos) {
        lemma_chain_lies_within(level, ts, pos + n);
    }
}

/// An expression lies inside the tokens.
pub proof fn lemma_expression_lies_within(ts: Seq<Lexeme>, pos: int)
    requires
        0 <= pos <= ts.len(),
    ensures
        lies_within(expression(ts, pos), pos, ts.len()),
    decreases left(ts, pos), 20nat,
{
    lemma_binary_lies_within(Level::Or, ts, pos);
}

/// A list of tokens lies inside the tokens.
pub proof fn lemma_list_lies_within(ts: Seq<Lexeme>, pos: int, kind: TokenKind, rule: Rule)
    requires
        0 <= pos <= ts.len(),
    ensures
        all_lie_within(list(ts, pos, kind, rule), pos, ts.len()),
    decreases left(ts, pos),
{
    if holds(ts, pos, kind) && holds(ts, pos + 1, TokenKind::Comma) {
        lemma_list_lies_within(ts, pos + 2, kind, rule);
    }
}

/// A list of assignments lies inside the tokens.
pub proof fn lemma_assignments_lie_within(ts: Seq<Lexeme>, pos: int)
    requires
        0 <= pos <= ts.len(),
    ensures
        all_lie_within(assignments(ts, pos), pos, ts.len()),
    decreases left(ts, pos),
{
    if let Ok((_, n)) = assignment(ts, pos) {
        if holds(ts, pos + n, TokenKind::Comma) {
            lemma_assignments_lie_within(ts, pos + n + 1);
        }
    }
}

/// A `WHERE` clause lies inside the tokens.
pub proof fn lemma_where_lies_within(ts: Seq<Lexeme>, pos: int)
    requires
        0 <= pos <= ts.len(),
    ensures
        lies_within(where_clause(ts, pos), pos, ts.len()),
{
    if holds(ts, pos, TokenKind::WhereKeyword) {
        lemma_expression_lies_within(ts, pos + 1);
    }
}

/// A `GROUP BY` clause lies inside the tokens.
pub proof fn lemma_group_by_lies_within(ts: Seq<Lexeme>, pos: int)
    requires
        0 <= pos <= ts.len(),
    ensures
        lies_within(group_by_clause(ts, pos), pos, ts.len()),
{
    if holds(ts, pos, TokenKind::GroupKeyword) && holds(ts, pos + 1, TokenKind::ByKeyword) {
        lemma_list_lies_within(ts, pos + 2, TokenKind::Identifier, Rule::Identifier);
    }
}

/// A `SELECT` statement lies inside the tokens.
pub proof fn lemma_select_lies_within(ts: Seq<Lexeme>, pos: int)
    requires
        0 <= pos <= ts.len(),
    ensures
        lies_within(select_statement(ts, pos), pos, ts.len()),
{
    reveal(select_statement);
    let step1 = begin(pos).take(select_clause(ts, pos));
    let step2 = step1.take(from_clause(ts, step1.pos));
    let step3 = step2.take_all(
        optional(holds(ts, step2.pos, TokenKind::WhereKeyword), where_clause(ts, step2.pos)),
    );
    let step4 = step3.take_all(
        optional(holds(ts, step3.pos, TokenKind::GroupKeyword), group_by_clause(ts, step3.pos)),
    );
    let step5 = step4.take_all(
        optional(holds(ts, step4.pos, TokenKind::OrderKeyword), order_by_clause(ts, step4.pos)),
    );
    let step6 = step5.take_all(
        optional(holds(ts, step5.pos, TokenKind::LimitKeyword), limit_clause(ts, step5.pos)),
    );
    if step2.failure is None {
        lemma_where_lies_within(ts, step2.pos);
        if step3.failure is None {
            lemma_group_by_lies_within(ts, step3.pos);
        }
    }
}

/// An `INSERT` statement lies inside the tokens.
pub proof fn lemma_insert_lies_within(ts: Seq<Lexeme>, pos: int)
    requires
        0 <= pos <= ts.len(),
    ensures
        lies_within(insert_statement(ts, pos), pos, ts.len()),
{
    reveal(insert_statement);
    if pos + 5 <= ts.len() {
        lemma_list_lies_within(ts, pos + 5, TokenKind::StringLiteral, Rule::StringLiteral);
    }
}

/// An `UPDATE` statement lies inside the tokens.
pub proof fn lemma_update_lies_within(ts: Seq<Lexeme>, pos: int)
    requires
        0 <= pos <= ts.len(),
    ensures
        lies_within(update_statement(ts, pos), pos, ts.len()),
{
    reveal(update_statement);
    let step1 = begin(pos).take(token(ts, pos, TokenKind::UpdateKeyword, Rule::UpdateKeyword));
    let step2 = step1.take(token(ts, step1.pos, TokenKind::Identifier, Rule::Identifier));
    let step3 = step2.take(set_clause(ts, step2.pos));
    if pos + 3 <= ts.len() {
        lemma_assignments_lie_within(ts, pos + 3);
    }
    if step3.failure is None {
        lemma_where_lies_within(ts, step3.pos);
    }
}

/// A `DELETE` statement lies inside the tokens.
pub proof fn lemma_delete_lies_within(ts: Seq<Lexeme>, pos: int)
    requires
        0 <= pos <= ts.len(),
    ensures
        lies_within(delete_statement(ts, pos), pos, ts.len()),
{
    reveal(delete_statement);
    if pos + 3 <= ts.len() {
        lemma_where_lies_within(ts, pos + 3);
    }
}

/// A statement lies inside the tokens.
pub proof fn lemma_statement_lies_within(ts: Seq<Lexeme>, pos: int)
    requires
        0 <= pos <= ts.len(),
    ensures
        lies_within(statement(ts, pos), pos, ts.len()),
{
    lemma_select_lies_within(ts, pos);
    lemma_insert_lies_within(ts, pos);
    lemma_update_lies_within(ts, pos);
    lemma_delete_lies_within(ts, pos);
}

/// The failure lies at a token of `ts` or at their end.
pub open spec fn is_at_token(failure: Failure, ts: Seq<Lexeme>) -> bool {
    0 <= failure.position <= ts.len()
}

/// Tokens that are no statement, or no expression, fail at one of the
/// tokens or at their end.
pub proof fn lemma_failures_lie_within(ts: Seq<Lexeme>)
    ensures
        statement_tree(ts) matches Err(failure) ==> is_at_token(failure, ts),
        expression_tree(ts) matches Err(failure) ==> is_at_token(failure, ts),
{
    lemma_statement_lies_within(ts, 0);
    lemma_expression_lies_within(ts, 0);
}

/// A text that is no statement, or no expression, fails at a character of
/// the text or at its end.
pub proof fn lemma_errors_point_into_the_text(s: Seq<char>)
    ensures
        parsed_statement(s) matches Err(failure) ==> 0 <= failure.position <= s.len(),
        parsed_expression(s) matches Err(failure) ==> 0 <= failure.position <= s.len(),
{
    lemma_trivia_fits(s, 0);
    lemma_scan_fails_within(s, 0);
    if let Ok(spans) = scan_tokens(s, 0) {
        lemma_scan_tokens_fit(s, 0);
        lemma_failures_lie_within(lexemes(s, spans));
    }
}

/// Where the scanner fails, it fails at a character of the text.
pub proof fn lemma_scan_fails_within(s: Seq<char>, pos: int)
    requires
        0 <= pos <= s.len(),
    ensures
        scan_tokens(s, pos) matches Err(failure) ==> pos <= failure.position < s.len(),
    decreases remaining(s, pos),
{
    lemma_trivia_fits(s, pos);
    let start = pos + trivia(s, pos);
    if start < s.len() {
        lemma_token_fits(s, start);
        if let Ok((_, n)) = token_at(s, start) {
            lemma_scan_fails_within(s, start + n);
        }
    }
}

} // verus!

//! Expressions are whole: each covers at least one token, ends with an
//! operand, and closes every parenthesis that it opens.

use crate::grammar::{
    binary, chain, expression, expression_tree, holds, left, operand, prefix_operator, primary,
    unary, where_clause, Level,
};
use crate::token::{Lexeme, TokenKind};
use vstd::prelude::*;

verus! {

/// A token of `kind` can end an operand: it is a literal, a name or a
/// closing parenthesis.
pub open spec fn ends_operand(kind: TokenKind) -> bool {
    match kind {
        TokenKind::StringLiteral
        | TokenKind::NumberLiteral
        | TokenKind::FloatLiteral
        | TokenKind::TrueKeyword
        | TokenKind::FalseKeyword
        | TokenKind::NullKeyword
        | TokenKind::Identifier
        | TokenKind::RightParen => true,
        _ => false,
    }
}

/// What a token adds to the number of open parentheses.
pub open spec fn weight(kind: TokenKind) -> int {
    match kind {
        TokenKind::LeftParen => 1,
        TokenKind::RightParen => -1,
        _ => 0,
    }
}

/// The number of parentheses that the tokens from `from` up to `to` open
/// and do not close.
pub open spec fn depth(ts: Seq<Lexeme>, from: int, to: int) -> int
    decreases to - from,
{
    if from >= to {
        0
    } else {
        depth(ts, from, to - 1) + weight(ts[to - 1].kind)
    }
}

/// The depth of a stretch of tokens is the sum of the depths of its two
/// parts.
pub proof fn lemma_depth_adds(ts: Seq<Lexeme>, from: int, mid: int, to: int)
    requires
        from <= mid <= to,
    ensures
        depth(ts, from, to) == depth(ts, from, mid) + depth(ts, mid, to),
    decreases to - mid,
{
    if mid < to {
        lemma_depth_adds(ts, from, mid, to - 1);
    }
}

/// The `n` tokens from `pos` on are a whole stretch: at least one token,
/// inside `ts`, the last one ending an operand, and every parenthesis
/// closed.
pub open spec fn is_whole(ts: Seq<Lexeme>, pos: int, n: nat) -> bool {
    &&& n >= 1
    &&& 0 <= pos
    &&& pos + n <= ts.len()
    &&& ends_operand(ts[pos + n - 1].kind)
    &&& depth(ts, pos, pos + n) == 0
}

/// A primary expression is whole.
pub proof fn lemma_primary_is_whole(ts: Seq<Lexeme>, pos: int)
    ensures
        primary(ts, pos) matches Ok((_, n)) ==> is_whole(ts, pos, n),
    decreases left(ts, pos), 0nat,
{
    reveal_with_fuel(depth, 2);
    if 0 <= pos < ts.len() && ts[pos].kind == TokenKind::LeftParen {
        lemma_expression_is_whole(ts, pos + 1);
        if let Ok((_, n)) = expression(ts, pos + 1) {
            if holds(ts, pos + 1 + n, TokenKind::RightParen) {
                lemma_depth_adds(ts, pos, pos + 1, pos + 1 + n);
            }
        }
    }
}

/// A unary expression is whole.
pub proof fn lemma_unary_is_whole(ts: Seq<Lexeme>, pos: int)
    ensures
        unary(ts, pos) matches Ok((_, n)) ==> is_whole(ts, pos, n),
    decreases left(ts, pos), 1nat,
{
    reveal_with_fuel(depth, 2);
    if 0 <= pos < ts.len() && prefix_operator(ts[pos].kind) is Some {
        lemma_unary_is_whole(ts, pos + 1);
        if let Ok((_, n)) = unary(ts, pos + 1) {
            lemma_depth_adds(ts, pos, pos + 1, pos + 1 + n);
        }
    } else {
        lemma_primary_is_whole(ts, pos);
    }
}

/// An operand of `level` is whole.
pub proof fn lemma_operand_is_whole(level: Level, ts: Seq<Lexeme>, pos: int)
    ensures
        operand(level, ts, pos) matches Ok((_, n)) ==> is_whole(ts, pos, n),
    decreases left(ts, pos), 3 * level.rank() + 2,
{
    match level.tighter() {
        Some(next) => lemma_binary_is_whole(next, ts, pos),
        None => lemma_unary_is_whole(ts, pos),
    }
}

/// The rest of a chain of `level` is empty or whole.
pub proof fn lemma_chain_is_whole(level: Level, ts: Seq<Lexeme>, pos: int)
    ensures
        chain(level, ts, pos) matches Ok((_, n)) ==> n == 0 || is_whole(ts, pos, n),
    decreases left(ts, pos), 3 * level.rank() + 3,
{
    reveal_with_fuel(depth, 2);
    if 0 <= pos < ts.len() && level.operator(ts[pos].kind) is Some {
        lemma_operand_is_whole(level, ts, pos + 1);
        if let Ok((_, n)) = operand(level, ts, pos + 1) {
            lemma_chain_is_whole(level, ts, pos + 1 + n);
            if let Ok((_, m)) = chain(level, ts, pos + 1 + n) {
                lemma_depth_adds(ts, pos, pos + 1, pos + 1 + n);
                lemma_depth_adds(ts, pos, pos + 1 + n, pos + 1 + n + m);
            }
        }
    }
}

/// An expression of `level` is whole.
pub proof fn lemma_binary_is_whole(level: Level, ts: Seq<Lexeme>, pos: int)
    ensures
        binary(level, ts, pos) matches Ok((_, n)) ==> is_whole(ts, pos, n),
    decreases left(ts, pos), 3 * level.rank() + 4,
{
    lemma_operand_is_whole(level, ts, pos);
    if let Ok((_, n)) = operand(level, ts, pos) {
        lemma_chain_is_whole(level, ts, pos + n);
        if let Ok((_, m)) = chain(level, ts, pos + n) {
            lemma_depth_adds(ts, pos, pos + n, pos + n + m);
        }
    }
}

/// An expression is whole.
pub proof fn lemma_expression_is_whole(ts: Seq<Lexeme>, pos: int)
    ensures
        expression(ts, pos) matches Ok((_, n)) ==> is_whole(ts, pos, n),
    decreases left(ts, pos), 20nat,
{
    lemma_binary_is_whole(Level::Or, ts, pos);
}

/// Tokens that are one expression end with an operand, and hold as many
/// closing parentheses as opening ones. So no expression ends with an
/// operator, and none leaves a parenthesis open.
pub proof fn lemma_expressions_are_whole(ts: Seq<Lexeme>)
    ensures
        expression_tree(ts) is Ok ==> is_whole(ts, 0, ts.len()),
{
    lemma_expression_is_whole(ts, 0);
}

/// The condition of a `WHERE` clause is whole: it ends with an operand and
/// closes its parentheses before the clause ends.
pub proof fn lemma_conditions_are_whole(ts: Seq<Lexeme>, pos: int)
    ensures
        where_clause(ts, pos) matches Ok((_, n)) ==> n >= 2 && is_whole(
            ts,
            pos + 1,
            (n - 1) as nat,
        ),
{
    lemma_expression_is_whole(ts, pos + 1);
}

} // verus!

//! Expressions: from the parse tree to the syntax tree.
//!
//! The grammar nests the levels of the precedence ladder, so the tree
//! already groups tighter operators below looser ones. What is left is to
//! fold each level's chain of operands and operators to the left.

use crate::ast::{BinaryOperator, Expression, ExpressionView, Literal, LiteralView, UnaryOperator};
use crate::error::{Failure, ParseError};
use crate::grammar::{
    binary, chain, expression, expression_tree, left, operand, prefix_operator, primary, unary,
    Level, MAX_INTEGER,
};
use crate::number::{numeral, read_numeral};
use crate::recognizer::recognize_expression;
use crate::rule::Rule;
use crate::token::{lexemes, located, scan_tokens, Lexeme, TokenKind, Tokens};
use crate::tree::{node, Pair, PairView};
use vstd::prelude::*;
use vstd::string::*;

verus! {

/// The binary operator that an operator node of `rule` stands for.
pub open spec fn binary_operator(rule: Rule) -> Option<BinaryOperator> {
    match rule {
        Rule::OrKeyword => Some(BinaryOperator::Or),
        Rule::AndKeyword => Some(BinaryOperator::And),
        Rule::Equal => Some(BinaryOperator::Equal),
        Rule::NotEqual => Some(BinaryOperator::NotEqual),
        Rule::LessThan => Some(BinaryOperator::LessThan),
        Rule::LessThanOrEqual => Some(BinaryOperator::LessThanOrEqual),
        Rule::GreaterThan => Some(BinaryOperator::GreaterThan),
        Rule::GreaterThanOrEqual => Some(BinaryOperator::GreaterThanOrEqual),
        Rule::Add => Some(BinaryOperator::Add),
        Rule::Subtract => Some(BinaryOperator::Subtract),
        Rule::Multiply => Some(BinaryOperator::Multiply),
        Rule::Divide => Some(BinaryOperator::Divide),
        _ => None,
    }
}

/// The unary operator that an operator node of `rule` stands for.
pub open spec fn unary_operator(rule: Rule) -> Option<UnaryOperator> {
    match rule {
        Rule::NotKeyword => Some(UnaryOperator::Not),
        Rule::Minus => Some(UnaryOperator::Minus),
        _ => None,
    }
}

/// The level whose expressions carry `rule`.
pub open spec fn level_of(rule: Rule) -> Option<Level> {
    match rule {
        Rule::OrExpression => Some(Level::Or),
        Rule::AndExpression => Some(Level::And),
        Rule::EqualityExpression => Some(Level::Equality),
        Rule::ComparisonExpression => Some(Level::Comparison),
        Rule::AdditiveExpression => Some(Level::Additive),
        Rule::MultiplicativeExpression => Some(Level::Multiplicative),
        _ => None,
    }
}

impl Level {
    /// The rule of this level's operands.
    pub open spec fn operand_rule(self) -> Rule {
        match self.tighter() {
            Some(next) => next.rule(),
            None => Rule::UnaryExpression,
        }
    }

    /// `rule` is the rule of one of this level's operators.
    pub open spec fn has_operator(self, rule: Rule) -> bool {
        match self {
            Level::Or => rule == Rule::OrKeyword,
            Level::And => rule == Rule::AndKeyword,
            Level::Equality => rule == Rule::Equal || rule == Rule::NotEqual,
            Level::Comparison => rule == Rule::LessThan || rule == Rule::LessThanOrEqual || rule
                == Rule::GreaterThan || rule == Rule::GreaterThanOrEqual,
            Level::Additive => rule == Rule::Add || rule == Rule::Subtract,
            Level::Multiplicative => rule == Rule::Multiply || rule == Rule::Divide,
        }
    }
}

/// `text` without its first and its last character: the content of a string
/// literal, without the quotes around it.
pub open spec fn unquoted(text: Seq<char>) -> Seq<char> {
    if text.len() >= 2 {
        text.subrange(1, text.len() - 1)
    } else {
        Seq::empty()
    }
}

/// The tree is one that the grammar gives for an expression, or for a part
/// of one: each node has the parts of its rule, in their order.
pub open spec fn is_expression(t: PairView) -> bool
    decreases t,
{
    match t.rule {
        Rule::Expression => t.children.len() == 1 && t.children[0].rule == Rule::OrExpression
            && is_expression(t.children[0]),
        Rule::OrExpression
        | Rule::AndExpression
        | Rule::EqualityExpression
        | Rule::ComparisonExpression
        | Rule::AdditiveExpression
        | Rule::MultiplicativeExpression => {
            let level = level_of(t.rule)->0;
            &&& t.children.len() % 2 == 1
            &&& forall|i: int|
                0 <= i < t.children.len() ==> if i % 2 == 0 {
                    (#[trigger] t.children[i]).rule == level.operand_rule() && is_expression(
                        t.children[i],
                    )
                } else {
                    t.children[i].children.len() == 0 && level.has_operator(t.children[i].rule)
                }
        },
        Rule::UnaryExpression => {
            ||| t.children.len() == 1 && t.children[0].rule == Rule::PrimaryExpression
                && is_expression(t.children[0])
            ||| t.children.len() == 2 && t.children[0].children.len() == 0 && unary_operator(
                t.children[0].rule,
            ) is Some && t.children[1].rule == Rule::UnaryExpression && is_expression(
                t.children[1],
            )
        },
        Rule::PrimaryExpression => {
            &&& t.children.len() == 1
            &&& is_expression(t.children[0])
            &&& t.children[0].rule != Rule::PrimaryExpression
            &&& t.children[0].rule != Rule::UnaryExpression
            &&& level_of(t.children[0].rule) is None
        },
        Rule::StringLiteral => t.children.len() == 0,
        Rule::NumberLiteral => t.children.len() == 0 && numeral(t.text, MAX_INTEGER) is Some,
        Rule::FloatLiteral => t.children.len() == 0,
        Rule::Identifier => t.children.len() == 0,
        Rule::BooleanLiteral => t.children.len() == 1 && (t.children[0].is_token(Rule::TrueKeyword)
            || t.children[0].is_token(Rule::FalseKeyword)),
        Rule::NullLiteral => t.children.len() == 1 && t.children[0].is_token(Rule::NullKeyword),
        _ => false,
    }
}

/// The expression that a tree of the grammar stands for.
///
/// A node of a level of binary operators folds its chain to the left
/// ([`folded`]); a unary node applies its operator to what follows; a
/// primary node and the top node stand for their one part; a literal and a
/// name stand for themselves. Of a tree that the grammar cannot give,
/// nothing is said.
pub open spec fn expression_of(t: PairView) -> ExpressionView
    decreases t, 0nat,
{
    match t.rule {
        Rule::StringLiteral => ExpressionView::Literal(LiteralView::String(unquoted(t.text))),
        Rule::NumberLiteral => ExpressionView::Literal(
            LiteralView::Number(numeral(t.text, MAX_INTEGER).unwrap() as i64),
        ),
        Rule::FloatLiteral => ExpressionView::Literal(LiteralView::Float(t.text)),
        Rule::BooleanLiteral => ExpressionView::Literal(
            LiteralView::Boolean(t.children[0].rule == Rule::TrueKeyword),
        ),
        Rule::NullLiteral => ExpressionView::Literal(LiteralView::Null),
        Rule::Identifier => ExpressionView::Column(t.text),
        Rule::UnaryExpression => if t.children.len() == 2 {
            ExpressionView::Unary {
                operator: unary_operator(t.children[0].rule).unwrap(),
                operand: Box::new(expression_of(t.children[1])),
            }
        } else if t.children.len() == 1 {
            expression_of(t.children[0])
        } else {
            arbitrary()
        },
        Rule::OrExpression
        | Rule::AndExpression
        | Rule::EqualityExpression
        | Rule::ComparisonExpression
        | Rule::AdditiveExpression
        | Rule::MultiplicativeExpression => if t.children.len() > 0 {
            folded(t.children, ((t.children.len() - 1) / 2) as nat)
        } else {
            arbitrary()
        },
        Rule::Expression | Rule::PrimaryExpression => if t.children.len() == 1 {
            expression_of(t.children[0])
        } else {
            arbitrary()
        },
        _ => arbitrary(),
    }
}

/// The chain `parts` (an operand, then operators and operands in turn) up to
/// its `k`th operator, folded to the left: the first operand alone for
/// `k == 0`; otherwise the `k`th operator, with all that stands before it as
/// its left side and the operand behind it as its right side.
pub open spec fn folded(parts: Seq<PairView>, k: nat) -> ExpressionView
    decreases parts, k,
{
    if 2 * k >= parts.len() {
        arbitrary()
    } else if k == 0 {
        expression_of(parts[0])
    } else {
        ExpressionView::Binary {
            left: Box::new(folded(parts, (k - 1) as nat)),
            operator: binary_operator(parts[2 * k - 1].rule).unwrap(),
            right: Box::new(expression_of(parts[2 * k as int])),
        }
    }
}

/// Computes [`binary_operator`].
fn binary_operator_for(rule: Rule) -> (r: Option<BinaryOperator>)
    ensures
        r == binary_operator(rule),
{
    match rule {
        Rule::OrKeyword => Some(BinaryOperator::Or),
        Rule::AndKeyword => Some(BinaryOperator::And),
        Rule::Equal => Some(BinaryOperator::Equal),
        Rule::NotEqual => Some(BinaryOperator::NotEqual),
        Rule::LessThan => Some(BinaryOperator::LessThan),
        Rule::LessThanOrEqual => Some(BinaryOperator::LessThanOrEqual),
        Rule::GreaterThan => Some(BinaryOperator::GreaterThan),
        Rule::GreaterThanOrEqual => Some(BinaryOperator::GreaterThanOrEqual),
        Rule::Add => Some(BinaryOperator::Add),
        Rule::Subtract => Some(BinaryOperator::Subtract),
        Rule::Multiply => Some(BinaryOperator::Multiply),
        Rule::Divide => Some(BinaryOperator::Divide),
        _ => None,
    }
}

/// Computes [`unary_operator`].
fn unary_operator_for(rule: Rule) -> (r: Option<UnaryOperator>)
    ensures
        r == unary_operator(rule),
{
    match rule {
        Rule::NotKeyword => Some(UnaryOperator::Not),
        Rule::Minus => Some(UnaryOperator::Minus),
        _ => None,
    }
}

/// The content of a string literal: `text` without the quotes around it.
pub fn unquote(text: &str) -> (content: String)
    ensures
        content@ == unquoted(text@),
{
    let n = text.unicode_len();
    if n >= 2 {
        String::from_str(text.substring_char(1, n - 1))
    } else {
        String::new()
    }
}

/// Builds the expression of a node of a level of binary operators: its
/// first operand, then each operator with the operand behind it, the result
/// so far being the left side each time.
fn fold_chain(pair: &Pair) -> (e: Expression)
    requires
        is_expression(pair@),
        level_of(pair@.rule) is Some,
    ensures
        e@ == expression_of(pair@),
    decreases pair, 0nat,
{
    let n = pair.len();
    let ghost parts = pair@.children;
    let mut e = expression_from(pair.child(0));
    let mut i: usize = 1;
    while i < n
        invariant
            is_expression(pair@),
            level_of(pair@.rule) is Some,
            parts == pair@.children,
            n == parts.len(),
            n % 2 == 1,
            i % 2 == 1,
            i <= n + 1,
            e@ == folded(parts, (i / 2) as nat),
        decreases n + 1 - i,
    {
        let sign = pair.child(i);
        let operand = pair.child(i + 1);
        let operator = binary_operator_for(sign.as_rule()).unwrap();
        let right = expression_from(operand);
        e = Expression::Binary { left: Box::new(e), operator, right: Box::new(right) };
        i = i + 2;
    }
    e
}

/// Builds the expression of a tree of the grammar.
pub(crate) fn expression_from(pair: &Pair) -> (e: Expression)
    requires
        is_expression(pair@),
    ensures
        e@ == expression_of(pair@),
    decreases pair, 1nat,
{
    match pair.as_rule() {
        Rule::StringLiteral => Expression::Literal(Literal::String(unquote(pair.as_str()))),
        Rule::NumberLiteral => {
            let value = read_numeral(pair.as_str(), MAX_INTEGER).unwrap();
            Expression::Literal(Literal::Number(value as i64))
        },
        Rule::FloatLiteral => Expression::Literal(Literal::Float(String::from_str(pair.as_str()))),
        Rule::BooleanLiteral => {
            let word = pair.child(0).as_rule();
            Expression::Literal(Literal::Boolean(word == Rule::TrueKeyword))
        },
        Rule::NullLiteral => Expression::Literal(Literal::Null),
        Rule::Identifier => Expression::Column(String::from_str(pair.as_str())),
        Rule::UnaryExpression => {
            if pair.len() == 2 {
                let operator = unary_operator_for(pair.child(0).as_rule()).unwrap();
                let operand = expression_from(pair.child(1));
                Expression::Unary { operator, operand: Box::new(operand) }
            } else {
                expression_from(pair.child(0))
            }
        },
        Rule::OrExpression
        | Rule::AndExpression
        | Rule::EqualityExpression
        | Rule::ComparisonExpression
        | Rule::AdditiveExpression
        | Rule::MultiplicativeExpression => fold_chain(pair),
        Rule::Expression | Rule::PrimaryExpression => expression_from(pair.child(0)),
        _ => unreached(),
    }
}

/// Builds the expression that `pair` stands for. `pair` is a tree that the
/// grammar gives for an expression or for a part of one.
pub fn build_expression(pair: Pair) -> (e: Expression)
    requires
        is_expression(pair@),
    ensures
        e@ == expression_of(pair@),
{
    expression_from(&pair)
}

/// The trees are what follows the first operand in a chain of `level`:
/// operators of the level and operands, in turn.
pub open spec fn is_chain(level: Level, trees: Seq<PairView>) -> bool {
    &&& trees.len() % 2 == 0
    &&& forall|i: int|
        0 <= i < trees.len() ==> if i % 2 == 1 {
            (#[trigger] trees[i]).rule == level.operand_rule() && is_expression(trees[i])
        } else {
            trees[i].children.len() == 0 && level.has_operator(trees[i].rule)
        }
}

/// What the grammar gives for a primary expression is a tree of a primary
/// expression.
pub proof fn lemma_primary_shape(ts: Seq<Lexeme>, pos: int)
    ensures
        primary(ts, pos) matches Ok((t, _)) ==> t.rule == Rule::PrimaryExpression && is_expression(
            t,
        ),
    decreases left(ts, pos), 0nat,
{
    reveal_with_fuel(is_expression, 3);
    if 0 <= pos < ts.len() && ts[pos].kind == TokenKind::LeftParen {
        lemma_expression_shape(ts, pos + 1);
    }
}

/// What the grammar gives for a unary expression is a tree of a unary
/// expression.
pub proof fn lemma_unary_shape(ts: Seq<Lexeme>, pos: int)
    ensures
        unary(ts, pos) matches Ok((t, _)) ==> t.rule == Rule::UnaryExpression && is_expression(t),
    decreases left(ts, pos), 1nat,
{
    if 0 <= pos < ts.len() && prefix_operator(ts[pos].kind) is Some {
        lemma_unary_shape(ts, pos + 1);
    } else {
        lemma_primary_shape(ts, pos);
    }
}

/// What the grammar gives for an operand of `level` is a tree of such an
/// operand.
pub proof fn lemma_operand_shape(level: Level, ts: Seq<Lexeme>, pos: int)
    ensures
        operand(level, ts, pos) matches Ok((t, _)) ==> t.rule == level.operand_rule()
            && is_expression(t),
    decreases left(ts, pos), 3 * level.rank() + 2,
{
    match level.tighter() {
        Some(next) => lemma_binary_shape(next, ts, pos),
        None => lemma_unary_shape(ts, pos),
    }
}

/// What the grammar gives for the rest of a chain of `level` is such a rest.
pub proof fn lemma_chain_shape(level: Level, ts: Seq<Lexeme>, pos: int)
    ensures
        chain(level, ts, pos) matches Ok((trees, _)) ==> is_chain(level, trees),
    decreases left(ts, pos), 3 * level.rank() + 3,
{
    if 0 <= pos < ts.len() && level.operator(ts[pos].kind) is Some {
        lemma_operand_shape(level, ts, pos + 1);
        if let Ok((right, n)) = operand(level, ts, pos + 1) {
            lemma_chain_shape(level, ts, pos + 1 + n);
        }
    }
}

/// What the grammar gives for an expression of `level` is a tree of such an
/// expression.
pub proof fn lemma_binary_shape(level: Level, ts: Seq<Lexeme>, pos: int)
    ensures
        binary(level, ts, pos) matches Ok((t, _)) ==> t.rule == level.rule() && is_expression(t),
    decreases left(ts, pos), 3 * level.rank() + 4,
{
    lemma_operand_shape(level, ts, pos);
    if let Ok((first, n)) = operand(level, ts, pos) {
        lemma_chain_shape(level, ts, pos + n);
    }
}

/// What the grammar gives for an expression is a tree of an expression.
pub proof fn lemma_expression_shape(ts: Seq<Lexeme>, pos: int)
    ensures
        expression(ts, pos) matches Ok((t, _)) ==> t.rule == Rule::Expression && is_expression(t),
    decreases left(ts, pos), 20nat,
{
    lemma_binary_shape(Level::Or, ts, pos);
}

/// Folding a chain up to its `k`th operator does not look behind the
/// operand of that operator.
pub proof fn lemma_fold_reads_a_prefix(parts: Seq<PairView>, k: nat, n: int)
    requires
        2 * k < n <= parts.len(),
    ensures
        folded(parts.take(n), k) == folded(parts, k),
    decreases k,
{
    if k > 0 {
        lemma_fold_reads_a_prefix(parts, (k - 1) as nat, n);
    }
}

/// Chains fold to the left: the expression of a chain with at least one
/// operator is its last operator, applied to the expression of the chain
/// before that operator and to the last operand.
pub proof fn lemma_chains_fold_to_the_left(t: PairView)
    requires
        is_expression(t),
        level_of(t.rule) is Some,
        t.children.len() >= 3,
    ensures
        ({
            let n = t.children.len() as int;
            expression_of(t) == ExpressionView::Binary {
                left: Box::new(expression_of(node(t.rule, t.children.take(n - 2)))),
                operator: binary_operator(t.children[n - 2].rule).unwrap(),
                right: Box::new(expression_of(t.children[n - 1])),
            }
        }),
        is_expression(node(t.rule, t.children.take(t.children.len() - 2))),
        binary_operator(t.children[t.children.len() - 2].rule) is Some,
{
    let n = t.children.len() as int;
    let k = ((n - 1) / 2) as nat;
    lemma_fold_reads_a_prefix(t.children, (k - 1) as nat, n - 2);
    assert(expression_of(t) == folded(t.children, k));
}

/// The parse tree of the text `s` read as one expression.
pub open spec fn expression_pairs(s: Seq<char>) -> Result<PairView, Failure> {
    match scan_tokens(s, 0) {
        Err(failure) => Err(failure),
        Ok(spans) => match expression_tree(lexemes(s, spans)) {
            Err(failure) => Err(located(s, spans, failure)),
            Ok(tree) => Ok(tree),
        },
    }
}

/// The expression that the text `s` writes, or where and why it writes
/// none.
pub open spec fn parsed_expression(s: Seq<char>) -> Result<ExpressionView, Failure> {
    match expression_pairs(s) {
        Err(failure) => Err(failure),
        Ok(tree) => Ok(expression_of(tree)),
    }
}

/// The recogniser of expressions.
pub struct ExpressionParser;

impl ExpressionParser {
    /// Reads `text` as one expression and gives its parse tree.
    pub fn parse(text: &str) -> (r: Result<Pair, ParseError>)
        ensures
            match r {
                Ok(pair) => expression_pairs(text@) == Ok::<PairView, Failure>(pair@)
                    && is_expression(pair@),
                Err(error) => expression_pairs(text@) == Err::<PairView, Failure>(error@),
            },
    {
        let ts = Tokens::scan(text)?;
        proof {
            lemma_expression_shape(ts.lexemes(), 0);
        }
        match recognize_expression(&ts) {
            Ok(pair) => Ok(pair),
            Err(error) => Err(ts.locate(error)),
        }
    }
}

/// Parses `text` as one expression.
pub fn parse_expression(text: &str) -> (r: Result<Expression, ParseError>)
    ensures
        match r {
            Ok(e) => parsed_expression(text@) == Ok::<ExpressionView, Failure>(e@),
            Err(error) => parsed_expression(text@) == Err::<ExpressionView, Failure>(error@),
        },
{
    let pair = ExpressionParser::parse(text)?;
    Ok(build_expression(pair))
}

} // verus!

//! Chains of names: `a - b - c` is `(a - b) - c`.
//!
//! Names joined by operators of one level, with no tighter operator among
//! them, are read as one expression of that level, and the expression nests
//! to the left.

use crate::ast::ExpressionView;
use crate::error::Failure;
use crate::expression::{binary_operator, expression_of, folded};
use crate::grammar::{
    binary, chain, expression, expression_tree, holds, operand, primary, unary, Level,
};
use crate::rule::Rule;
use crate::token::{Lexeme, TokenKind};
use crate::tree::{leaf, node, PairView};
use vstd::prelude::*;

verus! {

/// The token at `pos`, if there is one, is no operator of `level` nor of a
/// tighter level.
pub open spec fn ends_level(level: Level, ts: Seq<Lexeme>, pos: int) -> bool
    decreases level.rank(),
{
    &&& 0 <= pos < ts.len() ==> level.operator(ts[pos].kind) is None
    &&& match level.tighter() {
        Some(next) => ends_level(next, ts, pos),
        None => true,
    }
}

/// The tree of a lone name read as an operand of `level`: the name, as a
/// primary and a unary expression and as an expression of each tighter
/// level in turn.
pub open spec fn name_operand(level: Level, text: Seq<char>) -> PairView
    decreases level.rank(),
{
    match level.tighter() {
        Some(next) => node(next.rule(), seq![name_operand(next, text)]),
        None => node(
            Rule::UnaryExpression,
            seq![node(Rule::PrimaryExpression, seq![leaf(Rule::Identifier, text)])],
        ),
    }
}

/// A name before which no prefix operator stands, and behind which no
/// tighter operator follows, is an operand of `level`, and stands for the
/// column of that name.
pub proof fn lemma_name_is_operand(level: Level, ts: Seq<Lexeme>, pos: int)
    requires
        holds(ts, pos, TokenKind::Identifier),
        match level.tighter() {
            Some(next) => ends_level(next, ts, pos + 1),
            None => true,
        },
    ensures
        operand(level, ts, pos) == Ok::<(PairView, nat), Failure>(
            (name_operand(level, ts[pos].text), 1),
        ),
        expression_of(name_operand(level, ts[pos].text)) == ExpressionView::Column(ts[pos].text),
    decreases level.rank(),
{
    reveal_with_fuel(expression_of, 3);
    match level.tighter() {
        Some(next) => {
            lemma_name_is_operand(next, ts, pos);
            let inner = name_operand(next, ts[pos].text);
            assert(binary(next, ts, pos) == Ok::<_, Failure>(
                (node(next.rule(), seq![inner]), 1nat),
            ));
        },
        None => {
            assert(primary(ts, pos) is Ok);
        },
    }
}

/// From `pos` on stand `k` operators of `level`, each with a name behind
/// it, and then the level ends.
pub open spec fn is_name_chain(level: Level, ts: Seq<Lexeme>, pos: int, k: nat) -> bool
    decreases k,
{
    if k == 0 {
        ends_level(level, ts, pos)
    } else {
        &&& 0 <= pos < ts.len()
        &&& level.operator(ts[pos].kind) is Some
        &&& holds(ts, pos + 1, TokenKind::Identifier)
        &&& is_name_chain(level, ts, pos + 2, (k - 1) as nat)
    }
}

/// The nodes of a chain of `k` operators and names from `pos` on.
pub open spec fn name_chain(level: Level, ts: Seq<Lexeme>, pos: int, k: nat) -> Seq<PairView>
    decreases k,
{
    if k == 0 {
        Seq::empty()
    } else {
        seq![
            leaf(level.operator(ts[pos].kind).unwrap(), ts[pos].text),
            name_operand(level, ts[pos + 1].text),
        ] + name_chain(level, ts, pos + 2, (k - 1) as nat)
    }
}

/// In a chain of names, the level ends behind each name for every tighter
/// level: an operator of the level itself follows, or the end of the level.
proof fn lemma_tighter_levels_end(level: Level, ts: Seq<Lexeme>, pos: int, k: nat)
    requires
        is_name_chain(level, ts, pos, k),
    ensures
        match level.tighter() {
            Some(next) => ends_level(next, ts, pos),
            None => true,
        },
{
    if let Some(next) = level.tighter() {
        if k > 0 {
            lemma_ends_level_when_missed(level, next, ts, pos);
        }
    }
}

/// A token that is an operator of one level is none of any other.
proof fn lemma_other_levels_miss(level: Level, other: Level, kind: TokenKind)
    requires
        level.operator(kind) is Some,
        level != other,
    ensures
        other.operator(kind) is None,
{
}

/// Where an operator of `level` stands, every tighter level ends.
proof fn lemma_ends_level_when_missed(level: Level, below: Level, ts: Seq<Lexeme>, pos: int)
    requires
        0 <= pos < ts.len(),
        level.operator(ts[pos].kind) is Some,
        below.rank() < level.rank(),
    ensures
        ends_level(below, ts, pos),
    decreases below.rank(),
{
    if let Some(next) = below.tighter() {
        lemma_ends_level_when_missed(level, next, ts, pos);
    }
}

/// A chain of names is read as the rest of a chain of the level.
pub proof fn lemma_name_chain_is_read(level: Level, ts: Seq<Lexeme>, pos: int, k: nat)
    requires
        is_name_chain(level, ts, pos, k),
    ensures
        chain(level, ts, pos) == Ok::<(Seq<PairView>, nat), Failure>(
            (name_chain(level, ts, pos, k), 2 * k),
        ),
        name_chain(level, ts, pos, k).len() == 2 * k,
    decreases k,
{
    if k > 0 {
        lemma_tighter_levels_end(level, ts, pos + 2, (k - 1) as nat);
        lemma_name_is_operand(level, ts, pos + 1);
        lemma_name_chain_is_read(level, ts, pos + 2, (k - 1) as nat);
    }
}

/// The names of a chain with the operators between them, nested to the
/// left: the first name alone for `k == 0`; otherwise the `k`th operator,
/// with the chain before it as its left side and the name behind it as its
/// right side.
pub open spec fn nested_left(level: Level, ts: Seq<Lexeme>, pos: int, k: nat) -> ExpressionView
    decreases k,
{
    if k == 0 {
        ExpressionView::Column(ts[pos].text)
    } else {
        ExpressionView::Binary {
            left: Box::new(nested_left(level, ts, pos, (k - 1) as nat)),
            operator: binary_operator(level.operator(ts[pos + 2 * k - 1].kind).unwrap()).unwrap(),
            right: Box::new(ExpressionView::Column(ts[pos + 2 * k].text)),
        }
    }
}

/// The `j`th node of a chain of names: an operator at the even places, a
/// name at the odd ones.
proof fn lemma_name_chain_items(level: Level, ts: Seq<Lexeme>, pos: int, k: nat, j: int)
    requires
        is_name_chain(level, ts, pos, k),
        0 <= j < 2 * k,
    ensures
        name_chain(level, ts, pos, k).len() == 2 * k,
        j % 2 == 0 ==> name_chain(level, ts, pos, k)[j] == leaf(
            level.operator(ts[pos + j].kind).unwrap(),
            ts[pos + j].text,
        ) && level.operator(ts[pos + j].kind) is Some,
        j % 2 == 1 ==> name_chain(level, ts, pos, k)[j] == name_operand(level, ts[pos + j].text)
            && holds(ts, pos + j, TokenKind::Identifier),
    decreases k,
{
    lemma_name_chain_is_read(level, ts, pos, k);
    if j >= 2 {
        lemma_name_chain_items(level, ts, pos + 2, (k - 1) as nat, j - 2);
    }
}

/// Names joined by operators of one level are one expression of that
/// level, nested to the left: `a - b - c` is `(a - b) - c`.
pub proof fn lemma_names_nest_to_the_left(level: Level, ts: Seq<Lexeme>, pos: int, k: nat)
    requires
        holds(ts, pos, TokenKind::Identifier),
        is_name_chain(level, ts, pos + 1, k),
    ensures
        binary(level, ts, pos) is Ok,
        binary(level, ts, pos)->Ok_0.1 == 2 * k + 1,
        expression_of(binary(level, ts, pos)->Ok_0.0) == nested_left(level, ts, pos, k),
{
    lemma_tighter_levels_end(level, ts, pos + 1, k);
    lemma_name_is_operand(level, ts, pos);
    lemma_name_chain_is_read(level, ts, pos + 1, k);
    lemma_fold_of_names(level, ts, pos, k, k);
}

/// Folding a chain of names up to its `j`th operator nests the first `j`
/// operators to the left.
proof fn lemma_fold_of_names(level: Level, ts: Seq<Lexeme>, pos: int, k: nat, j: nat)
    requires
        holds(ts, pos, TokenKind::Identifier),
        is_name_chain(level, ts, pos + 1, k),
        match level.tighter() {
            Some(next) => ends_level(next, ts, pos + 1),
            None => true,
        },
        j <= k,
    ensures
        folded(seq![name_operand(level, ts[pos].text)] + name_chain(level, ts, pos + 1, k), j)
            == nested_left(level, ts, pos, j),
    decreases j,
{
    lemma_name_is_operand(level, ts, pos);
    if j == 0 {
    } else {
        lemma_fold_of_names(level, ts, pos, k, (j - 1) as nat);
        lemma_name_chain_items(level, ts, pos + 1, k, 2 * j - 2);
        lemma_name_chain_items(level, ts, pos + 1, k, 2 * j - 1);
        lemma_name_chain_tail(level, ts, pos + 1, k, j);
        lemma_tighter_levels_end(level, ts, pos + 2 * j + 1, (k - j) as nat);
        lemma_name_is_operand(level, ts, pos + 2 * j);
    }
}

/// What is left of a chain of names behind its first `j` operators and
/// names is a chain of names.
proof fn lemma_name_chain_tail(level: Level, ts: Seq<Lexeme>, pos: int, k: nat, j: nat)
    requires
        is_name_chain(level, ts, pos, k),
        j <= k,
    ensures
        is_name_chain(level, ts, pos + 2 * j, (k - j) as nat),
    decreases j,
{
    if j > 0 {
        lemma_name_chain_tail(level, ts, pos + 2, (k - 1) as nat, (j - 1) as nat);
    }
}

/// No binary operator stands at `pos`.
pub open spec fn ends_expression(ts: Seq<Lexeme>, pos: int) -> bool {
    0 <= pos < ts.len() ==> forall|level: Level| (#[trigger] level.operator(ts[pos].kind)) is None
}

/// An expression of a level behind which no binary operator stands is an
/// expression of every looser level, and stands for the same there.
pub proof fn lemma_looser_levels_agree(level: Level, looser: Level, ts: Seq<Lexeme>, pos: int)
    requires
        binary(level, ts, pos) is Ok,
        ends_expression(ts, pos + binary(level, ts, pos)->Ok_0.1),
        0 <= pos,
        level.rank() <= looser.rank(),
    ensures
        binary(looser, ts, pos) is Ok,
        binary(looser, ts, pos)->Ok_0.1 == binary(level, ts, pos)->Ok_0.1,
        expression_of(binary(looser, ts, pos)->Ok_0.0) == expression_of(
            binary(level, ts, pos)->Ok_0.0,
        ),
    decreases looser.rank(),
{
    if level.rank() < looser.rank() {
        let next = looser.tighter()->0;
        lemma_looser_levels_agree(level, next, ts, pos);
        let (inner, n) = binary(next, ts, pos)->Ok_0;
        let tree = node(looser.rule(), seq![inner]);
        assert(expression_of(tree) == folded(seq![inner], 0));
    }
}

/// Tokens that are names joined by operators of one level, and nothing
/// more, are one expression, nested to the left.
pub proof fn lemma_chain_of_names(level: Level, ts: Seq<Lexeme>, k: nat)
    requires
        ts.len() == 2 * k + 1,
        holds(ts, 0, TokenKind::Identifier),
        is_name_chain(level, ts, 1, k),
    ensures
        expression_tree(ts) is Ok,
        expression_of(expression_tree(ts)->Ok_0) == nested_left(level, ts, 0, k),
{
    lemma_names_nest_to_the_left(level, ts, 0, k);
    lemma_looser_levels_agree(level, Level::Or, ts, 0);
}

/// The column of the name at `pos`.
pub open spec fn column(ts: Seq<Lexeme>, pos: int) -> ExpressionView {
    ExpressionView::Column(ts[pos].text)
}

/// `a + b * c` is `a + (b * c)`: in a name, `+` or `-`, a name, `*` or `/`
/// and a name, the product or quotient is the right side of the sum or
/// difference.
pub proof fn lemma_products_bind_tighter(ts: Seq<Lexeme>)
    requires
        ts.len() == 5,
        holds(ts, 0, TokenKind::Identifier),
        Level::Additive.operator(ts[1].kind) is Some,
        holds(ts, 2, TokenKind::Identifier),
        Level::Multiplicative.operator(ts[3].kind) is Some,
        holds(ts, 4, TokenKind::Identifier),
    ensures
        expression_tree(ts) is Ok,
        expression_of(expression_tree(ts)->Ok_0) == (ExpressionView::Binary {
            left: Box::new(column(ts, 0)),
            operator: binary_operator(Level::Additive.operator(ts[1].kind).unwrap()).unwrap(),
            right: Box::new(
                ExpressionView::Binary {
                    left: Box::new(column(ts, 2)),
                    operator: binary_operator(
                        Level::Multiplicative.operator(ts[3].kind).unwrap(),
                    ).unwrap(),
                    right: Box::new(column(ts, 4)),
                },
            ),
        }),
{
    reveal_with_fuel(is_name_chain, 3);
    reveal_with_fuel(ends_level, 7);
    reveal_with_fuel(nested_left, 3);
    reveal_with_fuel(folded, 3);
    let sum = Level::Additive;
    let product = Level::Multiplicative;
    // The product: the names at 2 and 4 with the operator between them.
    lemma_names_nest_to_the_left(product, ts, 2, 1);
    let (right, n) = binary(product, ts, 2)->Ok_0;
    assert(n == 3);
    // The sum: the name at 0, the operator, and the product.
    lemma_name_is_operand(sum, ts, 0);
    let first = name_operand(sum, ts[0].text);
    let sign = leaf(sum.operator(ts[1].kind).unwrap(), ts[1].text);
    assert(operand(sum, ts, 2) == binary(product, ts, 2));
    assert(chain(sum, ts, 5) == Ok::<_, Failure>((Seq::<PairView>::empty(), 0nat)));
    assert(seq![sign, right] + Seq::<PairView>::empty() =~= seq![sign, right]);
    assert(chain(sum, ts, 1) == Ok::<_, Failure>((seq![sign, right], 4nat)));
    let parts = seq![first] + seq![sign, right];
    assert(parts =~= seq![first, sign, right]);
    let tree = node(sum.rule(), parts);
    assert(binary(sum, ts, 0) == Ok::<_, Failure>((tree, 5nat)));
    assert(expression_of(tree) == folded(parts, 1));
    lemma_looser_levels_agree(sum, Level::Or, ts, 0);
}

/// `(a + b) * c` is what it says: in an opening parenthesis, a name, `+` or
/// `-`, a name, a closing parenthesis, `*` or `/` and a name, the sum or
/// difference is the left side of the product or quotient.
#[verifier::rlimit(30)]
pub proof fn lemma_parentheses_come_first(ts: Seq<Lexeme>)
    requires
        ts.len() == 7,
        holds(ts, 0, TokenKind::LeftParen),
        holds(ts, 1, TokenKind::Identifier),
        Level::Additive.operator(ts[2].kind) is Some,
        holds(ts, 3, TokenKind::Identifier),
        holds(ts, 4, TokenKind::RightParen),
        Level::Multiplicative.operator(ts[5].kind) is Some,
        holds(ts, 6, TokenKind::Identifier),
    ensures
        expression_tree(ts) is Ok,
        expression_of(expression_tree(ts)->Ok_0) == (ExpressionView::Binary {
            left: Box::new(
                ExpressionView::Binary {
                    left: Box::new(column(ts, 1)),
                    operator: binary_operator(
                        Level::Additive.operator(ts[2].kind).unwrap(),
                    ).unwrap(),
                    right: Box::new(column(ts, 3)),
                },
            ),
            operator: binary_operator(
                Level::Multiplicative.operator(ts[5].kind).unwrap(),
            ).unwrap(),
            right: Box::new(column(ts, 6)),
        }),
{
    reveal_with_fuel(is_name_chain, 3);
    reveal_with_fuel(ends_level, 7);
    reveal_with_fuel(nested_left, 3);
    reveal_with_fuel(folded, 3);
    reveal_with_fuel(expression_of, 3);
    let sum = Level::Additive;
    let product = Level::Multiplicative;
    // The sum in the parentheses.
    lemma_names_nest_to_the_left(sum, ts, 1, 1);
    lemma_looser_levels_agree(sum, Level::Or, ts, 1);
    let (inner, n) = expression(ts, 1)->Ok_0;
    assert(n == 3);
    assert(expression_of(inner) == expression_of(binary(Level::Or, ts, 1)->Ok_0.0));
    // The parentheses, as the first operand of the product.
    let group = node(Rule::PrimaryExpression, seq![inner]);
    assert(primary(ts, 0) == Ok::<_, Failure>((group, 5nat)));
    let first = node(Rule::UnaryExpression, seq![group]);
    assert(unary(ts, 0) == Ok::<_, Failure>((first, 5nat)));
    assert(expression_of(first) == expression_of(inner));
    // The product.
    lemma_name_is_operand(product, ts, 6);
    let sign = leaf(product.operator(ts[5].kind).unwrap(), ts[5].text);
    let last = name_operand(product, ts[6].text);
    assert(chain(product, ts, 7) == Ok::<_, Failure>((Seq::<PairView>::empty(), 0nat)));
    assert(seq![sign, last] + Seq::<PairView>::empty() =~= seq![sign, last]);
    assert(chain(product, ts, 5) == Ok::<_, Failure>((seq![sign, last], 2nat)));
    let parts = seq![first] + seq![sign, last];
    assert(parts =~= seq![first, sign, last]);
    let tree = node(product.rule(), parts);
    assert(binary(product, ts, 0) == Ok::<_, Failure>((tree, 7nat)));
    assert(expression_of(tree) == folded(parts, 1));
    lemma_looser_levels_agree(product, Level::Or, ts, 0);
}

} // verus!

//! The parse tree: what the grammar recognised, before it is read as a
//! statement.

use crate::rule::Rule;
use vstd::prelude::*;

verus! {

/// A node of the parse tree. A node made from a token holds the token's text
/// and has no children; any other node has an empty text and holds the nodes
/// of its parts, in the order of the source.
#[derive(Debug, PartialEq)]
pub struct Pair {
    pub rule: Rule,
    pub text: String,
    pub children: Vec<Pair>,
}

/// The mathematical form of a [`Pair`].
pub ghost struct PairView {
    pub rule: Rule,
    pub text: Seq<char>,
    pub children: Seq<PairView>,
}

/// The mathematical form of `pair`: its rule, its text and the forms of its
/// parts.
pub open spec fn tree_of(pair: Pair) -> PairView
    decreases pair,
{
    PairView {
        rule: pair.rule,
        text: pair.text@,
        children: Seq::new(
            pair.children@.len(),
            |i: int|
                if 0 <= i < pair.children@.len() {
                    tree_of(pair.children@[i])
                } else {
                    arbitrary()
                },
        ),
    }
}

impl View for Pair {
    type V = PairView;

    open spec fn view(&self) -> PairView {
        tree_of(*self)
    }
}

/// The views of a sequence of nodes.
pub open spec fn views(pairs: Seq<Pair>) -> Seq<PairView> {
    Seq::new(pairs.len(), |i: int| pairs[i]@)
}

/// The node of a token.
pub open spec fn leaf(rule: Rule, text: Seq<char>) -> PairView {
    PairView { rule, text, children: Seq::empty() }
}

/// The node of a rule with parts.
pub open spec fn node(rule: Rule, children: Seq<PairView>) -> PairView {
    PairView { rule, text: Seq::empty(), children }
}

impl PairView {
    /// The node is the token node of `rule`.
    pub open spec fn is_token(self, rule: Rule) -> bool {
        self.rule == rule && self.children.len() == 0
    }
}

impl Pair {
    /// Makes the node of a token.
    pub fn leaf(rule: Rule, text: String) -> (pair: Pair)
        ensures
            pair@ == leaf(rule, text@),
    {
        let pair = Pair { rule, text, children: Vec::new() };
        assert(pair@.children =~= Seq::empty());
        pair
    }

    /// Makes the node of a rule with parts.
    pub fn node(rule: Rule, children: Vec<Pair>) -> (pair: Pair)
        ensures
            pair@ == node(rule, views(children@)),
    {
        let pair = Pair { rule, text: String::new(), children };
        assert(pair@.children =~= views(pair.children@));
        pair
    }

    /// The rule that the node stands for.
    pub fn as_rule(&self) -> (rule: Rule)
        ensures
            rule == self@.rule,
    {
        self.rule
    }

    /// The text of a token node.
    pub fn as_str(&self) -> (text: &str)
        ensures
            text@ == self@.text,
    {
        self.text.as_str()
    }

    /// The number of parts.
    pub fn len(&self) -> (n: usize)
        ensures
            n == self@.children.len(),
    {
        self.children.len()
    }

    /// The `i`th part.
    pub fn child(&self, i: usize) -> (part: &Pair)
        requires
            i < self@.children.len(),
        ensures
            part@ == self@.children[i as int],
            decreases_to!(self => part),
    {
        &self.children[i]
    }
}

/// Adds `pair` at the end of `pairs`.
pub(crate) fn push_pair(pairs: &mut Vec<Pair>, pair: Pair)
    ensures
        views(final(pairs)@) == views(old(pairs)@).push(pair@),
{
    pairs.push(pair);
}

} // verus!

//! Keywords may be written in any case.
//!
//! Two texts that differ only in the case of their letters are cut into the
//! same tokens. Where they also agree on their names and literals, they are
//! the same statement.

use crate::expression::parsed_expression;
use crate::guarantees::source;
use crate::parser::parsed_statement;
use crate::text::{is_digit, is_identifier_start, lower, run, same_ignoring_case, CharClass};
use crate::token::{
    keyword_from, keyword_of, keywords, lexemes, remaining, scan_tokens, spells, starts_comment,
    token_at, trivia, Span,
};
use vstd::prelude::*;

verus! {

/// No class of characters tells a capital letter from its small one.
pub proof fn lemma_class_ignores_case(class: CharClass, a: char, b: char)
    requires
        lower(a) == lower(b),
    ensures
        class.has(a) == class.has(b),
        a == b || (is_identifier_start(a) && is_identifier_start(b)),
{
}

/// A run is as long in a text as in the same text in another case.
pub proof fn lemma_run_ignores_case(s1: Seq<char>, s2: Seq<char>, pos: int, class: CharClass)
    requires
        same_ignoring_case(s1, s2),
    ensures
        run(s1, pos, class) == run(s2, pos, class),
    decreases s1.len() - pos,
{
    if 0 <= pos < s1.len() {
        if class.has(s1[pos]) {
            lemma_run_ignores_case(s1, s2, pos + 1, class);
        }
    }
}

/// White space and comments are as long in a text as in the same text in
/// another case.
pub proof fn lemma_trivia_ignores_case(s1: Seq<char>, s2: Seq<char>, pos: int)
    requires
        same_ignoring_case(s1, s2),
    ensures
        trivia(s1, pos) == trivia(s2, pos),
    decreases remaining(s1, pos),
{
    if 0 <= pos < s1.len() {
        if crate::text::is_space(s1[pos]) {
            lemma_trivia_ignores_case(s1, s2, pos + 1);
        } else if starts_comment(s1, pos) {
            lemma_run_ignores_case(s1, s2, pos + 2, CharClass::NotNewline);
            let n = 2 + run(s1, pos + 2, CharClass::NotNewline);
            lemma_trivia_ignores_case(s1, s2, pos + n);
        }
    }
}

/// A word spells the keywords that the same word in another case spells.
pub proof fn lemma_keyword_ignores_case(w1: Seq<char>, w2: Seq<char>)
    requires
        same_ignoring_case(w1, w2),
    ensures
        keyword_of(w1) == keyword_of(w2),
{
    lemma_keyword_from_ignores_case(w1, w2, 0);
}

proof fn lemma_keyword_from_ignores_case(w1: Seq<char>, w2: Seq<char>, i: int)
    requires
        same_ignoring_case(w1, w2),
        0 <= i,
    ensures
        keyword_from(w1, i) == keyword_from(w2, i),
    decreases keywords().len() - i,
{
    if i < keywords().len() {
        let kind = keywords()[i];
        assert(spells(w1, kind) == spells(w2, kind)) by {
            if let Some(text) = kind.spelling() {
                if same_ignoring_case(w1, text) {
                    assert forall|j: int| 0 <= j < w2.len() implies lower(#[trigger] w2[j])
                        == lower(text[j]) by {
                        assert(lower(w1[j]) == lower(w2[j]));
                    }
                }
            }
        }
        if !spells(w1, kind) {
            lemma_keyword_from_ignores_case(w1, w2, i + 1);
        }
    }
}

/// The token at a place of a text is of the same kind and length as the
/// token there in the same text in another case.
pub proof fn lemma_token_ignores_case(s1: Seq<char>, s2: Seq<char>, pos: int)
    requires
        same_ignoring_case(s1, s2),
        0 <= pos < s1.len(),
    ensures
        token_at(s1, pos) == token_at(s2, pos),
{
    lemma_run_ignores_case(s1, s2, pos + 1, CharClass::IdentifierPart);
    lemma_run_ignores_case(s1, s2, pos + 1, CharClass::Digit);
    lemma_run_ignores_case(s1, s2, pos + 1, CharClass::NotQuote);
    if is_identifier_start(s1[pos]) {
        let n = 1 + run(s1, pos + 1, CharClass::IdentifierPart);
        crate::text::lemma_run_is_maximal(s1, pos + 1, CharClass::IdentifierPart);
        let w1 = s1.subrange(pos, pos + n);
        let w2 = s2.subrange(pos, pos + n);
        lemma_keyword_ignores_case(w1, w2);
    } else if is_digit(s1[pos]) {
        let n = 1 + run(s1, pos + 1, CharClass::Digit);
        if pos + n + 1 < s1.len() {
            lemma_run_ignores_case(s1, s2, pos + n + 2, CharClass::Digit);
        }
    }
}

/// A text is cut into the same tokens as the same text in another case.
pub proof fn lemma_scan_ignores_case(s1: Seq<char>, s2: Seq<char>, pos: int)
    requires
        same_ignoring_case(s1, s2),
        0 <= pos <= s1.len(),
    ensures
        scan_tokens(s1, pos) == scan_tokens(s2, pos),
    decreases remaining(s1, pos),
{
    lemma_trivia_ignores_case(s1, s2, pos);
    let start = pos + trivia(s1, pos);
    if start < s1.len() {
        lemma_token_ignores_case(s1, s2, start);
        crate::token::lemma_token_fits(s1, start);
        if let Ok((kind, n)) = token_at(s1, start) {
            lemma_scan_ignores_case(s1, s2, start + n);
        }
    }
}

/// The names and literals among `spans` are written alike in `s1` and in
/// `s2`.
pub open spec fn free_texts_agree(s1: Seq<char>, s2: Seq<char>, spans: Seq<Span>) -> bool {
    forall|k: int|
        0 <= k < spans.len() && (#[trigger] spans[k]).kind.has_free_text() ==> source(s1, spans[k])
            == source(s2, spans[k])
}

/// Keywords may be written in any case: two texts that differ only in the
/// case of letters, and not in their names and literals, are the same
/// statement and the same expression, or fail alike.
pub proof fn lemma_keywords_in_any_case(s1: Seq<char>, s2: Seq<char>)
    requires
        same_ignoring_case(s1, s2),
        scan_tokens(s1, 0) matches Ok(spans) ==> free_texts_agree(s1, s2, spans),
    ensures
        parsed_statement(s1) == parsed_statement(s2),
        parsed_expression(s1) == parsed_expression(s2),
{
    lemma_scan_ignores_case(s1, s2, 0);
    if let Ok(spans) = scan_tokens(s1, 0) {
        assert(lexemes(s1, spans) =~= lexemes(s2, spans));
    }
}

} // verus!

//! White space and comments only separate tokens.
//!
//! What stands before a text does not change how the text is cut into
//! tokens: the tokens only move ([`lemma_scan_of_suffix`]). A gap of white
//! space and comments before a text adds no token
//! ([`lemma_leading_gap`]). A text that is cut into tokens and does not end
//! inside a comment can be followed by white space and any other text: the
//! tokens of the two are those of the whole ([`lemma_join`]).

use crate::error::Failure;
use crate::expression::parsed_expression;
use crate::parser::parsed_statement;
use crate::text::{
    is_digit, is_identifier_part, is_identifier_start, is_space, lemma_run_is_maximal,
    lemma_run_is_unique, run, CharClass,
};
use crate::token::{
    after, lemma_scan_tokens_fit, lemma_token_fits, lexemes, remaining, scan_lexemes, scan_tokens,
    starts_comment, token_at, trivia, Lexeme, Span,
};
use vstd::prelude::*;

verus! {

/// The span `by` characters further on.
pub open spec fn moved_span(span: Span, by: int) -> Span {
    Span { kind: span.kind, start: span.start + by, end: span.end + by }
}

/// The spans `by` characters further on.
pub open spec fn moved(spans: Seq<Span>, by: int) -> Seq<Span> {
    Seq::new(spans.len(), |i: int| moved_span(spans[i], by))
}

/// The failure `by` characters further on.
pub open spec fn moved_failure(failure: Failure, by: int) -> Failure {
    Failure { position: failure.position + by, kind: failure.kind }
}

/// The result of a scan `by` characters further on.
pub open spec fn moved_scan(r: Result<Seq<Span>, Failure>, by: int) -> Result<Seq<Span>, Failure> {
    match r {
        Ok(spans) => Ok(moved(spans, by)),
        Err(failure) => Err(moved_failure(failure, by)),
    }
}

/// A run in a text is as long as the same run with something before the
/// text.
pub proof fn lemma_run_of_suffix(t: Seq<char>, s: Seq<char>, pos: int, class: CharClass)
    requires
        0 <= pos,
    ensures
        run(t + s, t.len() + pos, class) == run(s, pos, class),
    decreases s.len() - pos,
{
    if pos < s.len() {
        if class.has(s[pos]) {
            lemma_run_of_suffix(t, s, pos + 1, class);
        }
    }
}

/// White space and comments in a text are as long with something before the
/// text.
pub proof fn lemma_trivia_of_suffix(t: Seq<char>, s: Seq<char>, pos: int)
    requires
        0 <= pos,
    ensures
        trivia(t + s, t.len() + pos) == trivia(s, pos),
    decreases remaining(s, pos),
{
    if pos < s.len() {
        if is_space(s[pos]) {
            lemma_trivia_of_suffix(t, s, pos + 1);
        } else if starts_comment(s, pos) {
            lemma_run_of_suffix(t, s, pos + 2, CharClass::NotNewline);
            let n = 2 + run(s, pos + 2, CharClass::NotNewline);
            lemma_trivia_of_suffix(t, s, pos + n);
        }
    }
}

/// The token at a place of a text is the token there with something before
/// the text.
pub proof fn lemma_token_of_suffix(t: Seq<char>, s: Seq<char>, pos: int)
    requires
        0 <= pos < s.len(),
    ensures
        token_at(t + s, t.len() + pos) == token_at(s, pos),
{
    let ts = t + s;
    let at = t.len() + pos;
    lemma_run_of_suffix(t, s, pos + 1, CharClass::IdentifierPart);
    lemma_run_of_suffix(t, s, pos + 1, CharClass::Digit);
    lemma_run_of_suffix(t, s, pos + 1, CharClass::NotQuote);
    if is_identifier_start(s[pos]) {
        let n = 1 + run(s, pos + 1, CharClass::IdentifierPart);
        lemma_run_is_maximal(s, pos + 1, CharClass::IdentifierPart);
        assert(ts.subrange(at, at + n) =~= s.subrange(pos, pos + n));
    } else if is_digit(s[pos]) {
        let n = 1 + run(s, pos + 1, CharClass::Digit);
        if pos + n + 1 < s.len() {
            lemma_run_of_suffix(t, s, pos + n + 2, CharClass::Digit);
        }
    }
}

/// What stands before a text only moves its tokens.
pub proof fn lemma_scan_of_suffix(t: Seq<char>, s: Seq<char>, pos: int)
    requires
        0 <= pos <= s.len(),
    ensures
        scan_tokens(t + s, t.len() + pos) == moved_scan(scan_tokens(s, pos), t.len() as int),
    decreases remaining(s, pos),
{
    let by = t.len() as int;
    lemma_trivia_of_suffix(t, s, pos);
    let start = pos + trivia(s, pos);
    if start < s.len() {
        lemma_token_of_suffix(t, s, start);
        lemma_token_fits(s, start);
        if let Ok((kind, n)) = token_at(s, start) {
            lemma_scan_of_suffix(t, s, start + n);
            if let Ok(rest) = scan_tokens(s, start + n) {
                let first = Span { kind, start, end: start + n };
                assert(moved(seq![first] + rest, by) =~= seq![moved_span(first, by)] + moved(
                    rest,
                    by,
                ));
            }
        }
    } else {
        assert(moved(Seq::<Span>::empty(), by) =~= Seq::<Span>::empty());
    }
}

/// Moved spans cut the same lexemes out of the text that was moved with
/// them.
pub proof fn lemma_lexemes_of_suffix(t: Seq<char>, s: Seq<char>, spans: Seq<Span>)
    requires
        forall|i: int| 0 <= i < spans.len() ==> 0 <= (#[trigger] spans[i]).start <= spans[i].end
            <= s.len(),
    ensures
        lexemes(t + s, moved(spans, t.len() as int)) == lexemes(s, spans),
{
    let by = t.len() as int;
    assert forall|i: int| 0 <= i < spans.len() implies #[trigger] lexemes(
        t + s,
        moved(spans, by),
    )[i] == lexemes(s, spans)[i] by {
        let span = spans[i];
        assert((t + s).subrange(span.start + by, span.end + by) =~= s.subrange(
            span.start,
            span.end,
        ));
    }
}

/// From `pos` to its end, `t` is a gap: white space and comments, each
/// comment closed by the end of its line.
pub open spec fn is_gap(t: Seq<char>, pos: int) -> bool
    decreases remaining(t, pos),
{
    if pos < 0 || pos >= t.len() {
        true
    } else if is_space(t[pos]) {
        is_gap(t, pos + 1)
    } else if starts_comment(t, pos) {
        let n = 2 + run(t, pos + 2, CharClass::NotNewline);
        pos + n < t.len() && is_gap(t, pos + n)
    } else {
        false
    }
}

/// A run that ends inside a text is as long with something behind the text.
pub proof fn lemma_run_of_prefix(a: Seq<char>, x: Seq<char>, pos: int, class: CharClass)
    requires
        0 <= pos <= a.len(),
        pos + run(a, pos, class) < a.len() || (x.len() > 0 && !class.has(x[0])) || x.len() == 0,
    ensures
        run(a + x, pos, class) == run(a, pos, class),
{
    let n = run(a, pos, class);
    lemma_run_is_maximal(a, pos, class);
    let ax = a + x;
    assert forall|i: int| 0 <= i < n implies class.has(#[trigger] ax.subrange(pos, pos + n)[i]) by {
        assert(a.subrange(pos, pos + n)[i] == a[pos + i]);
    }
    lemma_run_is_unique(ax, pos, class, n);
}

/// A gap before a text is white space and comments up to the text.
pub proof fn lemma_gap_is_trivia(t: Seq<char>, s: Seq<char>, pos: int)
    requires
        0 <= pos <= t.len(),
        is_gap(t, pos),
    ensures
        pos + trivia(t + s, pos) == t.len() + trivia(s, 0),
    decreases remaining(t, pos),
{
    if pos == t.len() {
        lemma_trivia_of_suffix(t, s, 0);
    } else {
        if is_space(t[pos]) {
            lemma_gap_is_trivia(t, s, pos + 1);
        } else {
            let n = 2 + run(t, pos + 2, CharClass::NotNewline);
            lemma_run_of_prefix(t, s, pos + 2, CharClass::NotNewline);
            lemma_gap_is_trivia(t, s, pos + n);
        }
    }
}

/// A gap before a text adds no token: the tokens of the text only move.
pub proof fn lemma_leading_gap(t: Seq<char>, s: Seq<char>)
    requires
        is_gap(t, 0),
    ensures
        scan_tokens(t + s, 0) == moved_scan(scan_tokens(s, 0), t.len() as int),
        scan_lexemes(s) matches Ok(ts) ==> scan_lexemes(t + s) == Ok::<Seq<Lexeme>, Failure>(ts),
{
    lemma_gap_is_trivia(t, s, 0);
    lemma_trivia_of_suffix(t, s, 0);
    lemma_scan_of_suffix(t, s, 0);
    if let Ok(spans) = scan_tokens(s, 0) {
        lemma_scan_tokens_fit(s, 0);
        lemma_lexemes_of_suffix(t, s, spans);
    }
}

/// Among the white space and comments from `pos` on, a comment runs to the
/// end of `s`.
pub open spec fn comment_runs_out(s: Seq<char>, pos: int) -> bool
    decreases remaining(s, pos),
{
    if 0 <= pos < s.len() && is_space(s[pos]) {
        comment_runs_out(s, pos + 1)
    } else if starts_comment(s, pos) {
        let n = 2 + run(s, pos + 2, CharClass::NotNewline);
        pos + n >= s.len() || comment_runs_out(s, pos + n)
    } else {
        false
    }
}

/// Read from `pos` on, `s` ends inside a comment.
pub open spec fn ends_in_comment(s: Seq<char>, pos: int) -> bool
    decreases remaining(s, pos),
{
    let start = pos + trivia(s, pos);
    if comment_runs_out(s, pos) {
        true
    } else if start < 0 || start >= s.len() {
        false
    } else {
        match token_at(s, start) {
            Ok((_, n)) => ends_in_comment(s, start + n),
            Err(_) => false,
        }
    }
}

/// `x` can stand behind `a` without touching the last token of `a`: `x` is
/// empty, or its first character can go on no token. That character is no
/// letter, digit or `_`, which go on a word or a number; no `.`, which goes
/// on a number; no `=`, which goes on `!`, `<` and `>`; and no `-` behind a
/// `-`, which goes on to a comment.
pub open spec fn begins_apart(a: Seq<char>, x: Seq<char>) -> bool {
    x.len() == 0 || {
        &&& !is_identifier_part(x[0])
        &&& x[0] != '.'
        &&& x[0] != '='
        &&& x[0] == '-' ==> a.len() == 0 || a.last() != '-'
    }
}

/// White space and comments that end inside a text are as long with
/// something behind the text. Where they reach the end of the text, and no
/// comment runs out, they go on with the white space and comments of what
/// follows.
pub proof fn lemma_trivia_of_prefix(a: Seq<char>, x: Seq<char>, pos: int)
    requires
        0 <= pos <= a.len(),
        begins_apart(a, x),
        !comment_runs_out(a, pos),
    ensures
        pos + trivia(a, pos) <= a.len(),
        pos + trivia(a, pos) < a.len() ==> trivia(a + x, pos) == trivia(a, pos),
        pos + trivia(a, pos) == a.len() ==> pos + trivia(a + x, pos) == a.len() + trivia(x, 0),
    decreases remaining(a, pos),
{
    if pos == a.len() {
        lemma_trivia_of_suffix(a, x, 0);
    } else {
        if is_space(a[pos]) {
            lemma_trivia_of_prefix(a, x, pos + 1);
        } else if starts_comment(a, pos) {
            let n = 2 + run(a, pos + 2, CharClass::NotNewline);
            lemma_run_of_prefix(a, x, pos + 2, CharClass::NotNewline);
            lemma_trivia_of_prefix(a, x, pos + n);
        }
    }
}

/// A token of a text is the same token with something behind the text that
/// begins apart from it.
pub proof fn lemma_token_of_prefix(a: Seq<char>, x: Seq<char>, pos: int)
    requires
        0 <= pos < a.len(),
        begins_apart(a, x),
        token_at(a, pos) is Ok,
    ensures
        token_at(a + x, pos) == token_at(a, pos),
{
    let ax = a + x;
    lemma_token_fits(a, pos);
    if pos + 1 < a.len() {
    } else if x.len() > 0 {
        assert(ax[pos + 1] == x[0]);
    }
    let c = a[pos];
    if is_identifier_start(c) {
        let n = 1 + run(a, pos + 1, CharClass::IdentifierPart);
        lemma_run_of_prefix(a, x, pos + 1, CharClass::IdentifierPart);
        assert(ax.subrange(pos, pos + n) =~= a.subrange(pos, pos + n));
    } else if is_digit(c) {
        let n = 1 + run(a, pos + 1, CharClass::Digit);
        lemma_run_of_prefix(a, x, pos + 1, CharClass::Digit);
        if pos + n < a.len() {
            assert(ax[pos + n] == a[pos + n]);
        }
        if pos + n + 1 < a.len() {
            if a[pos + n] == '.' && is_digit(a[pos + n + 1]) {
                lemma_run_of_prefix(a, x, pos + n + 2, CharClass::Digit);
            }
        }
    } else if c == '\'' {
        lemma_run_of_prefix(a, x, pos + 1, CharClass::NotQuote);
    }
}

/// A text that is cut into tokens and does not end inside a comment can be
/// followed by any text that begins apart from it: the whole is cut into
/// the tokens of the first and, moved, the tokens of the second.
pub proof fn lemma_scan_of_prefix(a: Seq<char>, x: Seq<char>, pos: int)
    requires
        0 <= pos <= a.len(),
        begins_apart(a, x),
        scan_tokens(a, pos) is Ok,
        !ends_in_comment(a, pos),
    ensures
        scan_tokens(a + x, pos) == after(
            scan_tokens(a, pos)->Ok_0,
            moved_scan(scan_tokens(x, 0), a.len() as int),
        ),
    decreases remaining(a, pos),
{
    let by = a.len() as int;
    lemma_trivia_of_prefix(a, x, pos);
    let start = pos + trivia(a, pos);
    if start < a.len() {
        lemma_token_of_prefix(a, x, start);
        lemma_token_fits(a, start);
        let (kind, n) = token_at(a, start)->Ok_0;
        lemma_scan_of_prefix(a, x, start + n);
        let first = Span { kind, start, end: start + n };
        let rest = scan_tokens(a, start + n)->Ok_0;
        if let Ok(more) = moved_scan(scan_tokens(x, 0), by) {
            assert(seq![first] + (rest + more) =~= (seq![first] + rest) + more);
        }
    } else {
        lemma_trivia_of_suffix(a, x, 0);
        lemma_scan_of_suffix(a, x, 0);
    }
}

/// Spans inside a text cut the same lexemes out of the text with something
/// behind it.
pub proof fn lemma_lexemes_of_prefix(a: Seq<char>, x: Seq<char>, spans: Seq<Span>)
    requires
        forall|i: int| 0 <= i < spans.len() ==> 0 <= (#[trigger] spans[i]).start <= spans[i].end
            <= a.len(),
    ensures
        lexemes(a + x, spans) == lexemes(a, spans),
{
    assert forall|i: int| 0 <= i < spans.len() implies #[trigger] lexemes(a + x, spans)[i]
        == lexemes(a, spans)[i] by {
        let span = spans[i];
        assert((a + x).subrange(span.start, span.end) =~= a.subrange(span.start, span.end));
    }
}

/// The lexemes `done`, and then those of `rest`.
pub open spec fn joined(done: Seq<Lexeme>, rest: Result<Seq<Lexeme>, Failure>, by: int) -> Result<
    Seq<Lexeme>,
    Failure,
> {
    match rest {
        Ok(more) => Ok(done + more),
        Err(failure) => Err(moved_failure(failure, by)),
    }
}

/// Two texts side by side keep their tokens: where the first text is cut
/// into tokens and does not end inside a comment, and the second begins
/// with white space or with any other character that goes on no token, the
/// lexemes of the two together are the lexemes of the first and then those
/// of the second.
pub proof fn lemma_join(a: Seq<char>, x: Seq<char>)
    requires
        begins_apart(a, x),
        scan_lexemes(a) is Ok,
        !ends_in_comment(a, 0),
    ensures
        scan_lexemes(a + x) == joined(scan_lexemes(a)->Ok_0, scan_lexemes(x), a.len() as int),
{
    let by = a.len() as int;
    lemma_scan_of_prefix(a, x, 0);
    lemma_scan_tokens_fit(a, 0);
    lemma_scan_tokens_fit(x, 0);
    let first = scan_tokens(a, 0)->Ok_0;
    lemma_lexemes_of_prefix(a, x, first);
    if let Ok(second) = scan_tokens(x, 0) {
        lemma_lexemes_of_suffix(a, x, second);
        let all = first + moved(second, by);
        assert(lexemes(a + x, all) =~= lexemes(a + x, first) + lexemes(a + x, moved(second, by)));
    }
}

/// A gap between two texts adds no token: where the first text is cut into
/// tokens and does not end inside a comment, and the gap with the second
/// text begins apart from it, the lexemes of the three together are the
/// lexemes of the first text and then those of the second.
pub proof fn lemma_gap_between(a: Seq<char>, t: Seq<char>, b: Seq<char>)
    requires
        scan_lexemes(a) is Ok,
        !ends_in_comment(a, 0),
        is_gap(t, 0),
        begins_apart(a, t + b),
    ensures
        scan_lexemes(a + (t + b)) == joined(
            scan_lexemes(a)->Ok_0,
            scan_lexemes(b),
            (a.len() + t.len()) as int,
        ),
{
    lemma_join(a, t + b);
    lemma_leading_gap(t, b);
}

/// Two results are the same statement or expression, or fail for the same
/// reason, be it at different places.
pub open spec fn same_outcome<T>(r1: Result<T, Failure>, r2: Result<T, Failure>) -> bool {
    match (r1, r2) {
        (Ok(left), Ok(right)) => left == right,
        (Err(f1), Err(f2)) => f1.kind == f2.kind,
        _ => false,
    }
}

/// The result `by` characters further on.
pub open spec fn moved_outcome<T>(r: Result<T, Failure>, by: int) -> Result<T, Failure> {
    match r {
        Ok(v) => Ok(v),
        Err(failure) => Err(moved_failure(failure, by)),
    }
}

/// What a text means depends on its lexemes alone: two texts with the same
/// lexemes are the same statement and the same expression, or fail for the
/// same reason.
pub proof fn lemma_same_lexemes_same_meaning(s1: Seq<char>, s2: Seq<char>)
    requires
        scan_lexemes(s1) is Ok,
        scan_lexemes(s1) == scan_lexemes(s2),
    ensures
        same_outcome(parsed_statement(s1), parsed_statement(s2)),
        same_outcome(parsed_expression(s1), parsed_expression(s2)),
{
}

/// A gap before a text does not change what the text means; a failure only
/// moves by the length of the gap.
pub proof fn lemma_gap_before(t: Seq<char>, s: Seq<char>)
    requires
        is_gap(t, 0),
    ensures
        parsed_statement(t + s) == moved_outcome(parsed_statement(s), t.len() as int),
        parsed_expression(t + s) == moved_outcome(parsed_expression(s), t.len() as int),
{
    lemma_leading_gap(t, s);
    if let Ok(spans) = scan_tokens(s, 0) {
        lemma_scan_tokens_fit(s, 0);
    }
}

/// A gap is cut into no token.
pub proof fn lemma_gap_has_no_token(t: Seq<char>)
    requires
        is_gap(t, 0),
    ensures
        scan_tokens(t, 0) == Ok::<Seq<Span>, Failure>(Seq::empty()),
{
    lemma_gap_is_trivia(t, Seq::empty(), 0);
}

/// A gap behind a text does not change what the text means, where the text
/// is cut into tokens and does not end inside a comment, and the gap begins
/// apart from it.
pub proof fn lemma_gap_behind(s: Seq<char>, t: Seq<char>)
    requires
        begins_apart(s, t),
        is_gap(t, 0),
        scan_lexemes(s) is Ok,
        !ends_in_comment(s, 0),
    ensures
        same_outcome(parsed_statement(s + t), parsed_statement(s)),
        same_outcome(parsed_expression(s + t), parsed_expression(s)),
{
    lemma_join(s, t);
    lemma_gap_has_no_token(t);
}

} // verus!

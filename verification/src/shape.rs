//! What the text of each kind of token looks like.

use crate::text::{
    all_in, is_digit, is_identifier_part, is_identifier_start, is_space, lemma_run_is_maximal,
    lower, run, CharClass,
};
use crate::token::{
    keyword_of, keywords, lemma_keyword_from, lemma_token_fits, lemma_trivia_fits, lexeme, lexemes,
    remaining, scan_lexemes, scan_tokens, spells, starts_comment, token_at, trivia, Lexeme, Span,
    TokenKind,
};
use vstd::prelude::*;

verus! {

/// A name: a letter or `_`, then letters, digits and `_`.
pub open spec fn is_identifier(text: Seq<char>) -> bool {
    &&& text.len() >= 1
    &&& is_identifier_start(text[0])
    &&& all_in(text, CharClass::IdentifierPart)
}

/// One or more decimal digits.
pub open spec fn is_digits(text: Seq<char>) -> bool {
    text.len() >= 1 && all_in(text, CharClass::Digit)
}

/// Digits, a point, digits.
pub open spec fn is_fraction(text: Seq<char>) -> bool {
    exists|k: int|
        0 <= k < text.len() && is_digits(text.take(k)) && text[k] == '.' && is_digits(
            #[trigger] text.skip(k + 1),
        )
}

/// A single quote, any characters but the single quote, a single quote.
pub open spec fn is_quoted(text: Seq<char>) -> bool {
    &&& text.len() >= 2
    &&& text[0] == '\''
    &&& text[text.len() - 1] == '\''
    &&& all_in(text.subrange(1, text.len() - 1), CharClass::NotQuote)
}

/// The text of the lexeme is what its kind asks for: a name that spells no
/// keyword, a quoted string, digits, a fraction, or the spelling of the
/// keyword or symbol.
pub open spec fn is_shaped(lx: Lexeme) -> bool {
    match lx.kind {
        TokenKind::Identifier => is_identifier(lx.text) && keyword_of(lx.text) is None,
        TokenKind::StringLiteral => is_quoted(lx.text),
        TokenKind::NumberLiteral => is_digits(lx.text),
        TokenKind::FloatLiteral => is_fraction(lx.text),
        _ => lx.kind.spelling() == Some(lx.text),
    }
}

/// Every lexeme of `ts` has the text that its kind asks for.
pub open spec fn all_shaped(ts: Seq<Lexeme>) -> bool {
    forall|i: int| 0 <= i < ts.len() ==> is_shaped(#[trigger] ts[i])
}

/// The characters from `pos` up to `pos + 1 + run` are of `class`, where the
/// one at `pos` is and the run begins behind it.
proof fn lemma_head_and_run(s: Seq<char>, pos: int, class: CharClass)
    requires
        0 <= pos < s.len(),
        class.has(s[pos]),
    ensures
        pos + 1 + run(s, pos + 1, class) <= s.len(),
        all_in(s.subrange(pos, pos + 1 + run(s, pos + 1, class)), class),
{
    lemma_run_is_maximal(s, pos + 1, class);
    let n = 1 + run(s, pos + 1, class);
    assert forall|i: int| 0 <= i < n implies class.has(#[trigger] s.subrange(pos, pos + n)[i]) by {
        if i > 0 {
            assert(class.has(s.subrange(pos + 1, pos + n)[i - 1]));
        }
    }
    assert(all_in(s.subrange(pos, pos + n), class));
}

/// The keywords are the kinds whose names end in `Keyword`, and each has a
/// spelling.
pub proof fn lemma_keywords()
    ensures
        forall|kind: TokenKind| #[trigger]
            kind.is_keyword() <==> match kind {
                TokenKind::Identifier
                | TokenKind::StringLiteral
                | TokenKind::NumberLiteral
                | TokenKind::FloatLiteral
                | TokenKind::Star
                | TokenKind::Slash
                | TokenKind::Plus
                | TokenKind::Minus
                | TokenKind::Equal
                | TokenKind::NotEqual
                | TokenKind::Less
                | TokenKind::LessEqual
                | TokenKind::Greater
                | TokenKind::GreaterEqual
                | TokenKind::LeftParen
                | TokenKind::RightParen
                | TokenKind::Comma
                | TokenKind::Semicolon => false,
                _ => true,
            },
        forall|kind: TokenKind| #[trigger] kind.is_keyword() ==> kind.spelling() is Some,
{
}

/// The length and the first two letters of a keyword. No two keywords
/// share them.
pub open spec fn mark(kind: TokenKind) -> (nat, char, char) {
    match kind {
        TokenKind::SelectKeyword => (6, 'S', 'E'),
        TokenKind::FromKeyword => (4, 'F', 'R'),
        TokenKind::WhereKeyword => (5, 'W', 'H'),
        TokenKind::InsertKeyword => (6, 'I', 'N'),
        TokenKind::IntoKeyword => (4, 'I', 'N'),
        TokenKind::ValuesKeyword => (6, 'V', 'A'),
        TokenKind::UpdateKeyword => (6, 'U', 'P'),
        TokenKind::SetKeyword => (3, 'S', 'E'),
        TokenKind::DeleteKeyword => (6, 'D', 'E'),
        TokenKind::GroupKeyword => (5, 'G', 'R'),
        TokenKind::ByKeyword => (2, 'B', 'Y'),
        TokenKind::OrderKeyword => (5, 'O', 'R'),
        TokenKind::AscKeyword => (3, 'A', 'S'),
        TokenKind::DescKeyword => (4, 'D', 'E'),
        TokenKind::LimitKeyword => (5, 'L', 'I'),
        TokenKind::AndKeyword => (3, 'A', 'N'),
        TokenKind::OrKeyword => (2, 'O', 'R'),
        TokenKind::NotKeyword => (3, 'N', 'O'),
        TokenKind::TrueKeyword => (4, 'T', 'R'),
        TokenKind::FalseKeyword => (5, 'F', 'A'),
        TokenKind::NullKeyword => (4, 'N', 'U'),
        _ => (0, ' ', ' '),
    }
}

/// A keyword is spelled with the length and the first two letters of its
/// mark.
pub proof fn lemma_spelling_has_mark(kind: TokenKind)
    requires
        kind.is_keyword(),
    ensures
        kind.spelling() is Some,
        kind.spelling()->0.len() >= 2,
        mark(kind) == (kind.spelling()->0.len(), kind.spelling()->0[0], kind.spelling()->0[1]),
{
    reveal_strlit("SELECT");
    reveal_strlit("FROM");
    reveal_strlit("WHERE");
    reveal_strlit("INSERT");
    reveal_strlit("INTO");
    reveal_strlit("VALUES");
    reveal_strlit("UPDATE");
    reveal_strlit("SET");
    reveal_strlit("DELETE");
    reveal_strlit("GROUP");
    reveal_strlit("BY");
    reveal_strlit("ORDER");
    reveal_strlit("ASC");
    reveal_strlit("DESC");
    reveal_strlit("LIMIT");
    reveal_strlit("AND");
    reveal_strlit("OR");
    reveal_strlit("NOT");
    reveal_strlit("TRUE");
    reveal_strlit("FALSE");
    reveal_strlit("NULL");
}

/// A word spells at most one keyword, and the scanner finds it: the keyword
/// of a word is `kind` exactly where the word spells `kind`.
pub proof fn lemma_keyword_of_is_exact(word: Seq<char>, kind: TokenKind)
    requires
        kind.is_keyword(),
    ensures
        keyword_of(word) == Some(kind) <==> spells(word, kind),
{
    lemma_keyword_from(word, 0);
    lemma_spelling_has_mark(kind);
    if spells(word, kind) {
        let found = keyword_of(word)->0;
        assert(keyword_of(word) is Some);
        lemma_spelling_has_mark(found);
        assert(lower(word[0]) == lower(found.spelling()->0[0]));
        assert(lower(word[1]) == lower(found.spelling()->0[1]));
    }
}

/// The token that the scanner reads at `pos` has the text that its kind asks
/// for; a keyword is written, in some case, as it is spelled.
pub proof fn lemma_token_shape(s: Seq<char>, pos: int)
    requires
        0 <= pos < s.len(),
    ensures
        token_at(s, pos) matches Ok((kind, n)) ==> {
            &&& is_shaped(lexeme(s, Span { kind, start: pos, end: pos + n }))
            &&& kind.is_keyword() ==> spells(s.subrange(pos, pos + n), kind)
        },
{
    let c = s[pos];
    if is_identifier_start(c) {
        let n = 1 + run(s, pos + 1, CharClass::IdentifierPart);
        lemma_head_and_run(s, pos, CharClass::IdentifierPart);
        let word = s.subrange(pos, pos + n);
        lemma_keyword_from(word, 0);
    } else if is_digit(c) {
        let n = 1 + run(s, pos + 1, CharClass::Digit);
        lemma_head_and_run(s, pos, CharClass::Digit);
        if pos + n + 1 < s.len() && s[pos + n] == '.' && is_digit(s[pos + n + 1]) {
            lemma_head_and_run(s, pos + n + 1, CharClass::Digit);
            let m = n + 2 + run(s, pos + n + 2, CharClass::Digit);
            let text = s.subrange(pos, pos + m);
            assert(text.skip(n as int + 1) =~= s.subrange(pos + n + 1, pos + m));
        }
    } else if c == '\'' {
        let n = 1 + run(s, pos + 1, CharClass::NotQuote);
        lemma_run_is_maximal(s, pos + 1, CharClass::NotQuote);
        if pos + n < s.len() {
            let text = s.subrange(pos, pos + n + 1);
            assert(text.subrange(1, n as int) =~= s.subrange(pos + 1, pos + n));
        }
    }
}

/// The tokens that the scanner reads from `pos` on have the texts that their
/// kinds ask for.
pub proof fn lemma_scan_shape(s: Seq<char>, pos: int)
    requires
        0 <= pos <= s.len(),
    ensures
        scan_tokens(s, pos) matches Ok(spans) ==> all_shaped(lexemes(s, spans)),
    decreases remaining(s, pos),
{
    let start = pos + trivia(s, pos);
    if start < s.len() {
        lemma_token_fits(s, start);
        lemma_token_shape(s, start);
        if let Ok((kind, n)) = token_at(s, start) {
            lemma_scan_shape(s, start + n);
            if let Ok(rest) = scan_tokens(s, start + n) {
                let first = Span { kind, start, end: start + n };
                let all = seq![first] + rest;
                assert forall|i: int| 0 <= i < all.len() implies is_shaped(
                    #[trigger] lexemes(s, all)[i],
                ) by {
                    if i > 0 {
                        assert(lexemes(s, all)[i] == lexemes(s, rest)[i - 1]);
                    }
                }
            }
        }
    }
}

/// The lexemes of a text have the texts that their kinds ask for.
pub proof fn lemma_lexemes_shaped(s: Seq<char>)
    ensures
        scan_lexemes(s) matches Ok(ts) ==> all_shaped(ts),
{
    lemma_scan_shape(s, 0);
}

/// Where the `i`th of `spans` begins; `end` where there is no such span.
pub open spec fn start_or(spans: Seq<Span>, i: int, end: int) -> int {
    if 0 <= i < spans.len() {
        spans[i].start
    } else {
        end
    }
}

/// From `pos` on, the text is its tokens and the gaps around them: white
/// space and comments lead from `pos` to the first token, from each token
/// to the next, and from the last token to the end of the text.
pub open spec fn covers(s: Seq<char>, pos: int, spans: Seq<Span>) -> bool {
    &&& pos + trivia(s, pos) == start_or(spans, 0, s.len() as int)
    &&& forall|i: int|
        0 <= i < spans.len() ==> (#[trigger] spans[i]).end + trivia(s, spans[i].end) == start_or(
            spans,
            i + 1,
            s.len() as int,
        )
}

/// The tokens that the scanner reads from `pos` on, with the white space
/// and comments between them, are the whole text from `pos` on.
pub proof fn lemma_scan_covers(s: Seq<char>, pos: int)
    requires
        0 <= pos <= s.len(),
    ensures
        scan_tokens(s, pos) matches Ok(spans) ==> covers(s, pos, spans),
    decreases remaining(s, pos),
{
    lemma_trivia_fits(s, pos);
    let start = pos + trivia(s, pos);
    if start < s.len() {
        lemma_token_fits(s, start);
        if let Ok((kind, n)) = token_at(s, start) {
            lemma_scan_covers(s, start + n);
        }
    }
}

/// The character at `pos`, if there is one, does not go on a token of
/// `kind` that ends there: behind a word no letter, digit or `_` follows,
/// behind a number no digit, behind `<` and `>` no `=`, and behind `-` no
/// `-`.
pub open spec fn stops(s: Seq<char>, pos: int, kind: TokenKind) -> bool {
    0 <= pos < s.len() ==> {
        if kind == TokenKind::Identifier || kind.is_keyword() {
            !is_identifier_part(s[pos])
        } else if kind == TokenKind::NumberLiteral || kind == TokenKind::FloatLiteral {
            !is_digit(s[pos])
        } else if kind == TokenKind::Less || kind == TokenKind::Greater {
            s[pos] != '='
        } else if kind == TokenKind::Minus {
            s[pos] != '-'
        } else {
            true
        }
    }
}

/// Tokens are as long as they can be: the token that the scanner reads at
/// `pos`, behind the white space and comments, ends where its text cannot
/// go on.
pub proof fn lemma_tokens_are_longest(s: Seq<char>, pos: int)
    requires
        0 <= pos < s.len(),
        trivia(s, pos) == 0,
    ensures
        token_at(s, pos) matches Ok((kind, n)) ==> stops(s, pos + n, kind),
{
    lemma_run_is_maximal(s, pos + 1, CharClass::IdentifierPart);
    lemma_run_is_maximal(s, pos + 1, CharClass::Digit);
    let n = 1 + run(s, pos + 1, CharClass::Digit);
    if pos + n + 1 < s.len() {
        lemma_run_is_maximal(s, pos + n + 2, CharClass::Digit);
    }
    if is_identifier_start(s[pos]) {
        let word = s.subrange(pos, pos + 1 + run(s, pos + 1, CharClass::IdentifierPart));
        lemma_keyword_from(word, 0);
    }
}

/// Behind white space and comments stands neither white space nor a
/// comment.
pub proof fn lemma_trivia_ends(s: Seq<char>, pos: int)
    ensures
        trivia(s, pos + trivia(s, pos)) == 0,
    decreases remaining(s, pos),
{
    if 0 <= pos < s.len() && is_space(s[pos]) {
        lemma_trivia_ends(s, pos + 1);
    } else if starts_comment(s, pos) {
        let n = 2 + run(s, pos + 2, CharClass::NotNewline);
        lemma_trivia_ends(s, pos + n);
    }
}

/// Each of `spans` ends where its text cannot go on.
pub open spec fn all_stop(s: Seq<char>, spans: Seq<Span>) -> bool {
    forall|i: int| 0 <= i < spans.len() ==> stops(s, (#[trigger] spans[i]).end, spans[i].kind)
}

/// The tokens that the scanner reads are as long as they can be.
pub proof fn lemma_scan_is_greedy(s: Seq<char>, pos: int)
    requires
        0 <= pos <= s.len(),
    ensures
        scan_tokens(s, pos) matches Ok(spans) ==> all_stop(s, spans),
    decreases remaining(s, pos),
{
    lemma_trivia_ends(s, pos);
    let start = pos + trivia(s, pos);
    if start < s.len() {
        lemma_token_fits(s, start);
        lemma_tokens_are_longest(s, start);
        if let Ok((kind, n)) = token_at(s, start) {
            lemma_scan_is_greedy(s, start + n);
        }
    }
}

} // verus!

//! Tokens, and the scanner that cuts a text into them.
//!
//! White space and `--` comments separate tokens and are dropped. Keywords
//! are recognised whatever their case and are reserved: a word that spells a
//! keyword is never an identifier.

use crate::error::{ErrorKind, Failure, ParseError};
use crate::text::{
    characters, is_digit, is_identifier_start, is_space, lemma_run_is_maximal, lower, run,
    same_ignoring_case, scan, slice_text, to_lower, CharClass,
};
use vstd::prelude::*;

verus! {

/// What a token is.
#[derive(Clone, Copy, Debug, PartialEq, Eq, Structural)]
pub enum TokenKind {
    Identifier,
    StringLiteral,
    NumberLiteral,
    FloatLiteral,
    SelectKeyword,
    FromKeyword,
    WhereKeyword,
    InsertKeyword,
    IntoKeyword,
    ValuesKeyword,
    UpdateKeyword,
    SetKeyword,
    DeleteKeyword,
    GroupKeyword,
    ByKeyword,
    OrderKeyword,
    AscKeyword,
    DescKeyword,
    LimitKeyword,
    AndKeyword,
    OrKeyword,
    NotKeyword,
    TrueKeyword,
    FalseKeyword,
    NullKeyword,
    Star,
    Slash,
    Plus,
    Minus,
    Equal,
    NotEqual,
    Less,
    LessEqual,
    Greater,
    GreaterEqual,
    LeftParen,
    RightParen,
    Comma,
    Semicolon,
}

impl TokenKind {
    /// The text of a keyword or of a symbol; `None` for the kinds whose text
    /// the source decides.
    pub open spec fn spelling(self) -> Option<Seq<char>> {
        match self {
            TokenKind::Identifier => None,
            TokenKind::StringLiteral => None,
            TokenKind::NumberLiteral => None,
            TokenKind::FloatLiteral => None,
            TokenKind::SelectKeyword => Some("SELECT"@),
            TokenKind::FromKeyword => Some("FROM"@),
            TokenKind::WhereKeyword => Some("WHERE"@),
            TokenKind::InsertKeyword => Some("INSERT"@),
            TokenKind::IntoKeyword => Some("INTO"@),
            TokenKind::ValuesKeyword => Some("VALUES"@),
            TokenKind::UpdateKeyword => Some("UPDATE"@),
            TokenKind::SetKeyword => Some("SET"@),
            TokenKind::DeleteKeyword => Some("DELETE"@),
            TokenKind::GroupKeyword => Some("GROUP"@),
            TokenKind::ByKeyword => Some("BY"@),
            TokenKind::OrderKeyword => Some("ORDER"@),
            TokenKind::AscKeyword => Some("ASC"@),
            TokenKind::DescKeyword => Some("DESC"@),
            TokenKind::LimitKeyword => Some("LIMIT"@),
            TokenKind::AndKeyword => Some("AND"@),
            TokenKind::OrKeyword => Some("OR"@),
            TokenKind::NotKeyword => Some("NOT"@),
            TokenKind::TrueKeyword => Some("TRUE"@),
            TokenKind::FalseKeyword => Some("FALSE"@),
            TokenKind::NullKeyword => Some("NULL"@),
            TokenKind::Star => Some("*"@),
            TokenKind::Slash => Some("/"@),
            TokenKind::Plus => Some("+"@),
            TokenKind::Minus => Some("-"@),
            TokenKind::Equal => Some("="@),
            TokenKind::NotEqual => Some("!="@),
            TokenKind::Less => Some("<"@),
            TokenKind::LessEqual => Some("<="@),
            TokenKind::Greater => Some(">"@),
            TokenKind::GreaterEqual => Some(">="@),
            TokenKind::LeftParen => Some("("@),
            TokenKind::RightParen => Some(")"@),
            TokenKind::Comma => Some(","@),
            TokenKind::Semicolon => Some(";"@),
        }
    }

    /// Computes [`TokenKind::spelling`].
    pub fn fixed_text(self) -> (r: Option<&'static str>)
        ensures
            match r {
                Some(t) => self.spelling() == Some(t@),
                None => self.spelling() is None,
            },
    {
        match self {
            TokenKind::Identifier => None,
            TokenKind::StringLiteral => None,
            TokenKind::NumberLiteral => None,
            TokenKind::FloatLiteral => None,
            TokenKind::SelectKeyword => Some("SELECT"),
            TokenKind::FromKeyword => Some("FROM"),
            TokenKind::WhereKeyword => Some("WHERE"),
            TokenKind::InsertKeyword => Some("INSERT"),
            TokenKind::IntoKeyword => Some("INTO"),
            TokenKind::ValuesKeyword => Some("VALUES"),
            TokenKind::UpdateKeyword => Some("UPDATE"),
            TokenKind::SetKeyword => Some("SET"),
            TokenKind::DeleteKeyword => Some("DELETE"),
            TokenKind::GroupKeyword => Some("GROUP"),
            TokenKind::ByKeyword => Some("BY"),
            TokenKind::OrderKeyword => Some("ORDER"),
            TokenKind::AscKeyword => Some("ASC"),
            TokenKind::DescKeyword => Some("DESC"),
            TokenKind::LimitKeyword => Some("LIMIT"),
            TokenKind::AndKeyword => Some("AND"),
            TokenKind::OrKeyword => Some("OR"),
            TokenKind::NotKeyword => Some("NOT"),
            TokenKind::TrueKeyword => Some("TRUE"),
            TokenKind::FalseKeyword => Some("FALSE"),
            TokenKind::NullKeyword => Some("NULL"),
            TokenKind::Star => Some("*"),
            TokenKind::Slash => Some("/"),
            TokenKind::Plus => Some("+"),
            TokenKind::Minus => Some("-"),
            TokenKind::Equal => Some("="),
            TokenKind::NotEqual => Some("!="),
            TokenKind::Less => Some("<"),
            TokenKind::LessEqual => Some("<="),
            TokenKind::Greater => Some(">"),
            TokenKind::GreaterEqual => Some(">="),
            TokenKind::LeftParen => Some("("),
            TokenKind::RightParen => Some(")"),
            TokenKind::Comma => Some(","),
            TokenKind::Semicolon => Some(";"),
        }
    }
}

impl TokenKind {
    /// The kind is that of a keyword.
    pub open spec fn is_keyword(self) -> bool {
        keywords().contains(self)
    }

    /// The kind is that of a token whose text the source decides: a name or
    /// a literal.
    pub open spec fn has_free_text(self) -> bool {
        self.spelling() is None
    }
}

/// The keywords, in the order in which a word is held against them.
pub open spec fn keywords() -> Seq<TokenKind> {
    seq![
        TokenKind::SelectKeyword,
        TokenKind::FromKeyword,
        TokenKind::WhereKeyword,
        TokenKind::InsertKeyword,
        TokenKind::IntoKeyword,
        TokenKind::ValuesKeyword,
        TokenKind::UpdateKeyword,
        TokenKind::SetKeyword,
        TokenKind::DeleteKeyword,
        TokenKind::GroupKeyword,
        TokenKind::ByKeyword,
        TokenKind::OrderKeyword,
        TokenKind::AscKeyword,
        TokenKind::DescKeyword,
        TokenKind::LimitKeyword,
        TokenKind::AndKeyword,
        TokenKind::OrKeyword,
        TokenKind::NotKeyword,
        TokenKind::TrueKeyword,
        TokenKind::FalseKeyword,
        TokenKind::NullKeyword,
    ]
}

/// `word` spells the keyword `kind`, whatever the case of its letters.
pub open spec fn spells(word: Seq<char>, kind: TokenKind) -> bool {
    match kind.spelling() {
        Some(text) => same_ignoring_case(word, text),
        None => false,
    }
}

/// The first keyword from the `i`th on that `word` spells.
pub open spec fn keyword_from(word: Seq<char>, i: int) -> Option<TokenKind>
    decreases keywords().len() - i,
{
    if i < 0 || i >= keywords().len() {
        None
    } else if spells(word, keywords()[i]) {
        Some(keywords()[i])
    } else {
        keyword_from(word, i + 1)
    }
}

/// The keyword that `word` spells, if it spells one.
pub open spec fn keyword_of(word: Seq<char>) -> Option<TokenKind> {
    keyword_from(word, 0)
}

/// What [`keyword_from`] finds is a keyword that the word spells, and it
/// finds one whenever the word spells a keyword of the list.
pub proof fn lemma_keyword_from(word: Seq<char>, i: int)
    requires
        0 <= i,
    ensures
        match keyword_from(word, i) {
            Some(kind) => keywords().contains(kind) && spells(word, kind),
            None => forall|j: int|
                i <= j < keywords().len() ==> !spells(word, #[trigger] keywords()[j]),
        },
    decreases keywords().len() - i,
{
    if i < keywords().len() {
        if spells(word, keywords()[i]) {
        } else {
            lemma_keyword_from(word, i + 1);
        }
    }
}

/// A token of a text: what it is, and the characters from `start` up to
/// `end` that it covers.
#[derive(Clone, Copy, Debug, PartialEq, Eq, Structural)]
pub struct Token {
    pub kind: TokenKind,
    pub start: usize,
    pub end: usize,
}

/// The mathematical form of a [`Token`].
pub ghost struct Span {
    pub kind: TokenKind,
    pub start: int,
    pub end: int,
}

impl View for Token {
    type V = Span;

    open spec fn view(&self) -> Span {
        Span { kind: self.kind, start: self.start as int, end: self.end as int }
    }
}

/// The spans of a sequence of tokens.
pub open spec fn spans(tokens: Seq<Token>) -> Seq<Span> {
    Seq::new(tokens.len(), |i: int| tokens[i]@)
}

/// A token without its place: its kind and its text. The text of a keyword
/// or a symbol is its spelling; the text of any other token is the source's.
pub ghost struct Lexeme {
    pub kind: TokenKind,
    pub text: Seq<char>,
}

/// The lexeme that `span` cuts out of `s`.
pub open spec fn lexeme(s: Seq<char>, span: Span) -> Lexeme {
    Lexeme {
        kind: span.kind,
        text: match span.kind.spelling() {
            Some(text) => text,
            None => s.subrange(span.start, span.end),
        },
    }
}

/// The lexemes that `spans` cut out of `s`.
pub open spec fn lexemes(s: Seq<char>, spans: Seq<Span>) -> Seq<Lexeme> {
    Seq::new(spans.len(), |i: int| lexeme(s, spans[i]))
}

/// How many characters are left from `pos` on.
pub open spec fn remaining(s: Seq<char>, pos: int) -> nat {
    if pos < s.len() {
        (s.len() - pos) as nat
    } else {
        0
    }
}

/// A comment begins at `pos`.
pub open spec fn starts_comment(s: Seq<char>, pos: int) -> bool {
    0 <= pos && pos + 1 < s.len() && s[pos] == '-' && s[pos + 1] == '-'
}

/// The length of the white space and comments that begin at `pos`. A comment
/// runs from `--` to the end of its line.
pub open spec fn trivia(s: Seq<char>, pos: int) -> nat
    decreases remaining(s, pos),
{
    if 0 <= pos < s.len() && is_space(s[pos]) {
        1 + trivia(s, pos + 1)
    } else if starts_comment(s, pos) {
        let n = 2 + run(s, pos + 2, CharClass::NotNewline);
        n + trivia(s, pos + n)
    } else {
        0
    }
}

/// The character after the one at `pos` is `c`.
pub open spec fn followed_by(s: Seq<char>, pos: int, c: char) -> bool {
    pos + 1 < s.len() && s[pos + 1] == c
}

/// The kind and the length of the token that begins at `pos`, where a
/// character stands that is neither white space nor the start of a comment.
///
/// A word is the longest run of letters, digits and `_`. A number is the
/// longest run of digits; with a point and at least one digit behind it, it
/// is a float. A string runs from one single quote to the next.
pub open spec fn token_at(s: Seq<char>, pos: int) -> Result<(TokenKind, nat), ErrorKind>
    recommends
        0 <= pos < s.len(),
{
    let c = s[pos];
    if is_identifier_start(c) {
        let n = 1 + run(s, pos + 1, CharClass::IdentifierPart);
        match keyword_of(s.subrange(pos, pos + n)) {
            Some(keyword) => Ok((keyword, n)),
            None => Ok((TokenKind::Identifier, n)),
        }
    } else if is_digit(c) {
        let n = 1 + run(s, pos + 1, CharClass::Digit);
        if pos + n + 1 < s.len() && s[pos + n] == '.' && is_digit(s[pos + n + 1]) {
            Ok((TokenKind::FloatLiteral, n + 2 + run(s, pos + n + 2, CharClass::Digit)))
        } else {
            Ok((TokenKind::NumberLiteral, n))
        }
    } else if c == '\'' {
        let n = 1 + run(s, pos + 1, CharClass::NotQuote);
        if pos + n < s.len() {
            Ok((TokenKind::StringLiteral, n + 1))
        } else {
            Err(ErrorKind::UnterminatedString)
        }
    } else if c == '!' {
        if followed_by(s, pos, '=') {
            Ok((TokenKind::NotEqual, 2))
        } else {
            Err(ErrorKind::UnexpectedCharacter)
        }
    } else if c == '<' {
        if followed_by(s, pos, '=') {
            Ok((TokenKind::LessEqual, 2))
        } else {
            Ok((TokenKind::Less, 1))
        }
    } else if c == '>' {
        if followed_by(s, pos, '=') {
            Ok((TokenKind::GreaterEqual, 2))
        } else {
            Ok((TokenKind::Greater, 1))
        }
    } else if c == '=' {
        Ok((TokenKind::Equal, 1))
    } else if c == '*' {
        Ok((TokenKind::Star, 1))
    } else if c == '/' {
        Ok((TokenKind::Slash, 1))
    } else if c == '+' {
        Ok((TokenKind::Plus, 1))
    } else if c == '-' {
        Ok((TokenKind::Minus, 1))
    } else if c == '(' {
        Ok((TokenKind::LeftParen, 1))
    } else if c == ')' {
        Ok((TokenKind::RightParen, 1))
    } else if c == ',' {
        Ok((TokenKind::Comma, 1))
    } else if c == ';' {
        Ok((TokenKind::Semicolon, 1))
    } else {
        Err(ErrorKind::UnexpectedCharacter)
    }
}

/// The tokens of `s` from `pos` on, or the first place where no token can be
/// read.
pub open spec fn scan_tokens(s: Seq<char>, pos: int) -> Result<Seq<Span>, Failure>
    decreases remaining(s, pos),
{
    let start = pos + trivia(s, pos);
    if start < 0 || start >= s.len() {
        Ok(Seq::empty())
    } else {
        match token_at(s, start) {
            Err(kind) => Err(Failure { position: start, kind }),
            Ok((kind, n)) => match scan_tokens(s, start + n) {
                Err(failure) => Err(failure),
                Ok(rest) => Ok(seq![Span { kind, start, end: start + n }] + rest),
            },
        }
    }
}

/// The lexemes of the whole text `s`.
pub open spec fn scan_lexemes(s: Seq<char>) -> Result<Seq<Lexeme>, Failure> {
    match scan_tokens(s, 0) {
        Ok(spans) => Ok(lexemes(s, spans)),
        Err(failure) => Err(failure),
    }
}

/// A token has at least one character and ends inside the text.
pub proof fn lemma_token_fits(s: Seq<char>, pos: int)
    requires
        0 <= pos < s.len(),
    ensures
        token_at(s, pos) matches Ok((_, n)) ==> 1 <= n && pos + n <= s.len(),
{
    lemma_run_is_maximal(s, pos + 1, CharClass::IdentifierPart);
    lemma_run_is_maximal(s, pos + 1, CharClass::Digit);
    let n = 1 + run(s, pos + 1, CharClass::Digit);
    if pos + n + 1 < s.len() {
        lemma_run_is_maximal(s, pos + n + 2, CharClass::Digit);
    }
}

/// White space and comments end inside the text.
pub proof fn lemma_trivia_fits(s: Seq<char>, pos: int)
    requires
        0 <= pos <= s.len(),
    ensures
        pos + trivia(s, pos) <= s.len(),
    decreases remaining(s, pos),
{
    if pos < s.len() && is_space(s[pos]) {
        lemma_trivia_fits(s, pos + 1);
    } else if starts_comment(s, pos) {
        lemma_run_is_maximal(s, pos + 2, CharClass::NotNewline);
        lemma_trivia_fits(s, pos + 2 + run(s, pos + 2, CharClass::NotNewline));
    }
}

/// The spans lie inside `s`, none is empty, and each begins at or after
/// `from`.
pub open spec fn spans_fit(s: Seq<char>, spans: Seq<Span>, from: int) -> bool {
    forall|i: int|
        0 <= i < spans.len() ==> from <= (#[trigger] spans[i]).start < spans[i].end <= s.len()
}

/// The tokens that the scanner reads lie inside the text.
pub proof fn lemma_scan_tokens_fit(s: Seq<char>, pos: int)
    requires
        0 <= pos <= s.len(),
    ensures
        scan_tokens(s, pos) matches Ok(spans) ==> spans_fit(s, spans, pos),
    decreases remaining(s, pos),
{
    let start = pos + trivia(s, pos);
    if start < s.len() {
        lemma_token_fits(s, start);
        if let Ok((kind, n)) = token_at(s, start) {
            lemma_scan_tokens_fit(s, start + n);
        }
    }
}

/// Tests whether the characters from `start` up to `end` are `word`, whatever
/// the case of their letters.
fn matches_word(chars: &Vec<char>, start: usize, end: usize, word: &str) -> (r: bool)
    requires
        start <= end <= chars@.len(),
    ensures
        r == same_ignoring_case(chars@.subrange(start as int, end as int), word@),
{
    let n = word.unicode_len();
    if end - start != n {
        return false;
    }
    let ghost part = chars@.subrange(start as int, end as int);
    let mut i: usize = 0;
    while i < n
        invariant
            start <= end <= chars@.len(),
            n == end - start,
            n == word@.len(),
            i <= n,
            part == chars@.subrange(start as int, end as int),
            forall|j: int| 0 <= j < i ==> lower(#[trigger] part[j]) == lower(word@[j]),
        decreases n - i,
    {
        let a = to_lower(chars[start + i]);
        let b = to_lower(word.get_char(i));
        if a != b {
            assert(lower(part[i as int]) != lower(word@[i as int]));
            return false;
        }
        i = i + 1;
    }
    true
}

/// Computes [`keyword_of`] for the characters from `start` up to `end`.
fn find_keyword(chars: &Vec<char>, start: usize, end: usize) -> (r: Option<TokenKind>)
    requires
        start <= end <= chars@.len(),
    ensures
        r == keyword_of(chars@.subrange(start as int, end as int)),
{
    let table = [
        TokenKind::SelectKeyword,
        TokenKind::FromKeyword,
        TokenKind::WhereKeyword,
        TokenKind::InsertKeyword,
        TokenKind::IntoKeyword,
        TokenKind::ValuesKeyword,
        TokenKind::UpdateKeyword,
        TokenKind::SetKeyword,
        TokenKind::DeleteKeyword,
        TokenKind::GroupKeyword,
        TokenKind::ByKeyword,
        TokenKind::OrderKeyword,
        TokenKind::AscKeyword,
        TokenKind::DescKeyword,
        TokenKind::LimitKeyword,
        TokenKind::AndKeyword,
        TokenKind::OrKeyword,
        TokenKind::NotKeyword,
        TokenKind::TrueKeyword,
        TokenKind::FalseKeyword,
        TokenKind::NullKeyword,
    ];
    let ghost word = chars@.subrange(start as int, end as int);
    let mut i: usize = 0;
    while i < 21
        invariant
            start <= end <= chars@.len(),
            i <= 21,
            table@ == keywords(),
            word == chars@.subrange(start as int, end as int),
            keyword_of(word) == keyword_from(word, i as int),
        decreases 21 - i,
    {
        let kind = table[i];
        match kind.fixed_text() {
            Some(text) => {
                if matches_word(chars, start, end, text) {
                    return Some(kind);
                }
            },
            None => {},
        }
        i = i + 1;
    }
    None
}

/// Steps over the white space and comments that begin at `pos`.
fn skip_trivia(chars: &Vec<char>, pos: usize) -> (r: usize)
    requires
        pos <= chars@.len(),
    ensures
        r == pos + trivia(chars@, pos as int),
        pos <= r <= chars@.len(),
{
    let mut p: usize = pos;
    loop
        invariant_except_break
            pos <= p <= chars@.len(),
            p + trivia(chars@, p as int) == pos + trivia(chars@, pos as int),
        ensures
            pos <= p <= chars@.len(),
            p == pos + trivia(chars@, pos as int),
        decreases chars@.len() - p,
    {
        if p < chars.len() && CharClass::Space.contains(chars[p]) {
            p = p + 1;
        } else if p < chars.len() && p + 1 < chars.len() && chars[p] == '-' && chars[p + 1] == '-' {
            p = scan(chars, p + 2, CharClass::NotNewline);
        } else {
            break ;
        }
    }
    p
}

/// Reads the token that begins at `pos`: its kind and where it ends.
fn next_token(chars: &Vec<char>, pos: usize) -> (r: Result<(TokenKind, usize), ErrorKind>)
    requires
        pos < chars@.len(),
    ensures
        match r {
            Ok((kind, end)) => token_at(chars@, pos as int) == Ok::<_, ErrorKind>(
                (kind, (end - pos) as nat),
            ) && pos < end <= chars@.len(),
            Err(kind) => token_at(chars@, pos as int) == Err::<(TokenKind, nat), _>(kind),
        },
{
    let c = chars[pos];
    let followed_by_equal = pos < chars.len() - 1 && chars[pos + 1] == '=';
    if CharClass::IdentifierStart.contains(c) {
        let end = scan(chars, pos + 1, CharClass::IdentifierPart);
        match find_keyword(chars, pos, end) {
            Some(keyword) => Ok((keyword, end)),
            None => Ok((TokenKind::Identifier, end)),
        }
    } else if CharClass::Digit.contains(c) {
        let end = scan(chars, pos + 1, CharClass::Digit);
        if end < chars.len() && end + 1 < chars.len() && chars[end] == '.'
            && CharClass::Digit.contains(chars[end + 1]) {
            let float_end = scan(chars, end + 2, CharClass::Digit);
            Ok((TokenKind::FloatLiteral, float_end))
        } else {
            Ok((TokenKind::NumberLiteral, end))
        }
    } else if c == '\'' {
        let end = scan(chars, pos + 1, CharClass::NotQuote);
        if end < chars.len() {
            Ok((TokenKind::StringLiteral, end + 1))
        } else {
            Err(ErrorKind::UnterminatedString)
        }
    } else if c == '!' {
        if followed_by_equal {
            Ok((TokenKind::NotEqual, pos + 2))
        } else {
            Err(ErrorKind::UnexpectedCharacter)
        }
    } else if c == '<' {
        if followed_by_equal {
            Ok((TokenKind::LessEqual, pos + 2))
        } else {
            Ok((TokenKind::Less, pos + 1))
        }
    } else if c == '>' {
        if followed_by_equal {
            Ok((TokenKind::GreaterEqual, pos + 2))
        } else {
            Ok((TokenKind::Greater, pos + 1))
        }
    } else if c == '=' {
        Ok((TokenKind::Equal, pos + 1))
    } else if c == '*' {
        Ok((TokenKind::Star, pos + 1))
    } else if c == '/' {
        Ok((TokenKind::Slash, pos + 1))
    } else if c == '+' {
        Ok((TokenKind::Plus, pos + 1))
    } else if c == '-' {
        Ok((TokenKind::Minus, pos + 1))
    } else if c == '(' {
        Ok((TokenKind::LeftParen, pos + 1))
    } else if c == ')' {
        Ok((TokenKind::RightParen, pos + 1))
    } else if c == ',' {
        Ok((TokenKind::Comma, pos + 1))
    } else if c == ';' {
        Ok((TokenKind::Semicolon, pos + 1))
    } else {
        Err(ErrorKind::UnexpectedCharacter)
    }
}

/// What is left of a scan once `done` has been read.
pub open spec fn after(done: Seq<Span>, rest: Result<Seq<Span>, Failure>) -> Result<
    Seq<Span>,
    Failure,
> {
    match rest {
        Ok(spans) => Ok(done + spans),
        Err(failure) => Err(failure),
    }
}

/// Where a token index stands in the text: the offset of the `i`th span, or
/// the length of the text where there is no such span.
pub open spec fn offset_of(s: Seq<char>, spans: Seq<Span>, i: int) -> int {
    if 0 <= i < spans.len() {
        spans[i].start
    } else {
        s.len() as int
    }
}

/// The failure of the grammar at a token, as a failure at the offset of
/// that token.
pub open spec fn located(s: Seq<char>, spans: Seq<Span>, failure: Failure) -> Failure {
    Failure { position: offset_of(s, spans, failure.position), kind: failure.kind }
}

/// A text cut into tokens.
pub struct Tokens {
    pub chars: Vec<char>,
    pub tokens: Vec<Token>,
}

impl Tokens {
    /// The tokens are those that the scanner reads from the characters.
    pub open spec fn well_formed(&self) -> bool {
        scan_tokens(self.chars@, 0) == Ok::<_, Failure>(spans(self.tokens@))
    }

    /// The tokens without their places.
    pub open spec fn lexemes(&self) -> Seq<Lexeme> {
        lexemes(self.chars@, spans(self.tokens@))
    }

    /// The offset at which the `i`th token begins; the length of the text
    /// where there is no such token.
    pub open spec fn offset_at(&self, i: int) -> int {
        offset_of(self.chars@, spans(self.tokens@), i)
    }

    /// Every token lies inside the text.
    pub proof fn lemma_tokens_fit(&self)
        requires
            self.well_formed(),
        ensures
            forall|i: int|
                0 <= i < self.tokens@.len() ==> (#[trigger] self.tokens@[i]).start
                    < self.tokens@[i].end <= self.chars@.len(),
    {
        lemma_scan_tokens_fit(self.chars@, 0);
        assert forall|i: int| 0 <= i < self.tokens@.len() implies (#[trigger] self.tokens@[i]).start
            < self.tokens@[i].end <= self.chars@.len() by {
            assert(spans(self.tokens@)[i] == self.tokens@[i]@);
        }
    }

    /// Cuts `text` into tokens.
    pub fn scan(text: &str) -> (r: Result<Tokens, ParseError>)
        ensures
            match r {
                Ok(tokens) => tokens.well_formed() && tokens.chars@ == text@,
                Err(error) => scan_tokens(text@, 0) == Err::<Seq<Span>, _>(error@),
            },
    {
        let chars = characters(text);
        let mut tokens: Vec<Token> = Vec::new();
        let mut pos: usize = 0;
        loop
            invariant
                pos <= chars@.len(),
                chars@ == text@,
                scan_tokens(chars@, 0) == after(spans(tokens@), scan_tokens(chars@, pos as int)),
            decreases chars@.len() - pos,
        {
            let start = skip_trivia(&chars, pos);
            if start >= chars.len() {
                return Ok(Tokens { chars, tokens });
            }
            match next_token(&chars, start) {
                Err(kind) => {
                    return Err(ParseError { position: start, kind });
                },
                Ok((kind, end)) => {
                    let ghost before = spans(tokens@);
                    let token = Token { kind, start, end };
                    tokens.push(token);
                    proof {
                        if let Ok(rest) = scan_tokens(chars@, end as int) {
                            assert(before + (seq![token@] + rest) =~= spans(tokens@) + rest);
                        }
                    }
                    pos = end;
                },
            }
        }
    }

    /// The number of tokens.
    pub fn len(&self) -> (n: usize)
        ensures
            n == self.lexemes().len(),
    {
        self.tokens.len()
    }

    /// The kind of the token at `pos`.
    pub fn kind_at(&self, pos: usize) -> (kind: TokenKind)
        requires
            pos < self.lexemes().len(),
        ensures
            kind == self.lexemes()[pos as int].kind,
    {
        self.tokens[pos].kind
    }

    /// Tests whether a token of `kind` stands at `pos`.
    pub fn holds(&self, pos: usize, kind: TokenKind) -> (r: bool)
        ensures
            r == (pos < self.lexemes().len() && self.lexemes()[pos as int].kind == kind),
            r ==> pos < usize::MAX,
    {
        pos < self.tokens.len() && self.tokens[pos].kind == kind
    }

    /// The text of the token at `pos`.
    pub fn text_at(&self, pos: usize) -> (text: String)
        requires
            self.well_formed(),
            pos < self.lexemes().len(),
        ensures
            text@ == self.lexemes()[pos as int].text,
    {
        proof {
            self.lemma_tokens_fit();
        }
        let token = self.tokens[pos];
        match token.kind.fixed_text() {
            Some(text) => String::from_str(text),
            None => slice_text(&self.chars, token.start, token.end),
        }
    }

    /// The offset at which the token at `pos` begins; the length of the text
    /// where there is no such token.
    pub fn offset(&self, pos: usize) -> (offset: usize)
        ensures
            offset == self.offset_at(pos as int),
    {
        if pos < self.tokens.len() {
            self.tokens[pos].start
        } else {
            self.chars.len()
        }
    }

    /// The error of the grammar at a token, as an error at the offset of
    /// that token.
    pub fn locate(&self, error: ParseError) -> (r: ParseError)
        ensures
            r@ == located(self.chars@, spans(self.tokens@), error@),
    {
        ParseError { position: self.offset(error.position), kind: error.kind }
    }
}

} // verus!

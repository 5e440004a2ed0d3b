//! Character classes and maximal runs of characters.

use vstd::prelude::*;

verus! {

/// A set of characters that a scanner may run over.
#[derive(Clone, Copy, Debug, PartialEq, Eq, Structural)]
pub enum CharClass {
    /// Blank, tab, carriage return and line feed.
    Space,
    /// The decimal digits `0` to `9`.
    Digit,
    /// What may begin an identifier: an ASCII letter or `_`.
    IdentifierStart,
    /// What may continue an identifier: an ASCII letter, a digit or `_`.
    IdentifierPart,
    /// Every character but the single quote.
    NotQuote,
    /// Every character but the line feed.
    NotNewline,
}

pub open spec fn is_space(c: char) -> bool {
    c == ' ' || c == '\t' || c == '\r' || c == '\n'
}

pub open spec fn is_digit(c: char) -> bool {
    '0' <= c && c <= '9'
}

pub open spec fn is_letter(c: char) -> bool {
    ('a' <= c && c <= 'z') || ('A' <= c && c <= 'Z')
}

pub open spec fn is_identifier_start(c: char) -> bool {
    is_letter(c) || c == '_'
}

pub open spec fn is_identifier_part(c: char) -> bool {
    is_letter(c) || is_digit(c) || c == '_'
}

impl CharClass {
    /// Whether `c` belongs to the class.
    pub open spec fn has(self, c: char) -> bool {
        match self {
            CharClass::Space => is_space(c),
            CharClass::Digit => is_digit(c),
            CharClass::IdentifierStart => is_identifier_start(c),
            CharClass::IdentifierPart => is_identifier_part(c),
            CharClass::NotQuote => c != '\'',
            CharClass::NotNewline => c != '\n',
        }
    }

    /// Tests membership of `c`.
    pub fn contains(self, c: char) -> (r: bool)
        ensures
            r == self.has(c),
    {
        let letter = ('a' <= c && c <= 'z') || ('A' <= c && c <= 'Z');
        let digit = '0' <= c && c <= '9';
        match self {
            CharClass::Space => c == ' ' || c == '\t' || c == '\r' || c == '\n',
            CharClass::Digit => digit,
            CharClass::IdentifierStart => letter || c == '_',
            CharClass::IdentifierPart => letter || digit || c == '_',
            CharClass::NotQuote => c != '\'',
            CharClass::NotNewline => c != '\n',
        }
    }
}

/// Every character of `s` belongs to `class`.
pub open spec fn all_in(s: Seq<char>, class: CharClass) -> bool {
    forall|i: int| 0 <= i < s.len() ==> class.has(#[trigger] s[i])
}

/// The number of characters of `s` from `pos` on that belong to `class`, up to
/// the first one that does not.
pub open spec fn run(s: Seq<char>, pos: int, class: CharClass) -> nat
    decreases s.len() - pos,
{
    if 0 <= pos < s.len() && class.has(s[pos]) {
        1 + run(s, pos + 1, class)
    } else {
        0
    }
}

/// A run stays inside the text, holds only characters of the class, and stops
/// at the end of the text or before a character outside the class.
pub proof fn lemma_run_is_maximal(s: Seq<char>, pos: int, class: CharClass)
    requires
        0 <= pos <= s.len(),
    ensures
        pos + run(s, pos, class) <= s.len(),
        all_in(s.subrange(pos, pos + run(s, pos, class)), class),
        pos + run(s, pos, class) < s.len() ==> !class.has(s[pos + run(s, pos, class)]),
    decreases s.len() - pos,
{
    if pos < s.len() && class.has(s[pos]) {
        lemma_run_is_maximal(s, pos + 1, class);
        let n = run(s, pos, class);
        assert forall|i: int| 0 <= i < n implies class.has(
            #[trigger] s.subrange(pos, pos + n)[i],
        ) by {
            if i > 0 {
                assert(s.subrange(pos + 1, pos + n)[i - 1] == s[pos + i]);
            }
        }
    }
}

/// A stretch of characters of the class that ends at the end of the text, or
/// before a character outside the class, is the run.
pub proof fn lemma_run_is_unique(s: Seq<char>, pos: int, class: CharClass, n: nat)
    requires
        0 <= pos,
        pos + n <= s.len(),
        all_in(s.subrange(pos, pos + n), class),
        pos + n < s.len() ==> !class.has(s[pos + n]),
    ensures
        run(s, pos, class) == n,
    decreases n,
{
    if n > 0 {
        assert(s.subrange(pos, pos + n)[0] == s[pos]);
        assert forall|i: int| 0 <= i < n - 1 implies class.has(
            #[trigger] s.subrange(pos + 1, pos + n)[i],
        ) by {
            assert(s.subrange(pos, pos + n)[i + 1] == s[pos + 1 + i]);
        }
        lemma_run_is_unique(s, pos + 1, class, (n - 1) as nat);
    }
}

/// Finds where the run of `class` that begins at `pos` ends.
pub fn scan(chars: &Vec<char>, pos: usize, class: CharClass) -> (end: usize)
    requires
        pos <= chars@.len(),
    ensures
        end == pos + run(chars@, pos as int, class),
        pos <= end <= chars@.len(),
{
    let mut end: usize = pos;
    while end < chars.len() && class.contains(chars[end])
        invariant
            pos <= end <= chars@.len(),
            all_in(chars@.subrange(pos as int, end as int), class),
        decreases chars@.len() - end,
    {
        end = end + 1;
    }
    proof {
        lemma_run_is_unique(chars@, pos as int, class, (end - pos) as nat);
    }
    end
}

/// The lower-case form of an ASCII capital letter; any other character itself.
pub open spec fn lower(c: char) -> char {
    if 'A' <= c && c <= 'Z' {
        ((c as u8) + 32) as char
    } else {
        c
    }
}

/// Computes [`lower`].
pub fn to_lower(c: char) -> (r: char)
    ensures
        r == lower(c),
{
    if 'A' <= c && c <= 'Z' {
        ((c as u8) + 32) as char
    } else {
        c
    }
}

/// Two texts are equal once ASCII capitals are read as small letters.
pub open spec fn same_ignoring_case(a: Seq<char>, b: Seq<char>) -> bool {
    &&& a.len() == b.len()
    &&& forall|i: int| 0 <= i < a.len() ==> lower(#[trigger] a[i]) == lower(b[i])
}

/// The text of `chars` from `start` up to `end`, as a string.
pub fn slice_text(chars: &Vec<char>, start: usize, end: usize) -> (r: String)
    requires
        start <= end <= chars@.len(),
    ensures
        r@ == chars@.subrange(start as int, end as int),
{
    let mut r = String::new();
    let mut i: usize = start;
    while i < end
        invariant
            start <= i <= end <= chars@.len(),
            r@ == chars@.subrange(start as int, i as int),
        decreases end - i,
    {
        push_char(&mut r, chars[i]);
        i = i + 1;
    }
    r
}

/// `String::push` of the standard library: the string afterwards is the
/// string before with `c` added at its end.
#[verifier::external_body]
pub(crate) fn push_char(s: &mut String, c: char)
    ensures
        final(s)@ == old(s)@.push(c),
{
    s.push(c)
}

/// The characters of `text`, in order.
pub fn characters(text: &str) -> (chars: Vec<char>)
    ensures
        chars@ == text@,
{
    let mut chars: Vec<char> = Vec::new();
    for c in it: text.chars()
        invariant
            chars@ == it.seq().take(it.index()),
    {
        chars.push(c);
    }
    chars
}

} // verus!

//! The recogniser: it reads the tokens as the grammar says and builds the
//! parse tree.

use crate::error::{ErrorKind, Failure, ParseError};
use crate::grammar::{
    assignment, assignment_list, assignments, begin, binary, chain, delete_statement, direction,
    expected, expression, expression_tree, from_clause, group_by_clause, holds, insert_statement,
    left, limit_clause, list, operand, optional, order_by_clause, prefix_operator, primary,
    row_count, select_clause, select_statement, set_clause, statement, statement_tree, token, unary,
    update_statement, value_list, values_clause, where_clause, Level, Parsed, ParsedList, Progress,
    MAX_INTEGER, MAX_LIMIT,
};
use crate::number::read_numeral;
use crate::rule::Rule;
use crate::token::{Lexeme, TokenKind, Tokens};
use crate::tree::{node, push_pair, views, Pair, PairView};
use vstd::prelude::*;

verus! {

/// What a reader gives: a node and the place after it, or an error.
pub type Read = Result<(Pair, usize), ParseError>;

/// What a reader of a repetition gives: its nodes and the place after them.
pub type ReadList = Result<(Vec<Pair>, usize), ParseError>;

/// A reader that began at `pos` among `len` tokens gave what the rule gives.
pub open spec fn agrees(r: Read, pos: usize, rule: Parsed, len: nat) -> bool {
    match r {
        Ok((pair, end)) => pos <= end <= len && rule == Ok::<(PairView, nat), Failure>(
            (pair@, (end - pos) as nat),
        ),
        Err(error) => rule == Err::<(PairView, nat), Failure>(error@),
    }
}

/// A reader of a repetition that began at `pos` among `len` tokens gave what
/// the rule gives.
pub open spec fn agrees_all(r: ReadList, pos: usize, rule: ParsedList, len: nat) -> bool {
    match r {
        Ok((pairs, end)) => pos <= end <= len && rule == Ok::<(Seq<PairView>, nat), Failure>(
            (views(pairs@), (end - pos) as nat),
        ),
        Err(error) => rule == Err::<(Seq<PairView>, nat), Failure>(error@),
    }
}

impl Level {
    /// Computes [`Level::rule`].
    pub(crate) fn label(self) -> (rule: Rule)
        ensures
            rule == self.rule(),
    {
        match self {
            Level::Or => Rule::OrExpression,
            Level::And => Rule::AndExpression,
            Level::Equality => Rule::EqualityExpression,
            Level::Comparison => Rule::ComparisonExpression,
            Level::Additive => Rule::AdditiveExpression,
            Level::Multiplicative => Rule::MultiplicativeExpression,
        }
    }

    /// Computes [`Level::tighter`].
    pub(crate) fn next(self) -> (level: Option<Level>)
        ensures
            level == self.tighter(),
    {
        match self {
            Level::Or => Some(Level::And),
            Level::And => Some(Level::Equality),
            Level::Equality => Some(Level::Comparison),
            Level::Comparison => Some(Level::Additive),
            Level::Additive => Some(Level::Multiplicative),
            Level::Multiplicative => None,
        }
    }

    /// Computes [`Level::operator`].
    pub(crate) fn sign(self, kind: TokenKind) -> (rule: Option<Rule>)
        ensures
            rule == self.operator(kind),
    {
        match (self, kind) {
            (Level::Or, TokenKind::OrKeyword) => Some(Rule::OrKeyword),
            (Level::And, TokenKind::AndKeyword) => Some(Rule::AndKeyword),
            (Level::Equality, TokenKind::Equal) => Some(Rule::Equal),
            (Level::Equality, TokenKind::NotEqual) => Some(Rule::NotEqual),
            (Level::Comparison, TokenKind::Less) => Some(Rule::LessThan),
            (Level::Comparison, TokenKind::LessEqual) => Some(Rule::LessThanOrEqual),
            (Level::Comparison, TokenKind::Greater) => Some(Rule::GreaterThan),
            (Level::Comparison, TokenKind::GreaterEqual) => Some(Rule::GreaterThanOrEqual),
            (Level::Additive, TokenKind::Plus) => Some(Rule::Add),
            (Level::Additive, TokenKind::Minus) => Some(Rule::Subtract),
            (Level::Multiplicative, TokenKind::Star) => Some(Rule::Multiply),
            (Level::Multiplicative, TokenKind::Slash) => Some(Rule::Divide),
            _ => None,
        }
    }
}

/// Computes [`prefix_operator`].
fn prefix_sign(kind: TokenKind) -> (rule: Option<Rule>)
    ensures
        rule == prefix_operator(kind),
{
    match kind {
        TokenKind::NotKeyword => Some(Rule::NotKeyword),
        TokenKind::Minus => Some(Rule::Minus),
        _ => None,
    }
}

/// The error of a rule that found something else at `pos`.
fn unexpected(pos: usize, rule: Rule) -> (error: ParseError)
    ensures
        error@ == expected(pos as int, rule),
{
    ParseError { position: pos, kind: ErrorKind::Expected(rule) }
}

/// The node of `rule` over the one part `part`.
fn single(rule: Rule, part: Pair) -> (pair: Pair)
    ensures
        pair@ == node(rule, seq![part@]),
{
    let mut children: Vec<Pair> = Vec::new();
    push_pair(&mut children, part);
    assert(views(children@) =~= seq![part@]);
    Pair::node(rule, children)
}

/// The parts of a rule read so far, and the place after them.
struct Reader {
    children: Vec<Pair>,
    pos: usize,
}

impl Reader {
    spec fn progress(&self) -> Progress {
        Progress { children: views(self.children@), pos: self.pos as int, failure: None }
    }

    fn begin(pos: usize) -> (reader: Reader)
        ensures
            reader.progress() == begin(pos as int),
            reader.pos == pos,
    {
        let reader = Reader { children: Vec::new(), pos };
        assert(views(reader.children@) =~= Seq::empty());
        reader
    }

    fn take(&mut self, part: (Pair, usize))
        requires
            old(self).pos <= part.1,
        ensures
            final(self).progress() == old(self).progress().take(
                Ok((part.0@, (part.1 - old(self).pos) as nat)),
            ),
            final(self).pos == part.1,
    {
        push_pair(&mut self.children, part.0);
        self.pos = part.1;
        assert(views(self.children@) =~= views(old(self).children@) + seq![part.0@]);
    }

    fn pass(&mut self, part: (Pair, usize))
        requires
            old(self).pos <= part.1,
        ensures
            final(self).progress() == old(self).progress().pass(
                Ok((part.0@, (part.1 - old(self).pos) as nat)),
            ),
            final(self).pos == part.1,
    {
        self.pos = part.1;
    }

    fn take_all(&mut self, part: (Vec<Pair>, usize))
        requires
            old(self).pos <= part.1,
        ensures
            final(self).progress() == old(self).progress().take_all(
                Ok((views(part.0@), (part.1 - old(self).pos) as nat)),
            ),
            final(self).pos == part.1,
    {
        let mut pairs = part.0;
        self.children.append(&mut pairs);
        self.pos = part.1;
        assert(views(self.children@) =~= views(old(self).children@) + views(part.0@));
    }

    /// Nothing stands where an optional part may stand.
    proof fn lemma_nothing(&self)
        ensures
            self.progress().take_all(Ok((Seq::empty(), 0nat))) == self.progress(),
    {
    }

    fn done(self, rule: Rule, start: usize) -> (r: (Pair, usize))
        requires
            start <= self.pos,
        ensures
            self.progress().done(rule, start as int) == Ok::<(PairView, nat), Failure>(
                (r.0@, (r.1 - start) as nat),
            ),
            r.1 == self.pos,
    {
        (Pair::node(rule, self.children), self.pos)
    }
}

/// Reads one token of `kind` as a node of `rule`.
fn read_token(ts: &Tokens, pos: usize, kind: TokenKind, rule: Rule) -> (r: Read)
    requires
        ts.well_formed(),
    ensures
        agrees(r, pos, token(ts.lexemes(), pos as int, kind, rule), ts.lexemes().len()),
{
    if ts.holds(pos, kind) {
        Ok((Pair::leaf(rule, ts.text_at(pos)), pos + 1))
    } else {
        Err(unexpected(pos, rule))
    }
}

/// Reads a primary expression.
fn read_primary(ts: &Tokens, pos: usize) -> (r: Read)
    requires
        ts.well_formed(),
    ensures
        agrees(r, pos, primary(ts.lexemes(), pos as int), ts.lexemes().len()),
    decreases left(ts.lexemes(), pos as int), 0nat,
{
    if pos >= ts.len() {
        return Err(unexpected(pos, Rule::PrimaryExpression));
    }
    match ts.kind_at(pos) {
        TokenKind::StringLiteral => {
            let inner = Pair::leaf(Rule::StringLiteral, ts.text_at(pos));
            Ok((single(Rule::PrimaryExpression, inner), pos + 1))
        },
        TokenKind::NumberLiteral => {
            let text = ts.text_at(pos);
            if read_numeral(text.as_str(), MAX_INTEGER).is_some() {
                let inner = Pair::leaf(Rule::NumberLiteral, text);
                Ok((single(Rule::PrimaryExpression, inner), pos + 1))
            } else {
                Err(ParseError { position: pos, kind: ErrorKind::NumberTooLarge })
            }
        },
        TokenKind::FloatLiteral => {
            let inner = Pair::leaf(Rule::FloatLiteral, ts.text_at(pos));
            Ok((single(Rule::PrimaryExpression, inner), pos + 1))
        },
        TokenKind::TrueKeyword => {
            let word = Pair::leaf(Rule::TrueKeyword, ts.text_at(pos));
            let inner = single(Rule::BooleanLiteral, word);
            Ok((single(Rule::PrimaryExpression, inner), pos + 1))
        },
        TokenKind::FalseKeyword => {
            let word = Pair::leaf(Rule::FalseKeyword, ts.text_at(pos));
            let inner = single(Rule::BooleanLiteral, word);
            Ok((single(Rule::PrimaryExpression, inner), pos + 1))
        },
        TokenKind::NullKeyword => {
            let word = Pair::leaf(Rule::NullKeyword, ts.text_at(pos));
            let inner = single(Rule::NullLiteral, word);
            Ok((single(Rule::PrimaryExpression, inner), pos + 1))
        },
        TokenKind::Identifier => {
            let inner = Pair::leaf(Rule::Identifier, ts.text_at(pos));
            Ok((single(Rule::PrimaryExpression, inner), pos + 1))
        },
        TokenKind::LeftParen => {
            let (inner, end) = read_expression(ts, pos + 1)?;
            if ts.holds(end, TokenKind::RightParen) {
                Ok((single(Rule::PrimaryExpression, inner), end + 1))
            } else {
                Err(unexpected(end, Rule::RightParen))
            }
        },
        _ => Err(unexpected(pos, Rule::PrimaryExpression)),
    }
}

/// Reads a unary expression.
fn read_unary(ts: &Tokens, pos: usize) -> (r: Read)
    requires
        ts.well_formed(),
    ensures
        agrees(r, pos, unary(ts.lexemes(), pos as int), ts.lexemes().len()),
    decreases left(ts.lexemes(), pos as int), 1nat,
{
    if pos < ts.len() {
        if let Some(rule) = prefix_sign(ts.kind_at(pos)) {
            let sign = Pair::leaf(rule, ts.text_at(pos));
            let (inner, end) = read_unary(ts, pos + 1)?;
            let mut children: Vec<Pair> = Vec::new();
            push_pair(&mut children, sign);
            push_pair(&mut children, inner);
            assert(views(children@) =~= seq![sign@, inner@]);
            return Ok((Pair::node(Rule::UnaryExpression, children), end));
        }
    }
    let (inner, end) = read_primary(ts, pos)?;
    Ok((single(Rule::UnaryExpression, inner), end))
}

/// Reads an operand of `level`.
fn read_operand(level: Level, ts: &Tokens, pos: usize) -> (r: Read)
    requires
        ts.well_formed(),
    ensures
        agrees(r, pos, operand(level, ts.lexemes(), pos as int), ts.lexemes().len()),
    decreases left(ts.lexemes(), pos as int), 3 * level.rank() + 2,
{
    match level.next() {
        Some(next) => read_binary(next, ts, pos),
        None => read_unary(ts, pos),
    }
}

/// What is left of an expression of a level once `done` has been read:
/// the rule's result, given the rest of its chain.
pub open spec fn closing(rule: Rule, done: Seq<PairView>, n: nat, rest: ParsedList) -> Parsed {
    match rest {
        Ok((trees, m)) => Ok((node(rule, done + trees), n + m)),
        Err(failure) => Err(failure),
    }
}

/// Reads an expression of `level`.
fn read_binary(level: Level, ts: &Tokens, pos: usize) -> (r: Read)
    requires
        ts.well_formed(),
    ensures
        agrees(r, pos, binary(level, ts.lexemes(), pos as int), ts.lexemes().len()),
    decreases left(ts.lexemes(), pos as int), 3 * level.rank() + 4,
{
    let ghost lx = ts.lexemes();
    let (first, start) = read_operand(level, ts, pos)?;
    let mut children: Vec<Pair> = Vec::new();
    push_pair(&mut children, first);
    let mut end: usize = start;
    assert(views(children@) =~= seq![first@]);
    loop
        invariant_except_break
            ts.well_formed(),
            lx == ts.lexemes(),
            pos <= end <= lx.len(),
            binary(level, lx, pos as int) == closing(
                level.rule(),
                views(children@),
                (end - pos) as nat,
                chain(level, lx, end as int),
            ),
        ensures
            pos <= end <= lx.len(),
            binary(level, lx, pos as int) == Ok::<(PairView, nat), Failure>(
                (node(level.rule(), views(children@)), (end - pos) as nat),
            ),
        decreases left(lx, end as int),
    {
        let rule = if end < ts.len() {
            level.sign(ts.kind_at(end))
        } else {
            None
        };
        match rule {
            None => {
                break ;
            },
            Some(rule) => {
                let sign = Pair::leaf(rule, ts.text_at(end));
                let (right, next) = read_operand(level, ts, end + 1)?;
                let ghost before = views(children@);
                push_pair(&mut children, sign);
                push_pair(&mut children, right);
                proof {
                    if let Ok((rest, m)) = chain(level, lx, next as int) {
                        assert(before + (seq![sign@, right@] + rest) =~= views(children@) + rest);
                    }
                }
                end = next;
            },
        }
    }
    Ok((Pair::node(level.label(), children), end))
}

/// Reads an expression.
fn read_expression(ts: &Tokens, pos: usize) -> (r: Read)
    requires
        ts.well_formed(),
    ensures
        agrees(r, pos, expression(ts.lexemes(), pos as int), ts.lexemes().len()),
    decreases left(ts.lexemes(), pos as int), 20nat,
{
    let (inner, end) = read_binary(Level::Or, ts, pos)?;
    Ok((single(Rule::Expression, inner), end))
}

/// Reads one or more tokens of `kind`, with a comma between each two, as
/// nodes of `rule`.
fn read_list(ts: &Tokens, pos: usize, kind: TokenKind, rule: Rule) -> (r: ReadList)
    requires
        ts.well_formed(),
    ensures
        agrees_all(r, pos, list(ts.lexemes(), pos as int, kind, rule), ts.lexemes().len()),
    decreases left(ts.lexemes(), pos as int),
{
    if !ts.holds(pos, kind) {
        return Err(unexpected(pos, rule));
    }
    let first = Pair::leaf(rule, ts.text_at(pos));
    let mut pairs: Vec<Pair> = Vec::new();
    push_pair(&mut pairs, first);
    if ts.holds(pos + 1, TokenKind::Comma) {
        let (mut rest, end) = read_list(ts, pos + 2, kind, rule)?;
        let ghost head = views(pairs@);
        let ghost tail = views(rest@);
        assert(head =~= seq![first@]);
        pairs.append(&mut rest);
        assert(views(pairs@) =~= head + tail);
        Ok((pairs, end))
    } else {
        assert(views(pairs@) =~= seq![first@]);
        Ok((pairs, pos + 1))
    }
}

/// Reads `FROM` and the name of a table.
fn read_from_clause(ts: &Tokens, pos: usize) -> (r: Read)
    requires
        ts.well_formed(),
    ensures
        agrees(r, pos, from_clause(ts.lexemes(), pos as int), ts.lexemes().len()),
{
    let mut reader = Reader::begin(pos);
    reader.take(read_token(ts, reader.pos, TokenKind::FromKeyword, Rule::FromKeyword)?);
    reader.take(read_token(ts, reader.pos, TokenKind::Identifier, Rule::Identifier)?);
    Ok(reader.done(Rule::FromClause, pos))
}

/// Reads `WHERE` and an expression.
fn read_where_clause(ts: &Tokens, pos: usize) -> (r: Read)
    requires
        ts.well_formed(),
    ensures
        agrees(r, pos, where_clause(ts.lexemes(), pos as int), ts.lexemes().len()),
{
    let mut reader = Reader::begin(pos);
    reader.take(read_token(ts, reader.pos, TokenKind::WhereKeyword, Rule::WhereKeyword)?);
    reader.take(read_expression(ts, reader.pos)?);
    Ok(reader.done(Rule::WhereClause, pos))
}

/// Reads `GROUP BY` and its column names.
fn read_group_by_clause(ts: &Tokens, pos: usize) -> (r: Read)
    requires
        ts.well_formed(),
    ensures
        agrees(r, pos, group_by_clause(ts.lexemes(), pos as int), ts.lexemes().len()),
{
    let mut reader = Reader::begin(pos);
    reader.take(read_token(ts, reader.pos, TokenKind::GroupKeyword, Rule::GroupKeyword)?);
    reader.take(read_token(ts, reader.pos, TokenKind::ByKeyword, Rule::ByKeyword)?);
    reader.take_all(read_list(ts, reader.pos, TokenKind::Identifier, Rule::Identifier)?);
    Ok(reader.done(Rule::GroupByClause, pos))
}

/// Reads `ORDER BY`, a column name and a direction, if one is given.
fn read_order_by_clause(ts: &Tokens, pos: usize) -> (r: Read)
    requires
        ts.well_formed(),
    ensures
        agrees(r, pos, order_by_clause(ts.lexemes(), pos as int), ts.lexemes().len()),
{
    let mut reader = Reader::begin(pos);
    reader.take(read_token(ts, reader.pos, TokenKind::OrderKeyword, Rule::OrderKeyword)?);
    reader.take(read_token(ts, reader.pos, TokenKind::ByKeyword, Rule::ByKeyword)?);
    reader.take(read_token(ts, reader.pos, TokenKind::Identifier, Rule::Identifier)?);
    if ts.holds(reader.pos, TokenKind::AscKeyword) {
        reader.take(read_token(ts, reader.pos, TokenKind::AscKeyword, Rule::AscKeyword)?);
    } else if ts.holds(reader.pos, TokenKind::DescKeyword) {
        reader.take(read_token(ts, reader.pos, TokenKind::DescKeyword, Rule::DescKeyword)?);
    } else {
        proof {
            reader.lemma_nothing();
        }
    }
    Ok(reader.done(Rule::OrderByClause, pos))
}

/// Reads a number of rows.
fn read_row_count(ts: &Tokens, pos: usize) -> (r: Read)
    requires
        ts.well_formed(),
    ensures
        agrees(r, pos, row_count(ts.lexemes(), pos as int), ts.lexemes().len()),
{
    if !ts.holds(pos, TokenKind::NumberLiteral) {
        return Err(unexpected(pos, Rule::NumberLiteral));
    }
    let text = ts.text_at(pos);
    if read_numeral(text.as_str(), MAX_LIMIT).is_none() {
        return Err(ParseError { position: pos, kind: ErrorKind::NumberTooLarge });
    }
    Ok((Pair::leaf(Rule::NumberLiteral, text), pos + 1))
}

/// Reads `LIMIT` and a number of rows.
fn read_limit_clause(ts: &Tokens, pos: usize) -> (r: Read)
    requires
        ts.well_formed(),
    ensures
        agrees(r, pos, limit_clause(ts.lexemes(), pos as int), ts.lexemes().len()),
{
    let mut reader = Reader::begin(pos);
    reader.take(read_token(ts, reader.pos, TokenKind::LimitKeyword, Rule::LimitKeyword)?);
    reader.take(read_row_count(ts, reader.pos)?);
    Ok(reader.done(Rule::LimitClause, pos))
}

/// Reads `SELECT *`.
fn read_select_clause(ts: &Tokens, pos: usize) -> (r: Read)
    requires
        ts.well_formed(),
    ensures
        agrees(r, pos, select_clause(ts.lexemes(), pos as int), ts.lexemes().len()),
{
    let mut reader = Reader::begin(pos);
    reader.take(read_token(ts, reader.pos, TokenKind::SelectKeyword, Rule::SelectKeyword)?);
    reader.pass(read_token(ts, reader.pos, TokenKind::Star, Rule::Star)?);
    Ok(reader.done(Rule::SelectClause, pos))
}

/// The progress `p` with a `WHERE` clause added where one begins.
pub open spec fn after_where(ts: Seq<Lexeme>, p: Progress) -> Progress {
    p.take_all(optional(holds(ts, p.pos, TokenKind::WhereKeyword), where_clause(ts, p.pos)))
}

/// Reads a `WHERE` clause where one begins at the reader's place.
fn read_optional_where(ts: &Tokens, reader: &mut Reader) -> (r: Result<(), ParseError>)
    requires
        ts.well_formed(),
    ensures
        match r {
            Ok(_) => final(reader).progress() == after_where(ts.lexemes(), old(reader).progress())
                && old(reader).pos <= final(reader).pos,
            Err(error) => after_where(ts.lexemes(), old(reader).progress()).failure == Some(
                error@,
            ),
        },
{
    if ts.holds(reader.pos, TokenKind::WhereKeyword) {
        reader.take(read_where_clause(ts, reader.pos)?);
    } else {
        proof {
            reader.lemma_nothing();
        }
    }
    Ok(())
}

/// Reads a `SELECT` statement.
#[verifier::rlimit(30)]
fn read_select_statement(ts: &Tokens, pos: usize) -> (r: Read)
    requires
        ts.well_formed(),
    ensures
        agrees(r, pos, select_statement(ts.lexemes(), pos as int), ts.lexemes().len()),
{
    proof {
        reveal(select_statement);
    }
    let mut reader = Reader::begin(pos);
    reader.take(read_select_clause(ts, reader.pos)?);
    reader.take(read_from_clause(ts, reader.pos)?);
    read_optional_where(ts, &mut reader)?;
    if ts.holds(reader.pos, TokenKind::GroupKeyword) {
        reader.take(read_group_by_clause(ts, reader.pos)?);
    } else {
        proof {
            reader.lemma_nothing();
        }
    }
    if ts.holds(reader.pos, TokenKind::OrderKeyword) {
        reader.take(read_order_by_clause(ts, reader.pos)?);
    } else {
        proof {
            reader.lemma_nothing();
        }
    }
    if ts.holds(reader.pos, TokenKind::LimitKeyword) {
        reader.take(read_limit_clause(ts, reader.pos)?);
    } else {
        proof {
            reader.lemma_nothing();
        }
    }
    reader.pass(read_token(ts, reader.pos, TokenKind::Semicolon, Rule::Semicolon)?);
    Ok(reader.done(Rule::SelectStatement, pos))
}

/// Reads a list of values.
fn read_value_list(ts: &Tokens, pos: usize) -> (r: Read)
    requires
        ts.well_formed(),
    ensures
        agrees(r, pos, value_list(ts.lexemes(), pos as int), ts.lexemes().len()),
{
    let mut reader = Reader::begin(pos);
    reader.take_all(read_list(ts, reader.pos, TokenKind::StringLiteral, Rule::StringLiteral)?);
    Ok(reader.done(Rule::ValueList, pos))
}

/// Reads `VALUES` and a list of values in parentheses.
fn read_values_clause(ts: &Tokens, pos: usize) -> (r: Read)
    requires
        ts.well_formed(),
    ensures
        agrees(r, pos, values_clause(ts.lexemes(), pos as int), ts.lexemes().len()),
{
    let mut reader = Reader::begin(pos);
    reader.take(read_token(ts, reader.pos, TokenKind::ValuesKeyword, Rule::ValuesKeyword)?);
    reader.pass(read_token(ts, reader.pos, TokenKind::LeftParen, Rule::LeftParen)?);
    reader.take(read_value_list(ts, reader.pos)?);
    reader.pass(read_token(ts, reader.pos, TokenKind::RightParen, Rule::RightParen)?);
    Ok(reader.done(Rule::ValuesClause, pos))
}

/// Reads an `INSERT` statement.
fn read_insert_statement(ts: &Tokens, pos: usize) -> (r: Read)
    requires
        ts.well_formed(),
    ensures
        agrees(r, pos, insert_statement(ts.lexemes(), pos as int), ts.lexemes().len()),
{
    proof {
        reveal(insert_statement);
    }
    let mut reader = Reader::begin(pos);
    reader.take(read_token(ts, reader.pos, TokenKind::InsertKeyword, Rule::InsertKeyword)?);
    reader.take(read_token(ts, reader.pos, TokenKind::IntoKeyword, Rule::IntoKeyword)?);
    reader.take(read_token(ts, reader.pos, TokenKind::Identifier, Rule::Identifier)?);
    reader.take(read_values_clause(ts, reader.pos)?);
    reader.pass(read_token(ts, reader.pos, TokenKind::Semicolon, Rule::Semicolon)?);
    Ok(reader.done(Rule::InsertStatement, pos))
}

/// Reads a column name, `=` and a string literal.
fn read_assignment(ts: &Tokens, pos: usize) -> (r: Read)
    requires
        ts.well_formed(),
    ensures
        agrees(r, pos, assignment(ts.lexemes(), pos as int), ts.lexemes().len()),
{
    let mut reader = Reader::begin(pos);
    reader.take(read_token(ts, reader.pos, TokenKind::Identifier, Rule::Identifier)?);
    reader.pass(read_token(ts, reader.pos, TokenKind::Equal, Rule::Assign)?);
    reader.take(read_token(ts, reader.pos, TokenKind::StringLiteral, Rule::StringLiteral)?);
    Ok(reader.done(Rule::Assignment, pos))
}

/// Reads one or more assignments with commas between them.
fn read_assignments(ts: &Tokens, pos: usize) -> (r: ReadList)
    requires
        ts.well_formed(),
    ensures
        agrees_all(r, pos, assignments(ts.lexemes(), pos as int), ts.lexemes().len()),
    decreases left(ts.lexemes(), pos as int),
{
    let (first, end) = read_assignment(ts, pos)?;
    let mut pairs: Vec<Pair> = Vec::new();
    push_pair(&mut pairs, first);
    if ts.holds(end, TokenKind::Comma) {
        let (mut rest, last) = read_assignments(ts, end + 1)?;
        let ghost head = views(pairs@);
        let ghost tail = views(rest@);
        assert(head =~= seq![first@]);
        pairs.append(&mut rest);
        assert(views(pairs@) =~= head + tail);
        Ok((pairs, last))
    } else {
        assert(views(pairs@) =~= seq![first@]);
        Ok((pairs, end))
    }
}

/// Reads the assignments of an `UPDATE` statement.
fn read_assignment_list(ts: &Tokens, pos: usize) -> (r: Read)
    requires
        ts.well_formed(),
    ensures
        agrees(r, pos, assignment_list(ts.lexemes(), pos as int), ts.lexemes().len()),
{
    let mut reader = Reader::begin(pos);
    reader.take_all(read_assignments(ts, reader.pos)?);
    Ok(reader.done(Rule::AssignmentList, pos))
}

/// Reads `SET` and a list of assignments.
fn read_set_clause(ts: &Tokens, pos: usize) -> (r: Read)
    requires
        ts.well_formed(),
    ensures
        agrees(r, pos, set_clause(ts.lexemes(), pos as int), ts.lexemes().len()),
{
    let mut reader = Reader::begin(pos);
    reader.take(read_token(ts, reader.pos, TokenKind::SetKeyword, Rule::SetKeyword)?);
    reader.take(read_assignment_list(ts, reader.pos)?);
    Ok(reader.done(Rule::SetClause, pos))
}

/// Reads an `UPDATE` statement.
fn read_update_statement(ts: &Tokens, pos: usize) -> (r: Read)
    requires
        ts.well_formed(),
    ensures
        agrees(r, pos, update_statement(ts.lexemes(), pos as int), ts.lexemes().len()),
{
    proof {
        reveal(update_statement);
    }
    let mut reader = Reader::begin(pos);
    reader.take(read_token(ts, reader.pos, TokenKind::UpdateKeyword, Rule::UpdateKeyword)?);
    reader.take(read_token(ts, reader.pos, TokenKind::Identifier, Rule::Identifier)?);
    reader.take(read_set_clause(ts, reader.pos)?);
    read_optional_where(ts, &mut reader)?;
    reader.pass(read_token(ts, reader.pos, TokenKind::Semicolon, Rule::Semicolon)?);
    Ok(reader.done(Rule::UpdateStatement, pos))
}

/// Reads a `DELETE` statement.
fn read_delete_statement(ts: &Tokens, pos: usize) -> (r: Read)
    requires
        ts.well_formed(),
    ensures
        agrees(r, pos, delete_statement(ts.lexemes(), pos as int), ts.lexemes().len()),
{
    proof {
        reveal(delete_statement);
    }
    let mut reader = Reader::begin(pos);
    reader.take(read_token(ts, reader.pos, TokenKind::DeleteKeyword, Rule::DeleteKeyword)?);
    reader.take(read_token(ts, reader.pos, TokenKind::FromKeyword, Rule::FromKeyword)?);
    reader.take(read_token(ts, reader.pos, TokenKind::Identifier, Rule::Identifier)?);
    read_optional_where(ts, &mut reader)?;
    reader.pass(read_token(ts, reader.pos, TokenKind::Semicolon, Rule::Semicolon)?);
    Ok(reader.done(Rule::DeleteStatement, pos))
}

/// Reads a statement.
fn read_statement(ts: &Tokens, pos: usize) -> (r: Read)
    requires
        ts.well_formed(),
    ensures
        agrees(r, pos, statement(ts.lexemes(), pos as int), ts.lexemes().len()),
{
    let inner = if ts.holds(pos, TokenKind::SelectKeyword) {
        read_select_statement(ts, pos)?
    } else if ts.holds(pos, TokenKind::InsertKeyword) {
        read_insert_statement(ts, pos)?
    } else if ts.holds(pos, TokenKind::UpdateKeyword) {
        read_update_statement(ts, pos)?
    } else if ts.holds(pos, TokenKind::DeleteKeyword) {
        read_delete_statement(ts, pos)?
    } else {
        return Err(unexpected(pos, Rule::Statement));
    };
    let mut reader = Reader::begin(pos);
    reader.take(inner);
    Ok(reader.done(Rule::Statement, pos))
}

/// The tree of `part`, where `part` ends at the end of the tokens.
fn read_whole(ts: &Tokens, part: (Pair, usize)) -> (r: Result<Pair, ParseError>)
    ensures
        match r {
            Ok(pair) => pair == part.0 && part.1 == ts.lexemes().len(),
            Err(error) => part.1 != ts.lexemes().len() && error@ == expected(
                part.1 as int,
                Rule::EndOfInput,
            ),
        },
{
    if part.1 == ts.len() {
        Ok(part.0)
    } else {
        Err(unexpected(part.1, Rule::EndOfInput))
    }
}

/// Reads all the tokens as one statement.
pub fn recognize_statement(ts: &Tokens) -> (r: Result<Pair, ParseError>)
    requires
        ts.well_formed(),
    ensures
        match r {
            Ok(pair) => statement_tree(ts.lexemes()) == Ok::<PairView, Failure>(pair@),
            Err(error) => statement_tree(ts.lexemes()) == Err::<PairView, Failure>(error@),
        },
{
    let part = read_statement(ts, 0)?;
    read_whole(ts, part)
}

/// Reads all the tokens as one expression.
pub fn recognize_expression(ts: &Tokens) -> (r: Result<Pair, ParseError>)
    requires
        ts.well_formed(),
    ensures
        match r {
            Ok(pair) => expression_tree(ts.lexemes()) == Ok::<PairView, Failure>(pair@),
            Err(error) => expression_tree(ts.lexemes()) == Err::<PairView, Failure>(error@),
        },
{
    let part = read_expression(ts, 0)?;
    read_whole(ts, part)
}

} // verus!

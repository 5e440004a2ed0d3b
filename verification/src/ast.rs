//! The syntax tree that a successful parse returns.

use vstd::prelude::*;

verus! {

/// A parsed statement.
#[derive(Debug, PartialEq)]
pub enum Statement {
    Select {
        table: String,
        where_clause: Option<Expression>,
        order_by: Option<OrderBy>,
        group_by: Option<GroupBy>,
        limit: Option<u64>,
    },
    Insert { table: String, values: Vec<String> },
    Update { table: String, set: Vec<(String, String)>, where_clause: Option<Expression> },
    Delete { table: String, where_clause: Option<Expression> },
}

/// An expression of a `WHERE` clause.
#[allow(inconsistent_fields)]
#[derive(Debug, PartialEq)]
pub enum Expression {
    Literal(Literal),
    Column(String),
    Binary { left: Box<Expression>, operator: BinaryOperator, right: Box<Expression> },
    Unary { operator: UnaryOperator, operand: Box<Expression> },
}

/// A literal value.
#[derive(Debug, PartialEq)]
pub enum Literal {
    /// The text between the quotes.
    String(String),
    Number(i64),
    /// A literal with a decimal point, kept as its digits: an integer part, a
    /// point and a fraction.
    Float(String),
    Boolean(bool),
    Null,
}

#[derive(Debug, PartialEq, Eq, Clone, Copy, Structural)]
pub enum BinaryOperator {
    Equal,
    NotEqual,
    LessThan,
    LessThanOrEqual,
    GreaterThan,
    GreaterThanOrEqual,
    And,
    Or,
    Add,
    Subtract,
    Multiply,
    Divide,
}

#[derive(Debug, PartialEq, Eq, Clone, Copy, Structural)]
pub enum UnaryOperator {
    Not,
    Minus,
}

#[derive(Debug, PartialEq)]
pub struct OrderBy {
    pub column: String,
    pub direction: OrderDirection,
}

#[derive(Debug, PartialEq, Eq, Clone, Copy, Structural)]
pub enum OrderDirection {
    Asc,
    Desc,
}

#[derive(Debug, PartialEq)]
pub struct GroupBy {
    pub columns: Vec<String>,
}

/// The mathematical form of a [`Literal`].
pub ghost enum LiteralView {
    String(Seq<char>),
    Number(i64),
    Float(Seq<char>),
    Boolean(bool),
    Null,
}

/// The mathematical form of an [`Expression`].
#[allow(inconsistent_fields)]
pub ghost enum ExpressionView {
    Literal(LiteralView),
    Column(Seq<char>),
    Binary { left: Box<ExpressionView>, operator: BinaryOperator, right: Box<ExpressionView> },
    Unary { operator: UnaryOperator, operand: Box<ExpressionView> },
}

/// The mathematical form of an [`OrderBy`].
pub ghost struct OrderByView {
    pub column: Seq<char>,
    pub direction: OrderDirection,
}

/// The mathematical form of a [`GroupBy`].
pub ghost struct GroupByView {
    pub columns: Seq<Seq<char>>,
}

/// The mathematical form of a [`Statement`].
pub ghost enum StatementView {
    Select {
        table: Seq<char>,
        where_clause: Option<ExpressionView>,
        order_by: Option<OrderByView>,
        group_by: Option<GroupByView>,
        limit: Option<u64>,
    },
    Insert { table: Seq<char>, values: Seq<Seq<char>> },
    Update {
        table: Seq<char>,
        set: Seq<(Seq<char>, Seq<char>)>,
        where_clause: Option<ExpressionView>,
    },
    Delete { table: Seq<char>, where_clause: Option<ExpressionView> },
}

impl View for Literal {
    type V = LiteralView;

    open spec fn view(&self) -> LiteralView {
        match self {
            Literal::String(s) => LiteralView::String(s@),
            Literal::Number(n) => LiteralView::Number(*n),
            Literal::Float(s) => LiteralView::Float(s@),
            Literal::Boolean(b) => LiteralView::Boolean(*b),
            Literal::Null => LiteralView::Null,
        }
    }
}

impl View for Expression {
    type V = ExpressionView;

    open spec fn view(&self) -> ExpressionView
        decreases self,
    {
        match self {
            Expression::Literal(l) => ExpressionView::Literal(l@),
            Expression::Column(c) => ExpressionView::Column(c@),
            Expression::Binary { left, operator, right } => ExpressionView::Binary {
                left: Box::new((**left).view()),
                operator: *operator,
                right: Box::new((**right).view()),
            },
            Expression::Unary { operator, operand } => ExpressionView::Unary {
                operator: *operator,
                operand: Box::new((**operand).view()),
            },
        }
    }
}

impl View for OrderBy {
    type V = OrderByView;

    open spec fn view(&self) -> OrderByView {
        OrderByView { column: self.column@, direction: self.direction }
    }
}

impl View for GroupBy {
    type V = GroupByView;

    open spec fn view(&self) -> GroupByView {
        GroupByView { columns: self.columns.deep_view() }
    }
}

/// The view of an optional expression.
pub open spec fn optional_view(e: Option<Expression>) -> Option<ExpressionView> {
    match e {
        Some(e) => Some(e@),
        None => None,
    }
}

impl View for Statement {
    type V = StatementView;

    open spec fn view(&self) -> StatementView {
        match self {
            Statement::Select { table, where_clause, order_by, group_by, limit } => {
                StatementView::Select {
                    table: table@,
                    where_clause: optional_view(*where_clause),
                    order_by: match order_by {
                        Some(o) => Some(o@),
                        None => None,
                    },
                    group_by: match group_by {
                        Some(g) => Some(g@),
                        None => None,
                    },
                    limit: *limit,
                }
            },
            Statement::Insert { table, values } => StatementView::Insert {
                table: table@,
                values: values.deep_view(),
            },
            Statement::Update { table, set, where_clause } => StatementView::Update {
                table: table@,
                set: set.deep_view(),
                where_clause: optional_view(*where_clause),
            },
            Statement::Delete { table, where_clause } => StatementView::Delete {
                table: table@,
                where_clause: optional_view(*where_clause),
            },
        }
    }
}

} // verus!

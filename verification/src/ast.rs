//! The data model of the filter language: operands, comparison kinds,
//! conditions, equations, connectors, filter trees, and the surrounding
//! query-description types.

use vstd::prelude::*;

verus! {

/// A numeric literal, kept exactly as its decimal digits: an optional minus
/// sign, the digits before the decimal point, and the digits after it.
/// Either digit string may be empty, but not both; `123`, `123.`, and `.123`
/// are all representable. The canonical text is given by [`Decimal::to_text`].
#[derive(Debug, Clone, PartialEq)]
pub struct Decimal {
    pub negative: bool,
    pub integral: String,
    pub fractional: String,
}

/// A function call operand: a name and its ordered arguments. Part of the
/// operand type for future composition; the current grammar never produces it.
#[derive(Debug, PartialEq)]
pub struct Function {
    pub function: String,
    pub params: Vec<Operand>,
}

/// A typed literal or column reference appearing on either side of a
/// comparison.
#[derive(Debug, PartialEq)]
pub enum Operand {
    Column(String),
    Function(Function),
    Number(Decimal),
    Boolean(bool),
    Value(String),
}

/// The logical joiner between two sequential conditions in a filter chain.
#[derive(Debug, Clone, Copy, PartialEq, Eq, Structural)]
pub enum Connector {
    AND,
    OR,
}

/// Sort direction of an ordering term.
#[derive(Debug, Clone, Copy, PartialEq, Eq, Structural)]
pub enum Direction {
    ASC,
    DESC,
}

/// Where nulls sort in an ordering term.
#[derive(Debug, Clone, Copy, PartialEq, Eq, Structural)]
pub enum NullsWhere {
    FIRST,
    LAST,
}

/// One ordering term: an operand with optional direction and null placement.
#[derive(Debug, PartialEq)]
pub struct Order {
    pub operand: Operand,
    pub direction: Option<Direction>,
    pub nulls_where: Option<NullsWhere>,
}

/// The closed set of comparison kinds an explicit condition can use.
#[derive(Debug, Clone, Copy, PartialEq, Eq, Structural)]
#[allow(non_camel_case_types)]
pub enum Equality {
    EQ,
    NEQ,
    LT,
    LTE,
    GT,
    GTE,
    IN,
    NOT_IN,
    IS,
    IS_NOT,
    LIKE,
    ILIKE,
    ST,
}

/// A single comparison between a column and an operand using an explicit
/// operator. `left` is always a `Column` operand.
#[derive(Debug, PartialEq)]
pub struct Condition {
    pub left: Operand,
    pub equality: Equality,
    pub right: Operand,
}

/// An implicit-equality assignment between a column and an operand, with no
/// operator keyword. `left` is always a `Column` operand.
#[derive(Debug, PartialEq)]
pub struct Equation {
    pub left: Operand,
    pub right: Operand,
}

/// Either a `Condition` or an `Equation`: the shape of one raw `key=value`
/// query segment before it is known whether an operator keyword is present.
#[derive(Debug, PartialEq)]
pub enum Param {
    Condition(Condition),
    Equation(Equation),
}

/// One condition plus its chained, connector-tagged siblings. The root node's
/// `connector` is `None`; every entry of `sub_filters` carries
/// `Some(connector)` stating its relation to the condition immediately before
/// it in the original left-to-right text. The chain is flat and
/// left-associative: `&` and `|` have equal precedence.
#[derive(Debug, PartialEq)]
pub struct Filter {
    pub condition: Condition,
    pub connector: Option<Connector>,
    pub sub_filters: Vec<Filter>,
}

/// A page-numbered result window.
#[derive(Debug, Clone, Copy, PartialEq, Eq, Structural, Default)]
pub struct Page {
    pub page: i64,
    pub page_size: i64,
}

/// A limit/offset result window.
#[derive(Debug, Clone, Copy, PartialEq, Default)]
pub struct Limit {
    pub limit: i64,
    pub offset: Option<i64>,
}

/// Either form of result window.
#[derive(Debug, Clone, Copy, PartialEq)]
pub enum Range {
    Page(Page),
    Limit(Limit),
}

/// The join kind of a join clause.
#[derive(Debug, Clone, Copy, PartialEq, Eq, Structural)]
pub enum JoinType {
    CROSS,
    INNER,
    OUTER,
    NATURAL,
}

/// The side modifier of a join clause.
#[derive(Debug, Clone, Copy, PartialEq, Eq, Structural)]
pub enum Modifier {
    LEFT,
    RIGHT,
    FULL,
}

/// One join clause of a query description.
#[derive(Debug, PartialEq)]
pub struct Join {
    pub modifier: Option<Modifier>,
    pub join_type: Option<JoinType>,
    pub table: Operand,
    pub column1: Vec<String>,
    pub column2: Vec<String>,
}

/// A whole query description as a downstream consumer assembles it from
/// parsed parts.
#[derive(Debug, PartialEq, Default)]
pub struct Query {
    pub from: Vec<Operand>,
    pub join: Vec<Join>,
    pub filters: Vec<Filter>,
    pub group_by: Vec<Operand>,
    pub having: Vec<Filter>,
    pub order_by: Vec<Order>,
    pub range: Option<Range>,
    pub equations: Vec<Equation>,
}

/// What a parse failure complains about.
#[derive(Debug, Clone, Copy, PartialEq, Eq, Structural)]
pub enum ErrorKind {
    /// No operand scanner matched at the failing position.
    MalformedOperand,
    /// The operator keyword is not in the comparison table.
    UnknownOperator,
    /// An expected token (an identifier, `=`, `.`, `&` or `|`) is missing.
    UnexpectedCharacter,
    /// An opening parenthesis has no matching closing one.
    UnbalancedGroup,
    /// The input ended in the middle of a construct.
    IncompleteInput,
}

/// A typed parse failure: what was wrong and at which character offset
/// (counted in characters from the start of the input) it was found.
#[derive(Debug, Clone, Copy, PartialEq, Eq, Structural)]
pub struct ParseError {
    pub kind: ErrorKind,
    pub offset: usize,
}

} // verus!

//! The mathematical model of the data types: for each executable AST type a
//! ghost mirror over `Seq<char>`, reached through `View`, together with the
//! well-formedness predicates the parsers guarantee.

use vstd::prelude::*;

use crate::ast::{
    Condition, Connector, Decimal, Equality, Equation, Filter, Function, Operand, Param,
};

verus! {

/// Mirror of [`Decimal`]: sign and the two digit strings.
#[verifier::ext_equal]
pub struct DecimalV {
    pub negative: bool,
    pub integral: Seq<char>,
    pub fractional: Seq<char>,
}

/// Mirror of [`Function`].
#[verifier::ext_equal]
pub struct FunctionV {
    pub name: Seq<char>,
    pub args: Seq<OperandV>,
}

/// Mirror of [`Operand`].
#[verifier::ext_equal]
pub enum OperandV {
    Column(Seq<char>),
    Function(FunctionV),
    Number(DecimalV),
    Boolean(bool),
    Value(Seq<char>),
}

/// Mirror of [`Condition`].
#[verifier::ext_equal]
pub struct ConditionV {
    pub left: OperandV,
    pub equality: Equality,
    pub right: OperandV,
}

/// Mirror of [`Equation`].
#[verifier::ext_equal]
pub struct EquationV {
    pub left: OperandV,
    pub right: OperandV,
}

/// Mirror of [`Param`].
#[verifier::ext_equal]
pub enum ParamV {
    Condition(ConditionV),
    Equation(EquationV),
}

/// Mirror of [`Filter`].
#[verifier::ext_equal]
pub struct FilterV {
    pub condition: ConditionV,
    pub connector: Option<Connector>,
    pub sub_filters: Seq<FilterV>,
}

impl View for Decimal {
    type V = DecimalV;

    open spec fn view(&self) -> DecimalV {
        DecimalV {
            negative: self.negative,
            integral: self.integral@,
            fractional: self.fractional@,
        }
    }
}

/// The view of one operand.
pub open spec fn operand_view(o: Operand) -> OperandV
    decreases o,
{
    match o {
        Operand::Column(name) => OperandV::Column(name@),
        Operand::Function(f) => OperandV::Function(
            FunctionV { name: f.function@, args: operands_view(f.params@) },
        ),
        Operand::Number(d) => OperandV::Number(d@),
        Operand::Boolean(b) => OperandV::Boolean(b),
        Operand::Value(v) => OperandV::Value(v@),
    }
}

/// The views of a sequence of operands, in order.
pub open spec fn operands_view(os: Seq<Operand>) -> Seq<OperandV>
    decreases os,
{
    if os.len() == 0 {
        Seq::empty()
    } else {
        seq![operand_view(os[0])] + operands_view(os.drop_first())
    }
}

impl View for Operand {
    type V = OperandV;

    open spec fn view(&self) -> OperandV {
        operand_view(*self)
    }
}

impl View for Condition {
    type V = ConditionV;

    open spec fn view(&self) -> ConditionV {
        ConditionV { left: self.left@, equality: self.equality, right: self.right@ }
    }
}

impl View for Equation {
    type V = EquationV;

    open spec fn view(&self) -> EquationV {
        EquationV { left: self.left@, right: self.right@ }
    }
}

impl View for Param {
    type V = ParamV;

    open spec fn view(&self) -> ParamV {
        match self {
            Param::Condition(c) => ParamV::Condition(c@),
            Param::Equation(e) => ParamV::Equation(e@),
        }
    }
}

/// The view of one filter node.
pub open spec fn filter_view(f: Filter) -> FilterV
    decreases f,
{
    FilterV {
        condition: f.condition@,
        connector: f.connector,
        sub_filters: filters_view(f.sub_filters@),
    }
}

/// The views of a sequence of filter nodes, in order.
pub open spec fn filters_view(fs: Seq<Filter>) -> Seq<FilterV>
    decreases fs,
{
    if fs.len() == 0 {
        Seq::empty()
    } else {
        seq![filter_view(fs[0])] + filters_view(fs.drop_first())
    }
}

impl View for Filter {
    type V = FilterV;

    open spec fn view(&self) -> FilterV {
        filter_view(*self)
    }
}

/// `filters_view` maps the sequence element by element.
pub proof fn lemma_filters_view(fs: Seq<Filter>)
    ensures
        filters_view(fs).len() == fs.len(),
        forall|i: int| 0 <= i < fs.len() ==> filters_view(fs)[i] == filter_view(fs[i]),
    decreases fs.len(),
{
    if fs.len() > 0 {
        lemma_filters_view(fs.drop_first());
    }
}

/// A character is a decimal digit.
pub open spec fn is_digit(c: char) -> bool {
    '0' <= c && c <= '9'
}

/// A character may appear in a column identifier: ASCII alphanumeric or `_`.
pub open spec fn is_ident_char(c: char) -> bool {
    ('a' <= c && c <= 'z') || ('A' <= c && c <= 'Z') || is_digit(c) || c == '_'
}

/// A digit string: every character is a decimal digit.
pub open spec fn all_digits(s: Seq<char>) -> bool {
    forall|i: int| 0 <= i < s.len() ==> is_digit(#[trigger] s[i])
}

/// A well-formed decimal literal: only digits on both sides of the point,
/// and at least one digit overall.
pub open spec fn decimal_wf(d: DecimalV) -> bool {
    all_digits(d.integral) && all_digits(d.fractional) && d.integral.len() + d.fractional.len()
        >= 1
}

/// A well-formed condition: the left side is a column reference.
pub open spec fn condition_wf(c: ConditionV) -> bool {
    c.left is Column
}

/// A well-formed equation: the left side is a column reference.
pub open spec fn equation_wf(e: EquationV) -> bool {
    e.left is Column
}

/// A well-formed filter node below the root: it carries the connector that
/// relates it to its left neighbour, and its descendants are well formed.
pub open spec fn sub_filter_wf(f: FilterV) -> bool
    decreases f,
{
    &&& condition_wf(f.condition)
    &&& f.connector is Some
    &&& forall|i: int|
        0 <= i < f.sub_filters.len() ==> sub_filter_wf(#[trigger] f.sub_filters[i])
}

/// A well-formed filter tree as the parsers return it: the root relates to no
/// predecessor, every node below the root carries its connector, and every
/// condition's left side is a column.
pub open spec fn filter_wf(f: FilterV) -> bool {
    &&& condition_wf(f.condition)
    &&& f.connector is None
    &&& forall|i: int|
        0 <= i < f.sub_filters.len() ==> sub_filter_wf(#[trigger] f.sub_filters[i])
}

/// The canonical text of a decimal literal: the sign if negative, the
/// integral digits, and, when there are fractional digits, a point and the
/// fractional digits. `123`, `-0.5`, and `.25` are canonical texts.
pub open spec fn decimal_text(d: DecimalV) -> Seq<char> {
    let sign: Seq<char> = if d.negative {
        seq!['-']
    } else {
        Seq::empty()
    };
    let frac: Seq<char> = if d.fractional.len() == 0 {
        Seq::empty()
    } else {
        seq!['.'] + d.fractional
    };
    sign + d.integral + frac
}

/// The result of a parse attempt in the model: the parsed value and the
/// position just past the consumed text, or the error the attempt reports.
#[verifier::ext_equal]
pub enum PRes<T> {
    Parsed { v: T, end: int },
    Failed { e: crate::ast::ParseError },
}

} // verus!

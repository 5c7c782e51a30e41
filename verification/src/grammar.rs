//! The condition-level grammar: the operator keyword table, the connector
//! scanner, the typed-operand resolver, and the condition / equation / param
//! productions, each specified against a spec-level twin.

use vstd::prelude::*;

use crate::ast::{
    Condition, Connector, Equality, Equation, ErrorKind, Operand, Param, ParseError,
};
use crate::model::{
    condition_wf, equation_wf, ConditionV, EquationV, OperandV, ParamV, PRes,
};
use crate::scan::{
    boolean_at, column_at, float_at, spec_boolean, spec_column, spec_float, spec_value, tag_at,
    token_error, value_at,
};

verus! {

/// The characters of the operator keyword `eq`.
pub open spec fn kw_eq() -> Seq<char> {
    seq!['e', 'q']
}

/// The characters of the operator keyword `neq`.
pub open spec fn kw_neq() -> Seq<char> {
    seq!['n', 'e', 'q']
}

/// The characters of the operator keyword `lte`.
pub open spec fn kw_lte() -> Seq<char> {
    seq!['l', 't', 'e']
}

/// The characters of the operator keyword `lt`.
pub open spec fn kw_lt() -> Seq<char> {
    seq!['l', 't']
}

/// The characters of the operator keyword `gte`.
pub open spec fn kw_gte() -> Seq<char> {
    seq!['g', 't', 'e']
}

/// The characters of the operator keyword `gt`.
pub open spec fn kw_gt() -> Seq<char> {
    seq!['g', 't']
}

/// The characters of the operator keyword `not_in`.
pub open spec fn kw_not_in() -> Seq<char> {
    seq!['n', 'o', 't', '_', 'i', 'n']
}

/// The characters of the operator keyword `in`.
pub open spec fn kw_in() -> Seq<char> {
    seq!['i', 'n']
}

/// The characters of the operator keyword `is_not`.
pub open spec fn kw_is_not() -> Seq<char> {
    seq!['i', 's', '_', 'n', 'o', 't']
}

/// The characters of the operator keyword `is`.
pub open spec fn kw_is() -> Seq<char> {
    seq!['i', 's']
}

/// The characters of the operator keyword `ilike`.
pub open spec fn kw_ilike() -> Seq<char> {
    seq!['i', 'l', 'i', 'k', 'e']
}

/// The characters of the operator keyword `like`.
pub open spec fn kw_like() -> Seq<char> {
    seq!['l', 'i', 'k', 'e']
}

/// The characters of the operator keyword `st`.
pub open spec fn kw_st() -> Seq<char> {
    seq!['s', 't']
}

/// The string literals of the keyword table denote the keyword character
/// sequences the specification uses.
pub proof fn kw_literals()
    ensures
        "eq"@ == kw_eq(),
        "neq"@ == kw_neq(),
        "lte"@ == kw_lte(),
        "lt"@ == kw_lt(),
        "gte"@ == kw_gte(),
        "gt"@ == kw_gt(),
        "not_in"@ == kw_not_in(),
        "in"@ == kw_in(),
        "is_not"@ == kw_is_not(),
        "is"@ == kw_is(),
        "ilike"@ == kw_ilike(),
        "like"@ == kw_like(),
        "st"@ == kw_st(),
{
    reveal_strlit("eq");
    reveal_strlit("neq");
    reveal_strlit("lte");
    reveal_strlit("lt");
    reveal_strlit("gte");
    reveal_strlit("gt");
    reveal_strlit("not_in");
    reveal_strlit("in");
    reveal_strlit("is_not");
    reveal_strlit("is");
    reveal_strlit("ilike");
    reveal_strlit("like");
    reveal_strlit("st");
    assert("eq"@ =~= kw_eq());
    assert("neq"@ =~= kw_neq());
    assert("lte"@ =~= kw_lte());
    assert("lt"@ =~= kw_lt());
    assert("gte"@ =~= kw_gte());
    assert("gt"@ =~= kw_gt());
    assert("not_in"@ =~= kw_not_in());
    assert("in"@ =~= kw_in());
    assert("is_not"@ =~= kw_is_not());
    assert("is"@ =~= kw_is());
    assert("ilike"@ =~= kw_ilike());
    assert("like"@ =~= kw_like());
    assert("st"@ =~= kw_st());
}

/// The error a failed operator-keyword match reports.
pub open spec fn operator_error(s: Seq<char>, pos: int) -> ParseError {
    ParseError {
        kind: if pos == s.len() {
            ErrorKind::IncompleteInput
        } else {
            ErrorKind::UnknownOperator
        },
        offset: pos as usize,
    }
}

/// The operator keyword table at `pos`: the fixed list of 13 comparison
/// keywords, tried in an order that puts a longer keyword before every
/// shorter one sharing its prefix (`lte` before `lt`, `gte` before `gt`,
/// `is_not` before `is`), so that no keyword is ever cut short.
pub open spec fn spec_equality(s: Seq<char>, pos: int) -> PRes<Equality> {
    if tag_at(s, pos, kw_eq()) {
        PRes::Parsed { v: Equality::EQ, end: pos + 2 }
    } else if tag_at(s, pos, kw_neq()) {
        PRes::Parsed { v: Equality::NEQ, end: pos + 3 }
    } else if tag_at(s, pos, kw_lte()) {
        PRes::Parsed { v: Equality::LTE, end: pos + 3 }
    } else if tag_at(s, pos, kw_lt()) {
        PRes::Parsed { v: Equality::LT, end: pos + 2 }
    } else if tag_at(s, pos, kw_gte()) {
        PRes::Parsed { v: Equality::GTE, end: pos + 3 }
    } else if tag_at(s, pos, kw_gt()) {
        PRes::Parsed { v: Equality::GT, end: pos + 2 }
    } else if tag_at(s, pos, kw_not_in()) {
        PRes::Parsed { v: Equality::NOT_IN, end: pos + 6 }
    } else if tag_at(s, pos, kw_in()) {
        PRes::Parsed { v: Equality::IN, end: pos + 2 }
    } else if tag_at(s, pos, kw_is_not()) {
        PRes::Parsed { v: Equality::IS_NOT, end: pos + 6 }
    } else if tag_at(s, pos, kw_is()) {
        PRes::Parsed { v: Equality::IS, end: pos + 2 }
    } else if tag_at(s, pos, kw_ilike()) {
        PRes::Parsed { v: Equality::ILIKE, end: pos + 5 }
    } else if tag_at(s, pos, kw_like()) {
        PRes::Parsed { v: Equality::LIKE, end: pos + 4 }
    } else if tag_at(s, pos, kw_st()) {
        PRes::Parsed { v: Equality::ST, end: pos + 2 }
    } else {
        PRes::Failed { e: operator_error(s, pos) }
    }
}

/// A connector at `pos`: `&` is AND, `|` is OR.
pub open spec fn spec_connector(s: Seq<char>, pos: int) -> PRes<Connector> {
    if 0 <= pos < s.len() && s[pos] == '&' {
        PRes::Parsed { v: Connector::AND, end: pos + 1 }
    } else if 0 <= pos < s.len() && s[pos] == '|' {
        PRes::Parsed { v: Connector::OR, end: pos + 1 }
    } else {
        PRes::Failed { e: token_error(s, pos) }
    }
}

/// The position sits on a structural delimiter: the end of the input, a
/// closing parenthesis, or a connector. A numeric or boolean literal counts
/// as an operand only when it runs up to such a delimiter; otherwise the
/// resolver falls through to the free-text alternative.
pub open spec fn at_delim(s: Seq<char>, pos: int) -> bool {
    pos == s.len() || s[pos] == ')' || s[pos] == '&' || s[pos] == '|'
}

/// The operand resolver once the numeric alternative is ruled out.
pub open spec fn spec_operand_after_float(s: Seq<char>, pos: int) -> PRes<OperandV> {
    match spec_boolean(s, pos) {
        PRes::Parsed { v, end } => if at_delim(s, end) {
            PRes::Parsed { v: OperandV::Boolean(v), end }
        } else {
            spec_operand_fallback(s, pos)
        },
        PRes::Failed { e } => spec_operand_fallback(s, pos),
    }
}

/// The operand resolver's last alternative: a free-text value.
pub open spec fn spec_operand_fallback(s: Seq<char>, pos: int) -> PRes<OperandV> {
    match spec_value(s, pos) {
        PRes::Parsed { v, end } => PRes::Parsed { v: OperandV::Value(v), end },
        PRes::Failed { e } => PRes::Failed { e },
    }
}

/// The typed-operand resolver at `pos`: a signed number, else a boolean
/// keyword, else free text, in that order. The numeric and boolean
/// alternatives count only when they consume up to the next structural
/// delimiter; a partial match falls through to free text.
pub open spec fn spec_operand(s: Seq<char>, pos: int) -> PRes<OperandV> {
    match spec_float(s, pos) {
        PRes::Parsed { v, end } => if at_delim(s, end) {
            PRes::Parsed { v: OperandV::Number(v), end }
        } else {
            spec_operand_after_float(s, pos)
        },
        PRes::Failed { e } => spec_operand_after_float(s, pos),
    }
}

/// A condition at `pos`: column, `=`, operator keyword, `.`, operand.
pub open spec fn spec_condition(s: Seq<char>, pos: int) -> PRes<ConditionV> {
    match spec_column(s, pos) {
        PRes::Failed { e } => PRes::Failed { e },
        PRes::Parsed { v: col, end: p1 } => if p1 < s.len() && s[p1] == '=' {
            match spec_equality(s, p1 + 1) {
                PRes::Failed { e } => PRes::Failed { e },
                PRes::Parsed { v: eq, end: p2 } => if p2 < s.len() && s[p2] == '.' {
                    match spec_operand(s, p2 + 1) {
                        PRes::Failed { e } => PRes::Failed { e },
                        PRes::Parsed { v: op, end: p3 } => PRes::Parsed {
                            v: ConditionV {
                                left: OperandV::Column(col),
                                equality: eq,
                                right: op,
                            },
                            end: p3,
                        },
                    }
                } else {
                    PRes::Failed { e: token_error(s, p2) }
                },
            }
        } else {
            PRes::Failed { e: token_error(s, p1) }
        },
    }
}

/// A condition at `pos`, possibly wrapped in redundant parentheses, each
/// pair stripped recursively. The bare condition is tried first; a pending
/// `(` whose matching `)` is missing reports an unbalanced group.
pub open spec fn spec_condition_expr(s: Seq<char>, pos: int) -> PRes<ConditionV>
    decreases s.len() - pos,
{
    match spec_condition(s, pos) {
        PRes::Parsed { v, end } => PRes::Parsed { v, end },
        PRes::Failed { e } => if 0 <= pos < s.len() && s[pos] == '(' {
            match spec_condition_expr(s, pos + 1) {
                PRes::Parsed { v, end } => if end < s.len() && s[end] == ')' {
                    PRes::Parsed { v, end: end + 1 }
                } else {
                    PRes::Failed {
                        e: ParseError { kind: ErrorKind::UnbalancedGroup, offset: end as usize },
                    }
                },
                PRes::Failed { e: e2 } => PRes::Failed { e: e2 },
            }
        } else {
            PRes::Failed { e }
        },
    }
}

/// An equation at `pos`: column, `=`, operand, with no operator keyword.
pub open spec fn spec_equation(s: Seq<char>, pos: int) -> PRes<EquationV> {
    match spec_column(s, pos) {
        PRes::Failed { e } => PRes::Failed { e },
        PRes::Parsed { v: col, end: p1 } => if p1 < s.len() && s[p1] == '=' {
            match spec_operand(s, p1 + 1) {
                PRes::Failed { e } => PRes::Failed { e },
                PRes::Parsed { v: op, end: p2 } => PRes::Parsed {
                    v: EquationV { left: OperandV::Column(col), right: op },
                    end: p2,
                },
            }
        } else {
            PRes::Failed { e: token_error(s, p1) }
        },
    }
}

/// A param at `pos`: a condition if one matches, else an equation. The
/// condition is tried first so that an operator-qualified segment is never
/// swallowed by the looser equation shape; if both fail, the condition's
/// error is reported.
pub open spec fn spec_param(s: Seq<char>, pos: int) -> PRes<ParamV> {
    match spec_condition(s, pos) {
        PRes::Parsed { v, end } => PRes::Parsed { v: ParamV::Condition(v), end },
        PRes::Failed { e } => match spec_equation(s, pos) {
            PRes::Parsed { v, end } => PRes::Parsed { v: ParamV::Equation(v), end },
            PRes::Failed { e: e2 } => PRes::Failed { e },
        },
    }
}

/// The params after the first: as long as a `&` follows and a param follows
/// it, both are consumed; the first position where that fails is the end.
pub open spec fn spec_params_tail(s: Seq<char>, pos: int) -> (Seq<ParamV>, int)
    decreases s.len() - pos,
{
    if 0 <= pos < s.len() && s[pos] == '&' {
        match spec_param(s, pos + 1) {
            PRes::Parsed { v, end } => if pos + 1 < end <= s.len() {
                let rest = spec_params_tail(s, end);
                (seq![v] + rest.0, rest.1)
            } else {
                (Seq::empty(), pos)
            },
            PRes::Failed { e } => (Seq::empty(), pos),
        }
    } else {
        (Seq::empty(), pos)
    }
}

/// A `&`-separated list of params at `pos`: one param, then zero or more
/// `&`-prefixed params.
pub open spec fn spec_params(s: Seq<char>, pos: int) -> PRes<Seq<ParamV>> {
    match spec_param(s, pos) {
        PRes::Failed { e } => PRes::Failed { e },
        PRes::Parsed { v, end } => {
            let rest = spec_params_tail(s, end);
            PRes::Parsed { v: seq![v] + rest.0, end: rest.1 }
        },
    }
}

/// Match the characters of `t` at `pos`, returning the position just past
/// them.
fn tag_str(s: &str, n: usize, pos: usize, t: &str) -> (r: Option<usize>)
    requires
        n == s@.len(),
        pos <= n,
    ensures
        match r {
            Some(end) => tag_at(s@, pos as int, t@) && end == pos + t@.len() && end <= n,
            None => !tag_at(s@, pos as int, t@),
        },
{
    let tn = t.unicode_len();
    if tn > n - pos {
        return None;
    }
    let mut k: usize = 0;
    while k < tn
        invariant
            n == s@.len(),
            tn == t@.len(),
            pos + tn <= n,
            k <= tn,
            forall|j: int| 0 <= j < k ==> s@[pos + j] == #[trigger] t@[j],
        decreases tn - k,
    {
        if s.get_char(pos + k) != t.get_char(k) {
            return None;
        }
        k = k + 1;
    }
    Some(pos + tn)
}

/// Parse an operator keyword at `pos`.
pub(crate) fn equality_at(s: &str, n: usize, pos: usize) -> (r: Result<
    (Equality, usize),
    ParseError,
>)
    requires
        n == s@.len(),
        pos <= n,
    ensures
        match r {
            Ok((eq, end)) => {
                &&& spec_equality(s@, pos as int) == (PRes::Parsed { v: eq, end: end as int })
                &&& pos < end <= n
            },
            Err(e) => spec_equality(s@, pos as int) == (PRes::Failed::<Equality> { e }),
        },
{
    proof {
        kw_literals();
    }
    if let Some(e) = tag_str(s, n, pos, "eq") {
        return Ok((Equality::EQ, e));
    }
    if let Some(e) = tag_str(s, n, pos, "neq") {
        return Ok((Equality::NEQ, e));
    }
    if let Some(e) = tag_str(s, n, pos, "lte") {
        return Ok((Equality::LTE, e));
    }
    if let Some(e) = tag_str(s, n, pos, "lt") {
        return Ok((Equality::LT, e));
    }
    if let Some(e) = tag_str(s, n, pos, "gte") {
        return Ok((Equality::GTE, e));
    }
    if let Some(e) = tag_str(s, n, pos, "gt") {
        return Ok((Equality::GT, e));
    }
    if let Some(e) = tag_str(s, n, pos, "not_in") {
        return Ok((Equality::NOT_IN, e));
    }
    if let Some(e) = tag_str(s, n, pos, "in") {
        return Ok((Equality::IN, e));
    }
    if let Some(e) = tag_str(s, n, pos, "is_not") {
        return Ok((Equality::IS_NOT, e));
    }
    if let Some(e) = tag_str(s, n, pos, "is") {
        return Ok((Equality::IS, e));
    }
    if let Some(e) = tag_str(s, n, pos, "ilike") {
        return Ok((Equality::ILIKE, e));
    }
    if let Some(e) = tag_str(s, n, pos, "like") {
        return Ok((Equality::LIKE, e));
    }
    if let Some(e) = tag_str(s, n, pos, "st") {
        return Ok((Equality::ST, e));
    }
    Err(
        ParseError {
            kind: if pos == n {
                ErrorKind::IncompleteInput
            } else {
                ErrorKind::UnknownOperator
            },
            offset: pos,
        },
    )
}

/// Parse a connector at `pos`.
pub(crate) fn connector_at(s: &str, n: usize, pos: usize) -> (r: Result<
    (Connector, usize),
    ParseError,
>)
    requires
        n == s@.len(),
        pos <= n,
    ensures
        match r {
            Ok((c, end)) => {
                &&& spec_connector(s@, pos as int) == (PRes::Parsed { v: c, end: end as int })
                &&& pos < end <= n
            },
            Err(e) => spec_connector(s@, pos as int) == (PRes::Failed::<Connector> { e }),
        },
{
    if pos < n {
        let c = s.get_char(pos);
        if c == '&' {
            return Ok((Connector::AND, pos + 1));
        }
        if c == '|' {
            return Ok((Connector::OR, pos + 1));
        }
    }
    Err(
        ParseError {
            kind: if pos == n {
                ErrorKind::IncompleteInput
            } else {
                ErrorKind::UnexpectedCharacter
            },
            offset: pos,
        },
    )
}

/// The position sits on a structural delimiter.
fn at_delim_exec(s: &str, n: usize, pos: usize) -> (r: bool)
    requires
        n == s@.len(),
        pos <= n,
    ensures
        r == at_delim(s@, pos as int),
{
    if pos == n {
        return true;
    }
    let c = s.get_char(pos);
    c == ')' || c == '&' || c == '|'
}

/// Parse an operand at `pos` with the typed resolver.
pub(crate) fn operand_at(s: &str, n: usize, pos: usize) -> (r: Result<(Operand, usize), ParseError>)
    requires
        n == s@.len(),
        pos <= n,
    ensures
        match r {
            Ok((op, end)) => {
                &&& spec_operand(s@, pos as int) == (PRes::Parsed { v: op@, end: end as int })
                &&& pos < end <= n
            },
            Err(e) => spec_operand(s@, pos as int) == (PRes::Failed::<OperandV> { e }),
        },
{
    match float_at(s, n, pos) {
        Ok((d, end)) => {
            if at_delim_exec(s, n, end) {
                return Ok((Operand::Number(d), end));
            }
        },
        Err(_) => {},
    }
    match boolean_at(s, n, pos) {
        Ok((b, end)) => {
            if at_delim_exec(s, n, end) {
                return Ok((Operand::Boolean(b), end));
            }
        },
        Err(_) => {},
    }
    match value_at(s, n, pos) {
        Ok((text, end)) => Ok((Operand::Value(text), end)),
        Err(e) => Err(e),
    }
}

/// Parse a condition at `pos`.
pub(crate) fn condition_at(s: &str, n: usize, pos: usize) -> (r: Result<
    (Condition, usize),
    ParseError,
>)
    requires
        n == s@.len(),
        pos <= n,
    ensures
        match r {
            Ok((c, end)) => {
                &&& spec_condition(s@, pos as int) == (PRes::Parsed { v: c@, end: end as int })
                &&& condition_wf(c@)
                &&& pos < end <= n
            },
            Err(e) => spec_condition(s@, pos as int) == (PRes::Failed::<ConditionV> { e }),
        },
{
    let (col, p1) = match column_at(s, n, pos) {
        Ok(x) => x,
        Err(e) => {
            return Err(e);
        },
    };
    if !(p1 < n && s.get_char(p1) == '=') {
        return Err(
            ParseError {
                kind: if p1 == n {
                    ErrorKind::IncompleteInput
                } else {
                    ErrorKind::UnexpectedCharacter
                },
                offset: p1,
            },
        );
    }
    let (eq, p2) = match equality_at(s, n, p1 + 1) {
        Ok(x) => x,
        Err(e) => {
            return Err(e);
        },
    };
    if !(p2 < n && s.get_char(p2) == '.') {
        return Err(
            ParseError {
                kind: if p2 == n {
                    ErrorKind::IncompleteInput
                } else {
                    ErrorKind::UnexpectedCharacter
                },
                offset: p2,
            },
        );
    }
    let (op, p3) = match operand_at(s, n, p2 + 1) {
        Ok(x) => x,
        Err(e) => {
            return Err(e);
        },
    };
    Ok((Condition { left: Operand::Column(col), equality: eq, right: op }, p3))
}

/// Parse a condition at `pos`, stripping redundant enclosing parentheses.
pub(crate) fn condition_expr_at(s: &str, n: usize, pos: usize) -> (r: Result<
    (Condition, usize),
    ParseError,
>)
    requires
        n == s@.len(),
        pos <= n,
    ensures
        match r {
            Ok((c, end)) => {
                &&& spec_condition_expr(s@, pos as int) == (PRes::Parsed {
                    v: c@,
                    end: end as int,
                })
                &&& condition_wf(c@)
                &&& pos < end <= n
            },
            Err(e) => spec_condition_expr(s@, pos as int) == (PRes::Failed::<ConditionV> { e }),
        },
    decreases n - pos,
{
    match condition_at(s, n, pos) {
        Ok((c, end)) => Ok((c, end)),
        Err(e) => {
            if pos < n && s.get_char(pos) == '(' {
                match condition_expr_at(s, n, pos + 1) {
                    Ok((c, end)) => {
                        if end < n && s.get_char(end) == ')' {
                            Ok((c, end + 1))
                        } else {
                            Err(ParseError { kind: ErrorKind::UnbalancedGroup, offset: end })
                        }
                    },
                    Err(e2) => Err(e2),
                }
            } else {
                Err(e)
            }
        },
    }
}

/// Parse an equation at `pos`.
pub(crate) fn equation_at(s: &str, n: usize, pos: usize) -> (r: Result<
    (Equation, usize),
    ParseError,
>)
    requires
        n == s@.len(),
        pos <= n,
    ensures
        match r {
            Ok((eqn, end)) => {
                &&& spec_equation(s@, pos as int) == (PRes::Parsed { v: eqn@, end: end as int })
                &&& equation_wf(eqn@)
                &&& pos < end <= n
            },
            Err(e) => spec_equation(s@, pos as int) == (PRes::Failed::<EquationV> { e }),
        },
{
    let (col, p1) = match column_at(s, n, pos) {
        Ok(x) => x,
        Err(e) => {
            return Err(e);
        },
    };
    if !(p1 < n && s.get_char(p1) == '=') {
        return Err(
            ParseError {
                kind: if p1 == n {
                    ErrorKind::IncompleteInput
                } else {
                    ErrorKind::UnexpectedCharacter
                },
                offset: p1,
            },
        );
    }
    let (op, p2) = match operand_at(s, n, p1 + 1) {
        Ok(x) => x,
        Err(e) => {
            return Err(e);
        },
    };
    Ok((Equation { left: Operand::Column(col), right: op }, p2))
}

/// Parse a param at `pos`: a condition if possible, else an equation.
pub(crate) fn param_at(s: &str, n: usize, pos: usize) -> (r: Result<(Param, usize), ParseError>)
    requires
        n == s@.len(),
        pos <= n,
    ensures
        match r {
            Ok((p, end)) => {
                &&& spec_param(s@, pos as int) == (PRes::Parsed { v: p@, end: end as int })
                &&& pos < end <= n
            },
            Err(e) => spec_param(s@, pos as int) == (PRes::Failed::<ParamV> { e }),
        },
{
    match condition_at(s, n, pos) {
        Ok((c, end)) => Ok((Param::Condition(c), end)),
        Err(e) => match equation_at(s, n, pos) {
            Ok((eqn, end)) => Ok((Param::Equation(eqn), end)),
            Err(_) => Err(e),
        },
    }
}

/// The views of a sequence of parsed params.
pub open spec fn param_views(ps: Seq<Param>) -> Seq<ParamV> {
    Seq::new(ps.len(), |i: int| ps[i]@)
}

/// Parse a `&`-separated list of params at `pos`.
pub(crate) fn params_at(s: &str, n: usize, pos: usize) -> (r: Result<
    (Vec<Param>, usize),
    ParseError,
>)
    requires
        n == s@.len(),
        pos <= n,
    ensures
        match r {
            Ok((ps, end)) => {
                &&& spec_params(s@, pos as int) == (PRes::Parsed {
                    v: param_views(ps@),
                    end: end as int,
                })
                &&& pos < end <= n
            },
            Err(e) => spec_params(s@, pos as int) == (PRes::Failed::<Seq<ParamV>> { e }),
        },
{
    let (first, first_end) = match param_at(s, n, pos) {
        Ok(x) => x,
        Err(e) => {
            return Err(e);
        },
    };
    let mut cur: usize = first_end;
    let mut ps: Vec<Param> = Vec::new();
    ps.push(first);
    let mut stop = false;
    while !stop
        invariant
            n == s@.len(),
            pos < cur <= n,
            spec_params(s@, pos as int) == (PRes::Parsed {
                v: param_views(ps@) + spec_params_tail(s@, cur as int).0,
                end: spec_params_tail(s@, cur as int).1,
            }),
            stop ==> spec_params_tail(s@, cur as int) == (Seq::<ParamV>::empty(), cur as int),
        decreases
                n - cur,
                if stop {
                    0int
                } else {
                    1int
                },
    {
        match amp_param_at(s, n, cur) {
            Some((p, e2)) => {
                proof {
                    assert(param_views(ps@.push(p)) =~= param_views(ps@) + seq![p@]);
                    assert((param_views(ps@) + seq![p@]) + spec_params_tail(s@, e2 as int).0
                        =~= param_views(ps@) + (seq![p@] + spec_params_tail(s@, e2 as int).0));
                }
                ps.push(p);
                cur = e2;
            },
            None => {
                stop = true;
            },
        }
    }
    proof {
        assert(param_views(ps@) + Seq::<ParamV>::empty() =~= param_views(ps@));
    }
    Ok((ps, cur))
}

/// Match a `&`-prefixed param at `pos`: the step of the params list.
fn amp_param_at(s: &str, n: usize, pos: usize) -> (r: Option<(Param, usize)>)
    requires
        n == s@.len(),
        pos <= n,
    ensures
        match r {
            Some((p, end)) => {
                &&& spec_params_tail(s@, pos as int).0 == seq![p@] + spec_params_tail(
                    s@,
                    end as int,
                ).0
                &&& spec_params_tail(s@, pos as int).1 == spec_params_tail(s@, end as int).1
                &&& pos + 1 < end <= n
            },
            None => spec_params_tail(s@, pos as int) == (Seq::<ParamV>::empty(), pos as int),
        },
{
    if pos < n && s.get_char(pos) == '&' {
        match param_at(s, n, pos + 1) {
            Ok((p, end)) => Some((p, end)),
            Err(_) => None,
        }
    } else {
        None
    }
}

/// Scan an operator keyword at the start of the input and give its
/// comparison kind. Keywords sharing a prefix are tried longest first, so
/// `is_not` is never cut short to `is`.
pub fn equality(s: &str) -> (r: Result<(Equality, usize), ParseError>)
    ensures
        match r {
            Ok((eq, end)) => {
                &&& spec_equality(s@, 0) == (PRes::Parsed { v: eq, end: end as int })
                &&& 0 < end <= s@.len()
            },
            Err(e) => spec_equality(s@, 0) == (PRes::Failed::<Equality> { e }),
        },
{
    let n = s.unicode_len();
    equality_at(s, n, 0)
}

/// Scan a connector (`&` or `|`) at the start of the input.
pub fn connector(s: &str) -> (r: Result<(Connector, usize), ParseError>)
    ensures
        match r {
            Ok((c, end)) => {
                &&& spec_connector(s@, 0) == (PRes::Parsed { v: c, end: end as int })
                &&& 0 < end <= s@.len()
            },
            Err(e) => spec_connector(s@, 0) == (PRes::Failed::<Connector> { e }),
        },
{
    let n = s.unicode_len();
    connector_at(s, n, 0)
}

/// Resolve a typed operand at the start of the input: a signed number, else
/// a boolean keyword, else free text, in that order; a numeric or boolean
/// match that stops short of the next structural delimiter falls through to
/// free text.
pub fn operand(s: &str) -> (r: Result<(Operand, usize), ParseError>)
    ensures
        match r {
            Ok((op, end)) => {
                &&& spec_operand(s@, 0) == (PRes::Parsed { v: op@, end: end as int })
                &&& 0 < end <= s@.len()
            },
            Err(e) => spec_operand(s@, 0) == (PRes::Failed::<OperandV> { e }),
        },
{
    let n = s.unicode_len();
    operand_at(s, n, 0)
}

/// Parse a condition (`column "=" operator "." operand`) at the start of
/// the input. The returned count of consumed characters marks the
/// remainder; an empty remainder signals a full match.
pub fn condition(s: &str) -> (r: Result<(Condition, usize), ParseError>)
    ensures
        match r {
            Ok((c, end)) => {
                &&& spec_condition(s@, 0) == (PRes::Parsed { v: c@, end: end as int })
                &&& condition_wf(c@)
                &&& 0 < end <= s@.len()
            },
            Err(e) => spec_condition(s@, 0) == (PRes::Failed::<ConditionV> { e }),
        },
{
    let n = s.unicode_len();
    condition_at(s, n, 0)
}

/// Parse a condition at the start of the input, stripping any number of
/// redundant enclosing parentheses.
pub fn condition_expr(s: &str) -> (r: Result<(Condition, usize), ParseError>)
    ensures
        match r {
            Ok((c, end)) => {
                &&& spec_condition_expr(s@, 0) == (PRes::Parsed { v: c@, end: end as int })
                &&& condition_wf(c@)
                &&& 0 < end <= s@.len()
            },
            Err(e) => spec_condition_expr(s@, 0) == (PRes::Failed::<ConditionV> { e }),
        },
{
    let n = s.unicode_len();
    condition_expr_at(s, n, 0)
}

/// Parse an equation (`column "=" operand`, implicit equality) at the start
/// of the input.
pub fn equation(s: &str) -> (r: Result<(Equation, usize), ParseError>)
    ensures
        match r {
            Ok((eqn, end)) => {
                &&& spec_equation(s@, 0) == (PRes::Parsed { v: eqn@, end: end as int })
                &&& equation_wf(eqn@)
                &&& 0 < end <= s@.len()
            },
            Err(e) => spec_equation(s@, 0) == (PRes::Failed::<EquationV> { e }),
        },
{
    let n = s.unicode_len();
    equation_at(s, n, 0)
}

/// Parse one `key=value`-shaped query segment at the start of the input: a
/// condition if its shape fits, else an equation.
pub fn param(s: &str) -> (r: Result<(Param, usize), ParseError>)
    ensures
        match r {
            Ok((p, end)) => {
                &&& spec_param(s@, 0) == (PRes::Parsed { v: p@, end: end as int })
                &&& 0 < end <= s@.len()
            },
            Err(e) => spec_param(s@, 0) == (PRes::Failed::<ParamV> { e }),
        },
{
    let n = s.unicode_len();
    param_at(s, n, 0)
}

/// Parse a `&`-separated list of params at the start of the input: one
/// param, then as long as a `&` and another param follow, both are
/// consumed.
pub fn params(s: &str) -> (r: Result<(Vec<Param>, usize), ParseError>)
    ensures
        match r {
            Ok((ps, end)) => {
                &&& spec_params(s@, 0) == (PRes::Parsed { v: param_views(ps@), end: end as int })
                &&& 0 < end <= s@.len()
            },
            Err(e) => spec_params(s@, 0) == (PRes::Failed::<Seq<ParamV>> { e }),
        },
{
    let n = s.unicode_len();
    params_at(s, n, 0)
}

} // verus!

//! Law of the group parser: wrapping an accepted filter expression in one
//! additional matching pair of parentheses parses to the identical tree.
//!
//! The proof walks the grammar: every scanner and production, run at a
//! position inside `( s )` that corresponds to a position of `s`, either
//! matches the same text shifted by one or fails on both sides; the only
//! asymmetry is a pending `(` whose missing `)` the appended character can
//! complete, and the closing lemmas rule that out for inputs the grammar
//! accepted in full.

use vstd::prelude::*;

use crate::grammar::{
    at_delim, kw_eq, kw_gt, kw_gte, kw_ilike, kw_in, kw_is, kw_is_not, kw_like, kw_lt, kw_lte,
    kw_neq, kw_not_in, kw_st, spec_condition, spec_condition_expr, spec_connector, spec_equality,
    spec_operand,
};
use crate::filter::{spec_filter, spec_filter_expr, spec_filter_tail, spec_group};
use crate::model::{is_digit, is_ident_char, FilterV, PRes};
use crate::scan::{
    digit_run_end, ident_run_end, is_value_char, kw_false, kw_true, lemma_digit_run_props,
    lemma_ident_run_props, lemma_value_run_props, spec_boolean, spec_column, spec_float,
    spec_unsigned_float, spec_value, tag_at, value_run_end,
};

verus! {

/// The input wrapped in one pair of parentheses.
pub open spec fn wrap(s: Seq<char>) -> Seq<char> {
    seq!['('] + s + seq![')']
}

/// How `wrap(s)` reads: the added parentheses at the ends, the characters
/// of `s` shifted right by one.
proof fn lemma_wrap_index(s: Seq<char>)
    ensures
        wrap(s).len() == s.len() + 2,
        wrap(s)[0] == '(',
        wrap(s)[s.len() as int + 1] == ')',
        forall|i: int| 0 <= i < s.len() ==> wrap(s)[i + 1] == #[trigger] s[i],
{
    assert forall|i: int| 0 <= i < s.len() implies wrap(s)[i + 1] == #[trigger] s[i] by {
        assert(wrap(s)[i + 1] == (seq!['('] + s)[i + 1]);
    }
    assert(wrap(s)[0] == (seq!['('] + s)[0]);
}

/// The two results of one parse attempt on `s` and on `wrap(s)`: the same
/// value one position later, or failure on both sides.
pub open spec fn wrap_shifted<T>(a: PRes<T>, b: PRes<T>) -> bool {
    match (a, b) {
        (PRes::Parsed { v: v1, end: e1 }, PRes::Parsed { v: v2, end: e2 }) => v2 == v1 && e2 == e1
            + 1,
        (PRes::Failed { e: e1 }, PRes::Failed { e: e2 }) => true,
        _ => false,
    }
}

/// Digit runs shift by one under wrapping: neither `(` nor `)` is a digit.
proof fn lemma_digit_run_wrap(s: Seq<char>, pos: int)
    requires
        0 <= pos <= s.len(),
    ensures
        digit_run_end(wrap(s), pos + 1) == digit_run_end(s, pos) + 1,
    decreases s.len() - pos,
{
    lemma_wrap_index(s);
    if pos < s.len() && is_digit(s[pos]) {
        lemma_digit_run_wrap(s, pos + 1);
    }
}

/// Identifier runs shift by one under wrapping.
proof fn lemma_ident_run_wrap(s: Seq<char>, pos: int)
    requires
        0 <= pos <= s.len(),
    ensures
        ident_run_end(wrap(s), pos + 1) == ident_run_end(s, pos) + 1,
    decreases s.len() - pos,
{
    lemma_wrap_index(s);
    if pos < s.len() && is_ident_char(s[pos]) {
        lemma_ident_run_wrap(s, pos + 1);
    }
}

/// Free-text runs shift by one under wrapping: the appended `)` stops a run
/// exactly where the end of the input stopped it.
proof fn lemma_value_run_wrap(s: Seq<char>, pos: int)
    requires
        0 <= pos <= s.len(),
    ensures
        value_run_end(wrap(s), pos + 1) == value_run_end(s, pos) + 1,
    decreases s.len() - pos,
{
    lemma_wrap_index(s);
    if pos < s.len() && is_value_char(s[pos]) {
        lemma_value_run_wrap(s, pos + 1);
    }
}

/// A keyword that holds no `)` matches at `pos` in `s` exactly when it
/// matches at `pos + 1` in `wrap(s)`.
proof fn lemma_tag_wrap(s: Seq<char>, pos: int, kw: Seq<char>)
    requires
        0 <= pos <= s.len(),
        forall|j: int| 0 <= j < kw.len() ==> #[trigger] kw[j] != ')',
    ensures
        tag_at(wrap(s), pos + 1, kw) == tag_at(s, pos, kw),
{
    lemma_wrap_index(s);
    if tag_at(s, pos, kw) {
        assert forall|k: int| 0 <= k < kw.len() implies wrap(s)[pos + 1 + k] == #[trigger] kw[k] by {
            assert(s[pos + k] == kw[k]);
            assert(wrap(s)[(pos + k) + 1] == s[pos + k]);
        }
    }
    if tag_at(wrap(s), pos + 1, kw) && !tag_at(s, pos, kw) {
        if pos + kw.len() <= s.len() {
            assert forall|k: int| 0 <= k < kw.len() implies s[pos + k] == #[trigger] kw[k] by {
                assert(wrap(s)[(pos + k) + 1] == s[pos + k]);
                assert(wrap(s)[pos + 1 + k] == kw[k]);
            }
            assert(false);
        } else {
            let k = s.len() - pos;
            assert(wrap(s)[pos + 1 + k] == kw[k]);
            assert(pos + 1 + k == s.len() + 1);
            assert(kw[k] == ')');
            assert(false);
        }
    }
}

/// Unsigned decimal literals shift by one under wrapping.
proof fn lemma_uf_wrap(s: Seq<char>, pos: int)
    requires
        0 <= pos <= s.len(),
    ensures
        wrap_shifted(spec_unsigned_float(s, pos), spec_unsigned_float(wrap(s), pos + 1)),
        spec_unsigned_float(s, pos) matches PRes::Parsed { v, end } ==> pos < end <= s.len(),
{
    let t = wrap(s);
    lemma_wrap_index(s);
    lemma_digit_run_wrap(s, pos);
    lemma_digit_run_props(s, pos);
    let ie = digit_run_end(s, pos);
    if ie < s.len() {
        assert(t[ie + 1] == s[ie]);
    }
    if ie < s.len() && s[ie] == '.' {
        lemma_digit_run_wrap(s, ie + 1);
        lemma_digit_run_props(s, ie + 1);
        let fe = digit_run_end(s, ie + 1);
        if ie > pos || fe > ie + 1 {
            assert(t.subrange(pos + 1, ie + 1) =~= s.subrange(pos, ie));
            assert(t.subrange(ie + 2, fe + 1) =~= s.subrange(ie + 1, fe));
        }
    } else {
        if ie == s.len() {
            assert(t[ie + 1] == ')');
        }
        if ie > pos {
            assert(t.subrange(pos + 1, ie + 1) =~= s.subrange(pos, ie));
        }
    }
}

/// Signed decimal literals shift by one under wrapping.
proof fn lemma_float_wrap(s: Seq<char>, pos: int)
    requires
        0 <= pos <= s.len(),
    ensures
        wrap_shifted(spec_float(s, pos), spec_float(wrap(s), pos + 1)),
        spec_float(s, pos) matches PRes::Parsed { v, end } ==> pos < end <= s.len(),
{
    let t = wrap(s);
    lemma_wrap_index(s);
    if pos < s.len() {
        assert(t[pos + 1] == s[pos]);
    } else {
        assert(t[pos + 1] == ')');
    }
    if 0 <= pos < s.len() && (s[pos] == '+' || s[pos] == '-') {
        lemma_uf_wrap(s, pos + 1);
    } else {
        lemma_uf_wrap(s, pos);
    }
}

/// Boolean keywords shift by one under wrapping.
proof fn lemma_boolean_wrap(s: Seq<char>, pos: int)
    requires
        0 <= pos <= s.len(),
    ensures
        wrap_shifted(spec_boolean(s, pos), spec_boolean(wrap(s), pos + 1)),
        spec_boolean(s, pos) matches PRes::Parsed { v, end } ==> pos < end <= s.len(),
{
    assert(forall|j: int| 0 <= j < kw_true().len() ==> #[trigger] kw_true()[j] != ')') by {
        assert(kw_true()[0] == 't');
        assert(kw_true()[1] == 'r');
        assert(kw_true()[2] == 'u');
        assert(kw_true()[3] == 'e');
    }
    assert(forall|j: int| 0 <= j < kw_false().len() ==> #[trigger] kw_false()[j] != ')') by {
        assert(kw_false()[0] == 'f');
        assert(kw_false()[1] == 'a');
        assert(kw_false()[2] == 'l');
        assert(kw_false()[3] == 's');
        assert(kw_false()[4] == 'e');
    }
    lemma_tag_wrap(s, pos, kw_true());
    lemma_tag_wrap(s, pos, kw_false());
}

/// Column identifiers shift by one under wrapping.
proof fn lemma_column_wrap(s: Seq<char>, pos: int)
    requires
        0 <= pos <= s.len(),
    ensures
        wrap_shifted(spec_column(s, pos), spec_column(wrap(s), pos + 1)),
        spec_column(s, pos) matches PRes::Parsed { v, end } ==> pos < end <= s.len(),
{
    let t = wrap(s);
    lemma_wrap_index(s);
    lemma_ident_run_wrap(s, pos);
    lemma_ident_run_props(s, pos);
    let e = ident_run_end(s, pos);
    if e > pos {
        assert(t.subrange(pos + 1, e + 1) =~= s.subrange(pos, e));
    }
}

/// Free-text values shift by one under wrapping.
proof fn lemma_value_wrap(s: Seq<char>, pos: int)
    requires
        0 <= pos <= s.len(),
    ensures
        wrap_shifted(spec_value(s, pos), spec_value(wrap(s), pos + 1)),
        spec_value(s, pos) matches PRes::Parsed { v, end } ==> pos < end <= s.len(),
{
    let t = wrap(s);
    lemma_wrap_index(s);
    lemma_value_run_wrap(s, pos);
    lemma_value_run_props(s, pos);
    let e = value_run_end(s, pos);
    if e > pos {
        assert(t.subrange(pos + 1, e + 1) =~= s.subrange(pos, e));
    }
}

/// Structural delimiters keep their places under wrapping: the appended `)`
/// is a delimiter exactly where the end of the input was one.
proof fn lemma_at_delim_wrap(s: Seq<char>, pos: int)
    requires
        0 <= pos <= s.len(),
    ensures
        at_delim(wrap(s), pos + 1) == at_delim(s, pos),
{
    lemma_wrap_index(s);
    if pos == s.len() {
        assert(wrap(s)[pos + 1] == ')');
    } else {
        assert(wrap(s)[pos + 1] == s[pos]);
    }
}

/// The operator keyword table shifts by one under wrapping.
proof fn lemma_equality_wrap(s: Seq<char>, pos: int)
    requires
        0 <= pos <= s.len(),
    ensures
        wrap_shifted(spec_equality(s, pos), spec_equality(wrap(s), pos + 1)),
        spec_equality(s, pos) matches PRes::Parsed { v, end } ==> pos < end <= s.len(),
{
    assert(forall|j: int| 0 <= j < kw_eq().len() ==> #[trigger] kw_eq()[j] != ')') by {
        assert(kw_eq()[0] == 'e');
        assert(kw_eq()[1] == 'q');
    }
    assert(forall|j: int| 0 <= j < kw_neq().len() ==> #[trigger] kw_neq()[j] != ')') by {
        assert(kw_neq()[0] == 'n');
        assert(kw_neq()[1] == 'e');
        assert(kw_neq()[2] == 'q');
    }
    assert(forall|j: int| 0 <= j < kw_lte().len() ==> #[trigger] kw_lte()[j] != ')') by {
        assert(kw_lte()[0] == 'l');
        assert(kw_lte()[1] == 't');
        assert(kw_lte()[2] == 'e');
    }
    assert(forall|j: int| 0 <= j < kw_lt().len() ==> #[trigger] kw_lt()[j] != ')') by {
        assert(kw_lt()[0] == 'l');
        assert(kw_lt()[1] == 't');
    }
    assert(forall|j: int| 0 <= j < kw_gte().len() ==> #[trigger] kw_gte()[j] != ')') by {
        assert(kw_gte()[0] == 'g');
        assert(kw_gte()[1] == 't');
        assert(kw_gte()[2] == 'e');
    }
    assert(forall|j: int| 0 <= j < kw_gt().len() ==> #[trigger] kw_gt()[j] != ')') by {
        assert(kw_gt()[0] == 'g');
        assert(kw_gt()[1] == 't');
    }
    assert(forall|j: int| 0 <= j < kw_not_in().len() ==> #[trigger] kw_not_in()[j] != ')') by {
        assert(kw_not_in()[0] == 'n');
        assert(kw_not_in()[1] == 'o');
        assert(kw_not_in()[2] == 't');
        assert(kw_not_in()[3] == '_');
        assert(kw_not_in()[4] == 'i');
        assert(kw_not_in()[5] == 'n');
    }
    assert(forall|j: int| 0 <= j < kw_in().len() ==> #[trigger] kw_in()[j] != ')') by {
        assert(kw_in()[0] == 'i');
        assert(kw_in()[1] == 'n');
    }
    assert(forall|j: int| 0 <= j < kw_is_not().len() ==> #[trigger] kw_is_not()[j] != ')') by {
        assert(kw_is_not()[0] == 'i');
        assert(kw_is_not()[1] == 's');
        assert(kw_is_not()[2] == '_');
        assert(kw_is_not()[3] == 'n');
        assert(kw_is_not()[4] == 'o');
        assert(kw_is_not()[5] == 't');
    }
    assert(forall|j: int| 0 <= j < kw_is().len() ==> #[trigger] kw_is()[j] != ')') by {
        assert(kw_is()[0] == 'i');
        assert(kw_is()[1] == 's');
    }
    assert(forall|j: int| 0 <= j < kw_ilike().len() ==> #[trigger] kw_ilike()[j] != ')') by {
        assert(kw_ilike()[0] == 'i');
        assert(kw_ilike()[1] == 'l');
        assert(kw_ilike()[2] == 'i');
        assert(kw_ilike()[3] == 'k');
        assert(kw_ilike()[4] == 'e');
    }
    assert(forall|j: int| 0 <= j < kw_like().len() ==> #[trigger] kw_like()[j] != ')') by {
        assert(kw_like()[0] == 'l');
        assert(kw_like()[1] == 'i');
        assert(kw_like()[2] == 'k');
        assert(kw_like()[3] == 'e');
    }
    assert(forall|j: int| 0 <= j < kw_st().len() ==> #[trigger] kw_st()[j] != ')') by {
        assert(kw_st()[0] == 's');
        assert(kw_st()[1] == 't');
    }
    lemma_tag_wrap(s, pos, kw_eq());
    lemma_tag_wrap(s, pos, kw_neq());
    lemma_tag_wrap(s, pos, kw_lte());
    lemma_tag_wrap(s, pos, kw_lt());
    lemma_tag_wrap(s, pos, kw_gte());
    lemma_tag_wrap(s, pos, kw_gt());
    lemma_tag_wrap(s, pos, kw_not_in());
    lemma_tag_wrap(s, pos, kw_in());
    lemma_tag_wrap(s, pos, kw_is_not());
    lemma_tag_wrap(s, pos, kw_is());
    lemma_tag_wrap(s, pos, kw_ilike());
    lemma_tag_wrap(s, pos, kw_like());
    lemma_tag_wrap(s, pos, kw_st());
}

/// The typed-operand resolver shifts by one under wrapping.
proof fn lemma_operand_wrap(s: Seq<char>, pos: int)
    requires
        0 <= pos <= s.len(),
    ensures
        wrap_shifted(spec_operand(s, pos), spec_operand(wrap(s), pos + 1)),
        spec_operand(s, pos) matches PRes::Parsed { v, end } ==> pos < end <= s.len(),
{
    lemma_float_wrap(s, pos);
    lemma_boolean_wrap(s, pos);
    lemma_value_wrap(s, pos);
    match spec_float(s, pos) {
        PRes::Parsed { v, end } => {
            lemma_at_delim_wrap(s, end);
        },
        PRes::Failed { e } => {},
    }
    match spec_boolean(s, pos) {
        PRes::Parsed { v, end } => {
            lemma_at_delim_wrap(s, end);
        },
        PRes::Failed { e } => {},
    }
}

/// Conditions shift by one under wrapping.
proof fn lemma_condition_wrap(s: Seq<char>, pos: int)
    requires
        0 <= pos <= s.len(),
    ensures
        wrap_shifted(spec_condition(s, pos), spec_condition(wrap(s), pos + 1)),
        spec_condition(s, pos) matches PRes::Parsed { v, end } ==> pos < end <= s.len(),
{
    let t = wrap(s);
    lemma_wrap_index(s);
    lemma_column_wrap(s, pos);
    match spec_column(s, pos) {
        PRes::Failed { e } => {},
        PRes::Parsed { v: col, end: p1 } => {
            if p1 == s.len() {
                assert(t[p1 + 1] == ')');
            } else {
                assert(t[p1 + 1] == s[p1]);
            }
            if p1 < s.len() && s[p1] == '=' {
                lemma_equality_wrap(s, p1 + 1);
                match spec_equality(s, p1 + 1) {
                    PRes::Failed { e } => {},
                    PRes::Parsed { v: eq, end: p2 } => {
                        if p2 == s.len() {
                            assert(t[p2 + 1] == ')');
                        } else {
                            assert(t[p2 + 1] == s[p2]);
                        }
                        if p2 < s.len() && s[p2] == '.' {
                            lemma_operand_wrap(s, p2 + 1);
                        }
                    },
                }
            }
        },
    }
}

/// A successful condition-expression parse shifts by one under wrapping.
proof fn lemma_cexpr_wrap(s: Seq<char>, pos: int)
    requires
        0 <= pos <= s.len(),
        spec_condition_expr(s, pos) matches PRes::Parsed { .. },
    ensures
        spec_condition_expr(wrap(s), pos + 1) == (PRes::Parsed {
            v: spec_condition_expr(s, pos)->v,
            end: spec_condition_expr(s, pos)->end + 1,
        }),
        pos < spec_condition_expr(s, pos)->end <= s.len(),
    decreases s.len() - pos,
{
    let t = wrap(s);
    lemma_wrap_index(s);
    lemma_condition_wrap(s, pos);
    match spec_condition(s, pos) {
        PRes::Parsed { v, end } => {},
        PRes::Failed { e } => {
            assert(0 <= pos < s.len() && s[pos] == '(');
            assert(t[pos + 1] == s[pos]);
            match spec_condition_expr(s, pos + 1) {
                PRes::Parsed { v: v2, end: e2 } => {
                    lemma_cexpr_wrap(s, pos + 1);
                    assert(e2 < s.len() && s[e2] == ')');
                    assert(t[e2 + 1] == s[e2]);
                },
                PRes::Failed { e: e2 } => {
                    assert(false);
                },
            }
        },
    }
}

/// A successful condition-expression parse inside the wrapping that stops
/// short of the very end corresponds to one on the bare input: the appended
/// `)` can only ever be consumed as the final character.
#[verifier::rlimit(100)]
#[verifier::spinoff_prover]
proof fn lemma_cexpr_unwrap(s: Seq<char>, pos: int)
    requires
        0 <= pos <= s.len(),
        spec_condition_expr(wrap(s), pos + 1) matches PRes::Parsed { .. },
        spec_condition_expr(wrap(s), pos + 1)->end < wrap(s).len(),
    ensures
        spec_condition_expr(s, pos) == (PRes::Parsed {
            v: spec_condition_expr(wrap(s), pos + 1)->v,
            end: spec_condition_expr(wrap(s), pos + 1)->end - 1,
        }),
    decreases s.len() - pos,
{
    let t = wrap(s);
    lemma_wrap_index(s);
    lemma_condition_wrap(s, pos);
    match spec_condition(t, pos + 1) {
        PRes::Parsed { v, end } => {},
        PRes::Failed { e } => {
            assert(t[pos + 1] == '(');
            assert(pos < s.len()) by {
                if pos == s.len() {
                    assert(t[pos + 1] == ')');
                }
            }
            assert(s[pos] == '(');
            match spec_condition_expr(t, pos + 2) {
                PRes::Parsed { v: vi, end: ei } => {
                    assert(ei < t.len() && t[ei] == ')');
                    assert(ei + 1 == spec_condition_expr(t, pos + 1)->end);
                    assert(ei + 1 < t.len());
                    lemma_cexpr_unwrap(s, pos + 1);
                    lemma_cexpr_wrap(s, pos + 1);
                    assert(pos + 1 < ei - 1 <= s.len());
                    assert(ei <= s.len()) by {
                        if ei == s.len() + 1 {
                            assert(ei + 1 == t.len());
                        }
                    }
                    assert(t[(ei - 1) + 1] == s[ei - 1]);
                    assert(s[ei - 1] == ')');
                },
                PRes::Failed { .. } => {
                    assert(false);
                },
            }
        },
    }
}

/// The end of a filter tail never runs past the input.
proof fn lemma_tail_bounds(s: Seq<char>, pos: int)
    requires
        0 <= pos <= s.len(),
    ensures
        pos <= spec_filter_tail(s, pos).1 <= s.len(),
    decreases s.len() - pos,
{
    match spec_connector(s, pos) {
        PRes::Failed { e } => {},
        PRes::Parsed { v: conn, end: cend } => {
            if cend == pos + 1 && pos + 1 <= s.len() {
                match spec_group(s, pos + 1) {
                    PRes::Parsed { v: f, end } => {
                        if pos + 1 < end <= s.len() {
                            lemma_tail_bounds(s, end);
                        }
                    },
                    PRes::Failed { e } => {},
                }
            }
        },
    }
}

/// A successful filter-chain parse whose end does not sit on a connector
/// shifts by one under wrapping.
proof fn lemma_filter_wrap(s: Seq<char>, pos: int)
    requires
        0 <= pos <= s.len(),
        spec_filter(s, pos) matches PRes::Parsed { .. },
        spec_filter(s, pos)->end == s.len() || (0 <= spec_filter(s, pos)->end < s.len()
            && s[spec_filter(s, pos)->end] != '&' && s[spec_filter(s, pos)->end] != '|'),
    ensures
        spec_filter(wrap(s), pos + 1) == (PRes::Parsed {
            v: spec_filter(s, pos)->v,
            end: spec_filter(s, pos)->end + 1,
        }),
        pos < spec_filter(s, pos)->end <= s.len(),
    decreases s.len() - pos, 1int,
{
    let t = wrap(s);
    lemma_wrap_index(s);
    match spec_condition_expr(s, pos) {
        PRes::Parsed { v: anchor, end: e1 } => {
            lemma_cexpr_wrap(s, pos);
            lemma_tail_bounds(s, e1);
            lemma_tail_wrap(s, e1);
        },
        PRes::Failed { .. } => {
            assert(false);
        },
    }
}

/// A filter tail that stops at the input's end or before a non-connector
/// shifts by one under wrapping, element by element.
proof fn lemma_tail_wrap(s: Seq<char>, pos: int)
    requires
        0 <= pos <= s.len(),
        spec_filter_tail(s, pos).1 == s.len() || (0 <= spec_filter_tail(s, pos).1 < s.len()
            && s[spec_filter_tail(s, pos).1] != '&' && s[spec_filter_tail(s, pos).1] != '|'),
    ensures
        spec_filter_tail(wrap(s), pos + 1) == (spec_filter_tail(s, pos).0, spec_filter_tail(
            s,
            pos,
        ).1 + 1),
    decreases s.len() - pos, 3int,
{
    let t = wrap(s);
    lemma_wrap_index(s);
    if pos < s.len() && (s[pos] == '&' || s[pos] == '|') {
        assert(t[pos + 1] == s[pos]);
        match spec_group(s, pos + 1) {
            PRes::Parsed { v: g, end: e } => {
                if pos + 1 < e && e <= s.len() {
                    lemma_group_wrap(s, pos + 1);
                    lemma_tail_wrap(s, e);
                } else {
                    assert(spec_filter_tail(s, pos).1 == pos);
                    assert(false);
                }
            },
            PRes::Failed { .. } => {
                assert(spec_filter_tail(s, pos).1 == pos);
                assert(false);
            },
        }
    } else {
        if pos == s.len() {
            assert(t[pos + 1] == ')');
        } else {
            assert(t[pos + 1] == s[pos]);
        }
    }
}

/// A successful chain-element parse shifts by one under wrapping.
#[verifier::rlimit(100)]
proof fn lemma_group_wrap(s: Seq<char>, pos: int)
    requires
        0 <= pos <= s.len(),
        spec_group(s, pos) matches PRes::Parsed { .. },
    ensures
        spec_group(wrap(s), pos + 1) == (PRes::Parsed {
            v: spec_group(s, pos)->v,
            end: spec_group(s, pos)->end + 1,
        }),
        pos < spec_group(s, pos)->end <= s.len(),
    decreases s.len() - pos, 2int,
{
    let t = wrap(s);
    lemma_wrap_index(s);
    match spec_condition_expr(s, pos) {
        PRes::Parsed { v, end } => {
            lemma_cexpr_wrap(s, pos);
        },
        PRes::Failed { e } => {
            assert(0 <= pos < s.len() && s[pos] == '(');
            assert(t[pos + 1] == s[pos]);
            match spec_filter(s, pos + 1) {
                PRes::Parsed { v: g, end: ef } => {
                    assert(ef < s.len() && s[ef] == ')');
                    assert(spec_condition_expr(t, pos + 1) matches PRes::Failed { .. }) by {
                        match spec_condition_expr(t, pos + 1) {
                            PRes::Parsed { v: cv, end: ce } => {
                                if ce < t.len() {
                                    lemma_cexpr_unwrap(s, pos);
                                    assert(false);
                                } else {
                                    lemma_condition_wrap(s, pos);
                                    match spec_condition_expr(t, pos + 2) {
                                        PRes::Parsed { v: cv2, end: ce0 } => {
                                            assert(ce0 + 1 == ce);
                                            assert(ce0 < t.len());
                                            lemma_cexpr_unwrap(s, pos + 1);
                                            lemma_cexpr_wrap(s, pos + 1);
                                            assert(spec_condition_expr(s, pos + 1) == (PRes::Parsed::<
                                                crate::model::ConditionV,
                                            > { v: cv2, end: s.len() as int }));
                                            assert(spec_filter_tail(s, s.len() as int) == (
                                                Seq::<FilterV>::empty(),
                                                s.len() as int,
                                            ));
                                            assert(spec_filter(s, pos + 1)->end == s.len());
                                            assert(false);
                                        },
                                        PRes::Failed { .. } => {
                                            assert(false);
                                        },
                                    }
                                }
                            },
                            PRes::Failed { .. } => {},
                        }
                    }
                    assert(spec_filter(s, pos + 1)->end == ef);
                    assert(0 <= ef) by {
                        match spec_condition_expr(s, pos + 1) {
                            PRes::Parsed { v: a0, end: e1 } => {
                                lemma_tail_bounds(s, e1);
                            },
                            PRes::Failed { .. } => {
                                assert(false);
                            },
                        }
                    }
                    lemma_filter_wrap(s, pos + 1);
                    assert(t[ef + 1] == s[ef]);
                },
                PRes::Failed { .. } => {
                    assert(false);
                },
            }
        },
    }
}


/// Inside the wrapping, the bare-chain alternative still fails where it
/// failed on the bare input, provided the parenthesized alternative
/// consumed the input only up to a closing parenthesis short of the end.
#[verifier::rlimit(100)]
#[verifier::spinoff_prover]
proof fn lemma_inner_filter_fails(s: Seq<char>, pos: int)
    requires
        0 <= pos < s.len(),
        s[pos] == '(',
        spec_filter(s, pos) matches PRes::Failed { .. },
        spec_filter_expr(s, pos + 1) matches PRes::Parsed { .. },
        spec_filter_expr(s, pos + 1)->end < s.len(),
    ensures
        spec_filter(wrap(s), pos + 1) matches PRes::Failed { .. },
{
    let t = wrap(s);
    lemma_wrap_index(s);
    match spec_condition_expr(t, pos + 1) {
        PRes::Parsed { v: cv, end: ce } => {
            if ce < t.len() {
                lemma_cexpr_unwrap(s, pos);
                lemma_cexpr_wrap(s, pos);
                assert(false);
            } else {
                lemma_condition_wrap(s, pos);
                assert(spec_condition(s, pos) matches PRes::Failed { .. }) by {
                    match spec_condition_expr(s, pos) {
                        PRes::Parsed { .. } => {
                            lemma_cexpr_wrap(s, pos);
                            assert(false);
                        },
                        PRes::Failed { .. } => {},
                    }
                }
                match spec_condition_expr(t, pos + 2) {
                    PRes::Parsed { v: cv2, end: ce0 } => {
                        assert(ce0 + 1 == ce);
                        assert(ce0 < t.len());
                        lemma_cexpr_unwrap(s, pos + 1);
                        lemma_cexpr_wrap(s, pos + 1);
                        assert(spec_condition_expr(s, pos + 1) == (PRes::Parsed::<
                            crate::model::ConditionV,
                        > { v: cv2, end: s.len() as int }));
                        assert(spec_filter_tail(s, s.len() as int) == (
                            Seq::<FilterV>::empty(),
                            s.len() as int,
                        ));
                        assert(spec_filter(s, pos + 1)->end == s.len());
                        assert(spec_filter_expr(s, pos + 1)->end == s.len());
                        assert(false);
                    },
                    PRes::Failed { .. } => {
                        assert(false);
                    },
                }
            }
        },
        PRes::Failed { .. } => {},
    }
}


/// A successful condition-expression parse stays inside the input and
/// consumes at least one character.
proof fn lemma_cexpr_bounds(s: Seq<char>, pos: int)
    requires
        0 <= pos <= s.len(),
    ensures
        spec_condition_expr(s, pos) matches PRes::Parsed { v, end } ==> pos < end <= s.len(),
    decreases s.len() - pos,
{
    match spec_condition(s, pos) {
        PRes::Parsed { v, end } => {
            lemma_condition_wrap(s, pos);
        },
        PRes::Failed { .. } => {
            if 0 <= pos < s.len() && s[pos] == '(' {
                lemma_cexpr_bounds(s, pos + 1);
            }
        },
    }
}

/// A successful filter-expression parse stays inside the input and
/// consumes at least one character.
proof fn lemma_fexpr_bounds(s: Seq<char>, pos: int)
    requires
        0 <= pos <= s.len(),
    ensures
        spec_filter_expr(s, pos) matches PRes::Parsed { v, end } ==> pos < end <= s.len(),
    decreases s.len() - pos,
{
    match spec_filter(s, pos) {
        PRes::Parsed { v, end } => {
            match spec_condition_expr(s, pos) {
                PRes::Parsed { v: a, end: e1 } => {
                    if pos < e1 <= s.len() {
                        lemma_tail_bounds(s, e1);
                    }
                },
                PRes::Failed { .. } => {},
            }
        },
        PRes::Failed { .. } => {
            if 0 <= pos < s.len() && s[pos] == '(' {
                lemma_fexpr_bounds(s, pos + 1);
            }
        },
    }
}

/// A successful filter-expression parse that ends at the input's end or on
/// a closing parenthesis shifts by one under wrapping.
proof fn lemma_fexpr_wrap(s: Seq<char>, pos: int)
    requires
        0 <= pos <= s.len(),
        spec_filter_expr(s, pos) matches PRes::Parsed { .. },
        spec_filter_expr(s, pos)->end == s.len() || (0 <= spec_filter_expr(s, pos)->end < s.len()
            && s[spec_filter_expr(s, pos)->end] == ')'),
    ensures
        spec_filter_expr(wrap(s), pos + 1) == (PRes::Parsed {
            v: spec_filter_expr(s, pos)->v,
            end: spec_filter_expr(s, pos)->end + 1,
        }),
        pos < spec_filter_expr(s, pos)->end <= s.len(),
    decreases s.len() - pos,
{
    match spec_filter(s, pos) {
        PRes::Parsed { v: f0, end: q } => {
            lemma_filter_wrap(s, pos);
        },
        PRes::Failed { .. } => {
            assert(0 <= pos < s.len() && s[pos] == '(');
            match spec_filter_expr(s, pos + 1) {
                PRes::Parsed { v: fi, end: qi } => {
                    lemma_fexpr_bounds(s, pos + 1);
                    assert(0 <= qi < s.len() && s[qi] == ')');
                    lemma_fexpr_wrap(s, pos + 1);
                    lemma_fexpr_wrap_paren(s, pos);
                },
                PRes::Failed { .. } => {
                    assert(false);
                },
            }
        },
    }
}

/// The parenthesized branch of the filter-expression shift, given the
/// shift of the inner expression.
#[verifier::rlimit(100)]
#[verifier::spinoff_prover]
proof fn lemma_fexpr_wrap_paren(s: Seq<char>, pos: int)
    requires
        0 <= pos < s.len(),
        s[pos] == '(',
        spec_filter(s, pos) matches PRes::Failed { .. },
        spec_filter_expr(s, pos + 1) matches PRes::Parsed { .. },
        0 <= spec_filter_expr(s, pos + 1)->end < s.len(),
        s[spec_filter_expr(s, pos + 1)->end] == ')',
        spec_filter_expr(wrap(s), pos + 2) == (PRes::Parsed {
            v: spec_filter_expr(s, pos + 1)->v,
            end: spec_filter_expr(s, pos + 1)->end + 1,
        }),
    ensures
        spec_filter_expr(wrap(s), pos + 1) == (PRes::Parsed {
            v: spec_filter_expr(s, pos + 1)->v,
            end: spec_filter_expr(s, pos + 1)->end + 2,
        }),
{
    let t = wrap(s);
    lemma_wrap_index(s);
    let qi = spec_filter_expr(s, pos + 1)->end;
    lemma_inner_filter_fails(s, pos);
    assert(t[pos + 1] == s[pos]);
    assert(t[qi + 1] == s[qi]);
}


/// Law (idempotence of grouping): an input the filter-expression grammar
/// accepts in full parses, wrapped in one additional matching pair of
/// parentheses, to the identical tree, consuming the whole wrapped input.
#[verifier::rlimit(100)]
pub proof fn lemma_grouping_idempotent(s: Seq<char>, f: FilterV)
    requires
        spec_filter_expr(s, 0) == (PRes::Parsed { v: f, end: s.len() as int }),
    ensures
        spec_filter_expr(wrap(s), 0) == (PRes::Parsed { v: f, end: s.len() + 2 as int }),
{
    let t = wrap(s);
    lemma_wrap_index(s);
    assert(!is_ident_char('('));
    assert(ident_run_end(t, 0) == 0);
    assert(spec_condition(t, 0) matches PRes::Failed { .. });
    lemma_fexpr_wrap(s, 0);
    match spec_condition_expr(t, 1) {
        PRes::Failed { .. } => {
            assert(spec_filter(t, 0) matches PRes::Failed { .. });
            assert(t[s.len() as int + 1] == ')');
        },
        PRes::Parsed { v: cv, end: ce } => {
            if ce == t.len() {
                assert(spec_condition_expr(t, 0) matches PRes::Failed { .. });
                assert(spec_filter(t, 0) matches PRes::Failed { .. });
                assert(t[s.len() as int + 1] == ')');
            } else if t[ce] != ')' {
                assert(spec_condition_expr(t, 0) matches PRes::Failed { .. });
                assert(spec_filter(t, 0) matches PRes::Failed { .. });
                assert(t[s.len() as int + 1] == ')');
            } else {
                lemma_cexpr_unwrap(s, 0);
                lemma_cexpr_wrap(s, 0);
                assert(spec_condition_expr(s, 0) == (PRes::Parsed::<crate::model::ConditionV> {
                    v: cv,
                    end: ce - 1,
                }));
                assert(ce == s.len() + 1) by {
                    if ce <= s.len() {
                        assert(t[(ce - 1) + 1] == s[ce - 1]);
                        assert(s[ce - 1] == ')');
                        assert(spec_filter_tail(s, ce - 1) == (Seq::<FilterV>::empty(), ce - 1));
                        assert(spec_filter(s, 0)->end == ce - 1);
                        assert(spec_filter_expr(s, 0)->end == ce - 1);
                    }
                }
                assert(spec_filter_tail(s, s.len() as int) == (
                    Seq::<FilterV>::empty(),
                    s.len() as int,
                ));
                assert(spec_filter(s, 0) == (PRes::Parsed::<FilterV> {
                    v: FilterV { condition: cv, connector: None, sub_filters: Seq::empty() },
                    end: s.len() as int,
                }));
                assert(f == spec_filter(s, 0)->v);
                assert(spec_condition_expr(t, 0) == (PRes::Parsed::<crate::model::ConditionV> {
                    v: cv,
                    end: ce + 1,
                }));
                assert(ce + 1 == t.len());
                assert(spec_filter_tail(t, ce + 1) == (Seq::<FilterV>::empty(), ce + 1));
                assert(spec_filter(t, 0) == (PRes::Parsed::<FilterV> {
                    v: f,
                    end: s.len() + 2 as int,
                }));
            }
        },
    }
}

} // verus!

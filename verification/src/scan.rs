//! Literal scanners: maximal character runs, decimal literals (unsigned and
//! signed), boolean keywords, column identifiers, and free-text values.
//!
//! Every scanner is specified against a spec-level twin over `Seq<char>`
//! (`spec_unsigned_float`, `spec_float`, `spec_boolean`, `spec_column`,
//! `spec_value`), which the grammar modules build on.

use vstd::prelude::*;

use crate::ast::{Decimal, ErrorKind, ParseError};
use crate::model::{decimal_text, decimal_wf, is_digit, is_ident_char, DecimalV, PRes};

verus! {

/// A character may appear in a free-text value: anything but the grammar's
/// reserved close delimiter `)`.
pub open spec fn is_value_char(c: char) -> bool {
    c != ')'
}

/// End of the maximal run of characters satisfying `p`, starting at `pos`.
pub open spec fn run_end(s: Seq<char>, pos: int, p: spec_fn(char) -> bool) -> int
    decreases s.len() - pos,
{
    if pos < s.len() && p(s[pos]) {
        run_end(s, pos + 1, p)
    } else {
        pos
    }
}

/// A scan that stopped at the first non-`p` character has found the maximal
/// run: its stopping point is exactly `run_end`.
pub proof fn lemma_run_end_from_scan(s: Seq<char>, pos: int, i: int, p: spec_fn(char) -> bool)
    requires
        0 <= pos <= i <= s.len(),
        forall|k: int| pos <= k < i ==> p(#[trigger] s[k]),
        i == s.len() || !p(s[i]),
    ensures
        run_end(s, pos, p) == i,
    decreases i - pos,
{
    if pos < i {
        lemma_run_end_from_scan(s, pos + 1, i, p);
    }
}

/// What the definition of `run_end` yields: the run stays inside the input,
/// every character in it satisfies `p`, and the character just past it (if
/// any) does not.
pub proof fn lemma_run_end_props(s: Seq<char>, pos: int, p: spec_fn(char) -> bool)
    requires
        0 <= pos <= s.len(),
    ensures
        pos <= run_end(s, pos, p) <= s.len(),
        forall|k: int| pos <= k < run_end(s, pos, p) ==> p(#[trigger] s[k]),
        run_end(s, pos, p) < s.len() ==> !p(s[run_end(s, pos, p)]),
    decreases s.len() - pos,
{
    if pos < s.len() && p(s[pos]) {
        lemma_run_end_props(s, pos + 1, p);
    }
}

/// End of the maximal digit run at `pos`.
pub open spec fn digit_run_end(s: Seq<char>, pos: int) -> int {
    run_end(s, pos, |c: char| is_digit(c))
}

/// End of the maximal identifier-character run at `pos`.
pub open spec fn ident_run_end(s: Seq<char>, pos: int) -> int {
    run_end(s, pos, |c: char| is_ident_char(c))
}

/// End of the maximal free-text run at `pos`.
pub open spec fn value_run_end(s: Seq<char>, pos: int) -> int {
    run_end(s, pos, |c: char| is_value_char(c))
}

/// The error a failed scanner reports: the input ended here, or no scanner
/// alternative matched the character here.
pub open spec fn scan_error(s: Seq<char>, pos: int) -> ParseError {
    ParseError {
        kind: if pos == s.len() {
            ErrorKind::IncompleteInput
        } else {
            ErrorKind::MalformedOperand
        },
        offset: pos as usize,
    }
}

/// The error a missing required token reports: the input ended here, or the
/// character here is not the expected one.
pub open spec fn token_error(s: Seq<char>, pos: int) -> ParseError {
    ParseError {
        kind: if pos == s.len() {
            ErrorKind::IncompleteInput
        } else {
            ErrorKind::UnexpectedCharacter
        },
        offset: pos as usize,
    }
}

/// An unsigned decimal literal at `pos`: digits, a point with optional
/// digits on either side (at least one digit somewhere), or digits alone.
/// Greedy: both digit runs are maximal.
pub open spec fn spec_unsigned_float(s: Seq<char>, pos: int) -> PRes<DecimalV> {
    let ie = digit_run_end(s, pos);
    if ie < s.len() && s[ie] == '.' {
        let fe = digit_run_end(s, ie + 1);
        if ie > pos || fe > ie + 1 {
            PRes::Parsed {
                v: DecimalV {
                    negative: false,
                    integral: s.subrange(pos, ie),
                    fractional: s.subrange(ie + 1, fe),
                },
                end: fe,
            }
        } else {
            PRes::Failed { e: scan_error(s, pos) }
        }
    } else if ie > pos {
        PRes::Parsed {
            v: DecimalV {
                negative: false,
                integral: s.subrange(pos, ie),
                fractional: Seq::empty(),
            },
            end: ie,
        }
    } else {
        PRes::Failed { e: scan_error(s, pos) }
    }
}

/// A signed decimal literal at `pos`: an optional `+` or `-`, then an
/// unsigned literal. `-` negates; `+` and no sign are equivalent.
pub open spec fn spec_float(s: Seq<char>, pos: int) -> PRes<DecimalV> {
    if 0 <= pos < s.len() && (s[pos] == '+' || s[pos] == '-') {
        match spec_unsigned_float(s, pos + 1) {
            PRes::Parsed { v, end } => PRes::Parsed {
                v: DecimalV {
                    negative: s[pos] == '-',
                    integral: v.integral,
                    fractional: v.fractional,
                },
                end,
            },
            PRes::Failed { e } => PRes::Failed { e },
        }
    } else {
        spec_unsigned_float(s, pos)
    }
}

/// The characters of the keyword `true`.
pub open spec fn kw_true() -> Seq<char> {
    seq!['t', 'r', 'u', 'e']
}

/// The characters of the keyword `false`.
pub open spec fn kw_false() -> Seq<char> {
    seq!['f', 'a', 'l', 's', 'e']
}

/// The characters `t` occur verbatim in `s` at position `pos`.
pub open spec fn tag_at(s: Seq<char>, pos: int, t: Seq<char>) -> bool {
    &&& 0 <= pos
    &&& pos + t.len() <= s.len()
    &&& forall|k: int| 0 <= k < t.len() ==> s[pos + k] == #[trigger] t[k]
}

/// A boolean keyword at `pos`: exactly `true` or `false`, case sensitive,
/// consuming only the keyword.
pub open spec fn spec_boolean(s: Seq<char>, pos: int) -> PRes<bool> {
    if tag_at(s, pos, kw_true()) {
        PRes::Parsed { v: true, end: pos + 4 }
    } else if tag_at(s, pos, kw_false()) {
        PRes::Parsed { v: false, end: pos + 5 }
    } else {
        PRes::Failed { e: scan_error(s, pos) }
    }
}

/// A column identifier at `pos`: the maximal nonempty run of alphanumeric
/// or `_` characters.
pub open spec fn spec_column(s: Seq<char>, pos: int) -> PRes<Seq<char>> {
    let e = ident_run_end(s, pos);
    if e > pos {
        PRes::Parsed { v: s.subrange(pos, e), end: e }
    } else {
        PRes::Failed { e: token_error(s, pos) }
    }
}

/// A free-text value at `pos`: the maximal nonempty run of characters other
/// than `)`. Multi-byte text passes through untouched.
pub open spec fn spec_value(s: Seq<char>, pos: int) -> PRes<Seq<char>> {
    let e = value_run_end(s, pos);
    if e > pos {
        PRes::Parsed { v: s.subrange(pos, e), end: e }
    } else {
        PRes::Failed { e: scan_error(s, pos) }
    }
}

impl Decimal {
    /// The canonical text of this literal: sign, integral digits, and, when
    /// fractional digits exist, a point and the fractional digits. For a
    /// well-formed literal the text parses back to the very same literal
    /// (see `lemma_float_roundtrip`), and a binary-float caller can hand it
    /// to an ordinary float parser.
    pub fn to_text(&self) -> (r: String)
        ensures
            r@ == decimal_text(self@),
    {
        let mut r = String::new();
        if self.negative {
            r.append("-");
        }
        r.append(self.integral.as_str());
        if !self.fractional.as_str().is_empty() {
            r.append(".");
            r.append(self.fractional.as_str());
        }
        proof {
            reveal_strlit("-");
            reveal_strlit(".");
            assert(r@ =~= decimal_text(self@));
        }
        r
    }
}

/// The character at `i` is a decimal digit.
fn digit_at(s: &str, n: usize, i: usize) -> (r: bool)
    requires
        n == s@.len(),
        i < n,
    ensures
        r == is_digit(s@[i as int]),
{
    let c = s.get_char(i);
    '0' <= c && c <= '9'
}

/// The character at `i` may appear in a column identifier.
fn ident_at(s: &str, n: usize, i: usize) -> (r: bool)
    requires
        n == s@.len(),
        i < n,
    ensures
        r == is_ident_char(s@[i as int]),
{
    let c = s.get_char(i);
    ('a' <= c && c <= 'z') || ('A' <= c && c <= 'Z') || ('0' <= c && c <= '9') || c == '_'
}

/// The character at `i` may appear in a free-text value.
fn value_char_at(s: &str, n: usize, i: usize) -> (r: bool)
    requires
        n == s@.len(),
        i < n,
    ensures
        r == is_value_char(s@[i as int]),
{
    let c = s.get_char(i);
    c != ')'
}

/// Scan the maximal digit run starting at `pos`.
pub(crate) fn scan_digits(s: &str, n: usize, pos: usize) -> (r: usize)
    requires
        n == s@.len(),
        pos <= n,
    ensures
        r == digit_run_end(s@, pos as int),
        pos <= r <= n,
{
    let mut i: usize = pos;
    while i < n && digit_at(s, n, i)
        invariant
            n == s@.len(),
            pos <= i <= n,
            forall|k: int| pos <= k < i ==> is_digit(#[trigger] s@[k]),
        decreases n - i,
    {
        i = i + 1;
    }
    proof {
        lemma_run_end_from_scan(s@, pos as int, i as int, |c: char| is_digit(c));
    }
    i
}

/// Scan the maximal identifier run starting at `pos`.
pub(crate) fn scan_ident(s: &str, n: usize, pos: usize) -> (r: usize)
    requires
        n == s@.len(),
        pos <= n,
    ensures
        r == ident_run_end(s@, pos as int),
        pos <= r <= n,
{
    let mut i: usize = pos;
    while i < n && ident_at(s, n, i)
        invariant
            n == s@.len(),
            pos <= i <= n,
            forall|k: int| pos <= k < i ==> is_ident_char(#[trigger] s@[k]),
        decreases n - i,
    {
        i = i + 1;
    }
    proof {
        lemma_run_end_from_scan(s@, pos as int, i as int, |c: char| is_ident_char(c));
    }
    i
}

/// Scan the maximal free-text run starting at `pos`.
pub(crate) fn scan_value(s: &str, n: usize, pos: usize) -> (r: usize)
    requires
        n == s@.len(),
        pos <= n,
    ensures
        r == value_run_end(s@, pos as int),
        pos <= r <= n,
{
    let mut i: usize = pos;
    while i < n && value_char_at(s, n, i)
        invariant
            n == s@.len(),
            pos <= i <= n,
            forall|k: int| pos <= k < i ==> is_value_char(#[trigger] s@[k]),
        decreases n - i,
    {
        i = i + 1;
    }
    proof {
        lemma_run_end_from_scan(s@, pos as int, i as int, |c: char| is_value_char(c));
    }
    i
}

/// Copy the characters `[from, to)` of `s` into an owned string.
pub(crate) fn extract(s: &str, n: usize, from: usize, to: usize) -> (r: String)
    requires
        n == s@.len(),
        from <= to <= n,
    ensures
        r@ == s@.subrange(from as int, to as int),
{
    let piece = s.substring_char(from, to);
    piece.to_owned()
}

/// Facts `digit_run_end` yields by definition.
pub proof fn lemma_digit_run_props(s: Seq<char>, pos: int)
    requires
        0 <= pos <= s.len(),
    ensures
        pos <= digit_run_end(s, pos) <= s.len(),
        forall|k: int| pos <= k < digit_run_end(s, pos) ==> is_digit(#[trigger] s[k]),
        digit_run_end(s, pos) < s.len() ==> !is_digit(s[digit_run_end(s, pos)]),
{
    lemma_run_end_props(s, pos, |c: char| is_digit(c));
}

/// Facts `ident_run_end` yields by definition.
pub proof fn lemma_ident_run_props(s: Seq<char>, pos: int)
    requires
        0 <= pos <= s.len(),
    ensures
        pos <= ident_run_end(s, pos) <= s.len(),
        forall|k: int| pos <= k < ident_run_end(s, pos) ==> is_ident_char(#[trigger] s[k]),
        ident_run_end(s, pos) < s.len() ==> !is_ident_char(s[ident_run_end(s, pos)]),
{
    lemma_run_end_props(s, pos, |c: char| is_ident_char(c));
}

/// Facts `value_run_end` yields by definition.
pub proof fn lemma_value_run_props(s: Seq<char>, pos: int)
    requires
        0 <= pos <= s.len(),
    ensures
        pos <= value_run_end(s, pos) <= s.len(),
        forall|k: int| pos <= k < value_run_end(s, pos) ==> is_value_char(#[trigger] s[k]),
        value_run_end(s, pos) < s.len() ==> !is_value_char(s[value_run_end(s, pos)]),
{
    lemma_run_end_props(s, pos, |c: char| is_value_char(c));
}

/// A scan over digits that stopped at `i` pins down `digit_run_end`.
pub proof fn lemma_digit_run_from_scan(s: Seq<char>, pos: int, i: int)
    requires
        0 <= pos <= i <= s.len(),
        forall|k: int| pos <= k < i ==> is_digit(#[trigger] s[k]),
        i == s.len() || !is_digit(s[i]),
    ensures
        digit_run_end(s, pos) == i,
{
    lemma_run_end_from_scan(s, pos, i, |c: char| is_digit(c));
}

/// Parse an unsigned decimal literal at `pos`.
pub(crate) fn unsigned_float_at(s: &str, n: usize, pos: usize) -> (r: Result<
    (Decimal, usize),
    ParseError,
>)
    requires
        n == s@.len(),
        pos <= n,
    ensures
        match r {
            Ok((d, end)) => {
                &&& spec_unsigned_float(s@, pos as int) == (PRes::Parsed { v: d@, end: end as int })
                &&& decimal_wf(d@)
                &&& !d.negative
                &&& pos < end <= n
            },
            Err(e) => spec_unsigned_float(s@, pos as int) == (PRes::Failed::<DecimalV> { e }),
        },
{
    proof {
        lemma_digit_run_props(s@, pos as int);
    }
    let ie = scan_digits(s, n, pos);
    let has_dot = if ie < n {
        s.get_char(ie) == '.'
    } else {
        false
    };
    if has_dot {
        proof {
            lemma_digit_run_props(s@, ie + 1 as int);
        }
        let fe = scan_digits(s, n, ie + 1);
        if ie > pos || fe > ie + 1 {
            let d = Decimal {
                negative: false,
                integral: extract(s, n, pos, ie),
                fractional: extract(s, n, ie + 1, fe),
            };
            proof {
                assert forall|i: int| 0 <= i < d@.integral.len() implies is_digit(
                    #[trigger] d@.integral[i],
                ) by {
                    assert(d@.integral[i] == s@[pos + i]);
                }
                assert forall|i: int| 0 <= i < d@.fractional.len() implies is_digit(
                    #[trigger] d@.fractional[i],
                ) by {
                    assert(d@.fractional[i] == s@[ie + 1 + i]);
                }
            }
            Ok((d, fe))
        } else {
            Err(
                ParseError {
                    kind: if pos == n {
                        ErrorKind::IncompleteInput
                    } else {
                        ErrorKind::MalformedOperand
                    },
                    offset: pos,
                },
            )
        }
    } else if ie > pos {
        let d = Decimal {
            negative: false,
            integral: extract(s, n, pos, ie),
            fractional: String::new(),
        };
        proof {
            assert forall|i: int| 0 <= i < d@.integral.len() implies is_digit(
                #[trigger] d@.integral[i],
            ) by {
                assert(d@.integral[i] == s@[pos + i]);
            }
            assert(d@.fractional =~= Seq::<char>::empty());
        }
        Ok((d, ie))
    } else {
        Err(
            ParseError {
                kind: if pos == n {
                    ErrorKind::IncompleteInput
                } else {
                    ErrorKind::MalformedOperand
                },
                offset: pos,
            },
        )
    }
}

/// Parse a signed decimal literal at `pos`.
pub(crate) fn float_at(s: &str, n: usize, pos: usize) -> (r: Result<(Decimal, usize), ParseError>)
    requires
        n == s@.len(),
        pos <= n,
    ensures
        match r {
            Ok((d, end)) => {
                &&& spec_float(s@, pos as int) == (PRes::Parsed { v: d@, end: end as int })
                &&& decimal_wf(d@)
                &&& pos < end <= n
            },
            Err(e) => spec_float(s@, pos as int) == (PRes::Failed::<DecimalV> { e }),
        },
{
    if pos < n {
        let c = s.get_char(pos);
        if c == '+' || c == '-' {
            match unsigned_float_at(s, n, pos + 1) {
                Ok((d, end)) => {
                    let signed = Decimal {
                        negative: c == '-',
                        integral: d.integral,
                        fractional: d.fractional,
                    };
                    return Ok((signed, end));
                },
                Err(e) => {
                    return Err(e);
                },
            }
        }
    }
    unsigned_float_at(s, n, pos)
}

/// Parse a boolean keyword at `pos`.
pub(crate) fn boolean_at(s: &str, n: usize, pos: usize) -> (r: Result<(bool, usize), ParseError>)
    requires
        n == s@.len(),
        pos <= n,
    ensures
        match r {
            Ok((b, end)) => {
                &&& spec_boolean(s@, pos as int) == (PRes::Parsed { v: b, end: end as int })
                &&& pos < end <= n
            },
            Err(e) => spec_boolean(s@, pos as int) == (PRes::Failed::<bool> { e }),
        },
{
    if n - pos >= 4 && s.get_char(pos) == 't' && s.get_char(pos + 1) == 'r' && s.get_char(pos + 2)
        == 'u' && s.get_char(pos + 3) == 'e' {
        assert(tag_at(s@, pos as int, kw_true())) by {
            assert forall|k: int| 0 <= k < kw_true().len() implies s@[pos + k] == #[trigger] kw_true()[k] by {
            }
        }
        Ok((true, pos + 4))
    } else if n - pos >= 5 && s.get_char(pos) == 'f' && s.get_char(pos + 1) == 'a' && s.get_char(
        pos + 2,
    ) == 'l' && s.get_char(pos + 3) == 's' && s.get_char(pos + 4) == 'e' {
        assert(tag_at(s@, pos as int, kw_false())) by {
            assert forall|k: int| 0 <= k < kw_false().len() implies s@[pos + k]
                == #[trigger] kw_false()[k] by {}
        }
        assert(!tag_at(s@, pos as int, kw_true()));
        Ok((false, pos + 5))
    } else {
        proof {
            if tag_at(s@, pos as int, kw_true()) {
                assert(s@[pos + 0] == kw_true()[0]);
                assert(s@[pos + 1] == kw_true()[1]);
                assert(s@[pos + 2] == kw_true()[2]);
                assert(s@[pos + 3] == kw_true()[3]);
            }
            if tag_at(s@, pos as int, kw_false()) {
                assert(s@[pos + 0] == kw_false()[0]);
                assert(s@[pos + 1] == kw_false()[1]);
                assert(s@[pos + 2] == kw_false()[2]);
                assert(s@[pos + 3] == kw_false()[3]);
                assert(s@[pos + 4] == kw_false()[4]);
            }
        }
        Err(
            ParseError {
                kind: if pos == n {
                    ErrorKind::IncompleteInput
                } else {
                    ErrorKind::MalformedOperand
                },
                offset: pos,
            },
        )
    }
}

/// Parse a column identifier at `pos`.
pub(crate) fn column_at(s: &str, n: usize, pos: usize) -> (r: Result<(String, usize), ParseError>)
    requires
        n == s@.len(),
        pos <= n,
    ensures
        match r {
            Ok((name, end)) => {
                &&& spec_column(s@, pos as int) == (PRes::Parsed { v: name@, end: end as int })
                &&& pos < end <= n
            },
            Err(e) => spec_column(s@, pos as int) == (PRes::Failed::<Seq<char>> { e }),
        },
{
    let e = scan_ident(s, n, pos);
    if e > pos {
        Ok((extract(s, n, pos, e), e))
    } else {
        Err(
            ParseError {
                kind: if pos == n {
                    ErrorKind::IncompleteInput
                } else {
                    ErrorKind::UnexpectedCharacter
                },
                offset: pos,
            },
        )
    }
}

/// Parse a free-text value at `pos`.
pub(crate) fn value_at(s: &str, n: usize, pos: usize) -> (r: Result<(String, usize), ParseError>)
    requires
        n == s@.len(),
        pos <= n,
    ensures
        match r {
            Ok((text, end)) => {
                &&& spec_value(s@, pos as int) == (PRes::Parsed { v: text@, end: end as int })
                &&& pos < end <= n
            },
            Err(e) => spec_value(s@, pos as int) == (PRes::Failed::<Seq<char>> { e }),
        },
{
    let e = scan_value(s, n, pos);
    if e > pos {
        Ok((extract(s, n, pos, e), e))
    } else {
        Err(
            ParseError {
                kind: if pos == n {
                    ErrorKind::IncompleteInput
                } else {
                    ErrorKind::MalformedOperand
                },
                offset: pos,
            },
        )
    }
}

/// Scan an unsigned decimal literal at the start of the input. On success
/// the returned count of consumed characters marks the remainder; the parsed
/// literal is never negative and holds at least one digit.
pub fn unsigned_float(s: &str) -> (r: Result<(Decimal, usize), ParseError>)
    ensures
        match r {
            Ok((d, end)) => {
                &&& spec_unsigned_float(s@, 0) == (PRes::Parsed { v: d@, end: end as int })
                &&& decimal_wf(d@)
                &&& !d.negative
                &&& 0 < end <= s@.len()
            },
            Err(e) => spec_unsigned_float(s@, 0) == (PRes::Failed::<DecimalV> { e }),
        },
{
    let n = s.unicode_len();
    unsigned_float_at(s, n, 0)
}

/// Scan a signed decimal literal at the start of the input: an optional `+`
/// or `-` followed by an unsigned literal.
pub fn float(s: &str) -> (r: Result<(Decimal, usize), ParseError>)
    ensures
        match r {
            Ok((d, end)) => {
                &&& spec_float(s@, 0) == (PRes::Parsed { v: d@, end: end as int })
                &&& decimal_wf(d@)
                &&& 0 < end <= s@.len()
            },
            Err(e) => spec_float(s@, 0) == (PRes::Failed::<DecimalV> { e }),
        },
{
    let n = s.unicode_len();
    float_at(s, n, 0)
}

/// Scan a boolean keyword (`true` or `false`) at the start of the input.
pub fn boolean(s: &str) -> (r: Result<(bool, usize), ParseError>)
    ensures
        match r {
            Ok((b, end)) => {
                &&& spec_boolean(s@, 0) == (PRes::Parsed { v: b, end: end as int })
                &&& 0 < end <= s@.len()
            },
            Err(e) => spec_boolean(s@, 0) == (PRes::Failed::<bool> { e }),
        },
{
    let n = s.unicode_len();
    boolean_at(s, n, 0)
}

/// Scan a column identifier at the start of the input.
pub fn column(s: &str) -> (r: Result<(String, usize), ParseError>)
    ensures
        match r {
            Ok((name, end)) => {
                &&& spec_column(s@, 0) == (PRes::Parsed { v: name@, end: end as int })
                &&& 0 < end <= s@.len()
            },
            Err(e) => spec_column(s@, 0) == (PRes::Failed::<Seq<char>> { e }),
        },
{
    let n = s.unicode_len();
    column_at(s, n, 0)
}

/// Scan a free-text value at the start of the input.
pub fn value(s: &str) -> (r: Result<(String, usize), ParseError>)
    ensures
        match r {
            Ok((text, end)) => {
                &&& spec_value(s@, 0) == (PRes::Parsed { v: text@, end: end as int })
                &&& 0 < end <= s@.len()
            },
            Err(e) => spec_value(s@, 0) == (PRes::Failed::<Seq<char>> { e }),
        },
{
    let n = s.unicode_len();
    value_at(s, n, 0)
}

} // verus!

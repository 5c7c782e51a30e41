//! Laws of the literal scanners and the operator keyword table: the decimal
//! round trip and the prefix-collision freedom of the keyword matching.

use vstd::prelude::*;

use crate::ast::Equality;
use crate::grammar::{
    kw_eq, kw_gt, kw_gte, kw_in, kw_is_not, kw_lt, kw_lte, kw_neq, kw_not_in, spec_equality,
};
use crate::model::{decimal_text, decimal_wf, is_digit, DecimalV, PRes};
use crate::scan::{
    digit_run_end, lemma_digit_run_from_scan, lemma_digit_run_props, spec_float,
    spec_unsigned_float, tag_at,
};

verus! {

/// Whatever a successful scan of a signed decimal literal returns is well
/// formed: digits on both sides of the point, and at least one digit.
pub proof fn lemma_spec_float_wf(s: Seq<char>, pos: int)
    requires
        0 <= pos <= s.len(),
        spec_float(s, pos) matches PRes::Parsed { v, end },
    ensures
        spec_float(s, pos) matches PRes::Parsed { v, end } ==> decimal_wf(v),
{
    let upos: int = if pos < s.len() && (s[pos] == '+' || s[pos] == '-') {
        pos + 1
    } else {
        pos
    };
    lemma_digit_run_props(s, upos);
    let ie = digit_run_end(s, upos);
    if ie < s.len() && s[ie] == '.' {
        lemma_digit_run_props(s, ie + 1);
    }
}

/// Law (decimal round trip): for every well-formed decimal literal, parsing
/// its canonical text as a signed float consumes the whole text and yields
/// the very same literal; the denoted numeric value is therefore preserved
/// by parse-and-reformat, even where the source text differed from the
/// canonical one (`123.` and `123.0` both denote `123.0`).
pub proof fn lemma_float_roundtrip(d: DecimalV)
    requires
        decimal_wf(d),
    ensures
        spec_float(decimal_text(d), 0) == (PRes::Parsed { v: d, end: decimal_text(d).len() as int }),
{
    let t = decimal_text(d);
    let off: int = if d.negative {
        1
    } else {
        0
    };
    let il = d.integral.len() as int;
    let fl = d.fractional.len() as int;
    assert forall|k: int| off <= k < off + il implies is_digit(#[trigger] t[k]) by {
        assert(t[k] == d.integral[k - off]);
    }
    if fl == 0 {
        assert(t.len() == off + il);
        lemma_digit_run_from_scan(t, off, off + il);
        assert(t.subrange(off, off + il) =~= d.integral);
        assert(Seq::<char>::empty() =~= d.fractional);
        if d.negative {
            assert(t[0] == '-');
            assert(spec_unsigned_float(t, 1) == (PRes::Parsed {
                v: DecimalV { negative: false, integral: d.integral, fractional: d.fractional },
                end: t.len() as int,
            }));
        } else {
            assert(il >= 1);
            assert(is_digit(t[0]));
            assert(t[0] != '+' && t[0] != '-');
        }
    } else {
        assert(t[off + il] == '.');
        assert(!is_digit('.'));
        lemma_digit_run_from_scan(t, off, off + il);
        assert forall|k: int| off + il + 1 <= k < t.len() implies is_digit(#[trigger] t[k]) by {
            assert(t[k] == d.fractional[k - (off + il + 1)]);
        }
        assert(t.len() == off + il + 1 + fl);
        lemma_digit_run_from_scan(t, off + il + 1, t.len() as int);
        assert(t.subrange(off, off + il) =~= d.integral);
        assert(t.subrange(off + il + 1, t.len() as int) =~= d.fractional);
        if d.negative {
            assert(t[0] == '-');
            assert(spec_unsigned_float(t, 1) == (PRes::Parsed {
                v: DecimalV { negative: false, integral: d.integral, fractional: d.fractional },
                end: t.len() as int,
            }));
        } else {
            if il > 0 {
                assert(is_digit(t[0]));
                assert(t[0] != '+' && t[0] != '-');
            } else {
                assert(t[0] == '.');
            }
        }
    }
}

/// Law (parse, reformat, parse): wherever a signed decimal literal is
/// scanned successfully, printing the scanned literal back as canonical
/// text and scanning that text again yields the very same literal, so the
/// denoted numeric value survives a parse-and-reformat round trip.
pub proof fn lemma_float_reformat(s: Seq<char>, pos: int)
    requires
        0 <= pos <= s.len(),
        spec_float(s, pos) matches PRes::Parsed { .. },
    ensures
        spec_float(decimal_text(spec_float(s, pos)->v), 0) == (PRes::Parsed {
            v: spec_float(s, pos)->v,
            end: decimal_text(spec_float(s, pos)->v).len() as int,
        }),
{
    lemma_spec_float_wf(s, pos);
    lemma_float_roundtrip(spec_float(s, pos)->v);
}

/// Law (keyword ambiguity): wherever the six characters `is_not` stand, the
/// operator table yields `IS_NOT` and consumes all six; it never stops
/// after the shorter keyword `is` and leaves `_not` behind.
pub proof fn lemma_equality_is_not(s: Seq<char>, pos: int)
    requires
        tag_at(s, pos, kw_is_not()),
    ensures
        spec_equality(s, pos) == (PRes::Parsed { v: Equality::IS_NOT, end: pos + 6 }),
{
    assert(s[pos + 0] == kw_is_not()[0]);
    assert(s[pos + 1] == kw_is_not()[1]);
    assert(s[pos + 0] == 'i');
    assert(s[pos + 1] == 's');
    assert(!tag_at(s, pos, kw_eq())) by {
        if tag_at(s, pos, kw_eq()) {
            assert(s[pos + 0] == kw_eq()[0]);
        }
    }
    assert(!tag_at(s, pos, kw_neq())) by {
        if tag_at(s, pos, kw_neq()) {
            assert(s[pos + 0] == kw_neq()[0]);
        }
    }
    assert(!tag_at(s, pos, kw_lte())) by {
        if tag_at(s, pos, kw_lte()) {
            assert(s[pos + 0] == kw_lte()[0]);
        }
    }
    assert(!tag_at(s, pos, kw_lt())) by {
        if tag_at(s, pos, kw_lt()) {
            assert(s[pos + 0] == kw_lt()[0]);
        }
    }
    assert(!tag_at(s, pos, kw_gte())) by {
        if tag_at(s, pos, kw_gte()) {
            assert(s[pos + 0] == kw_gte()[0]);
        }
    }
    assert(!tag_at(s, pos, kw_gt())) by {
        if tag_at(s, pos, kw_gt()) {
            assert(s[pos + 0] == kw_gt()[0]);
        }
    }
    assert(!tag_at(s, pos, kw_not_in())) by {
        if tag_at(s, pos, kw_not_in()) {
            assert(s[pos + 0] == kw_not_in()[0]);
        }
    }
    assert(!tag_at(s, pos, kw_in())) by {
        if tag_at(s, pos, kw_in()) {
            assert(s[pos + 1] == kw_in()[1]);
        }
    }
}

} // verus!

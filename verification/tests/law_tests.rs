use filterlang::ast::{
    Condition, Connector, Decimal, Equality, ErrorKind, Filter, Operand, Param,
};
use filterlang::filter::{filter_expr, fold_conditions, test_filter_issue2};
use filterlang::grammar::{condition, condition_expr, connector, equality, operand, params};
use filterlang::scan::{float, unsigned_float, value};

fn col(name: &str) -> Operand {
    Operand::Column(name.to_string())
}

fn num(negative: bool, integral: &str, fractional: &str) -> Operand {
    Operand::Number(Decimal {
        negative,
        integral: integral.to_string(),
        fractional: fractional.to_string(),
    })
}

fn cond(left: &str, equality: Equality, right: Operand) -> Condition {
    Condition {
        left: col(left),
        equality,
        right,
    }
}

#[test]
fn float_reformat_keeps_value() {
    // Parse, print the canonical text, parse again: the same literal, the
    // same value, even where the source text was not canonical.
    let sources = vec!["123.", ".5", "-0.50", "+7", "000.25", "-123.456"];
    for s in sources {
        let (d, _) = float(s).unwrap();
        let t = d.to_text();
        let (d2, end2) = float(&t).unwrap();
        assert_eq!(end2, t.chars().count());
        assert_eq!(d2, d);
        assert_eq!(
            t.parse::<f64>().unwrap(),
            s.parse::<f64>().unwrap()
        );
    }
}

#[test]
fn decimal_text_forms() {
    let (d, _) = unsigned_float("123.").unwrap();
    assert_eq!(d.to_text(), "123");
    let (d, _) = unsigned_float(".123").unwrap();
    assert_eq!(d.to_text(), ".123");
    let (d, _) = float("-0.5").unwrap();
    assert_eq!(d.to_text(), "-0.5");
}

#[test]
fn equality_keyword_ambiguity() {
    // `is_not` must never be cut short to `is`, nor `lte`/`gte` to their
    // two-letter prefixes.
    assert_eq!(equality("is_not").unwrap(), (Equality::IS_NOT, 6));
    assert_eq!(equality("is").unwrap(), (Equality::IS, 2));
    assert_eq!(equality("lte").unwrap(), (Equality::LTE, 3));
    assert_eq!(equality("lt").unwrap(), (Equality::LT, 2));
    assert_eq!(equality("gte").unwrap(), (Equality::GTE, 3));
    assert_eq!(equality("not_in").unwrap(), (Equality::NOT_IN, 6));
    assert_eq!(equality("in").unwrap(), (Equality::IN, 2));
    assert_eq!(equality("like").unwrap(), (Equality::LIKE, 4));
    assert_eq!(condition("deleted=is_not.true").unwrap().0.equality, Equality::IS_NOT);
}

#[test]
fn grouping_is_idempotent() {
    // An accepted input, wrapped in one more pair of parentheses, parses to
    // the identical tree.
    let accepted = vec![
        "product=eq.134",
        "age=lt.20&product=eq.134&price=lt.100.0",
        "(product=eq.134|price=lt.100.0)",
        "age=lt.20&(product=eq.134|price=lt.100.0)",
    ];
    for s in accepted {
        let (f1, e1) = filter_expr(s).unwrap();
        assert_eq!(e1, s.chars().count());
        let wrapped = format!("({})", s);
        let (f2, e2) = filter_expr(&wrapped).unwrap();
        assert_eq!(e2, wrapped.chars().count());
        assert_eq!(f2, f1);
    }
}

#[test]
fn fold_conditions_builds_flat_chain() {
    let root = cond("age", Equality::LT, num(false, "20", ""));
    let pairs = vec![
        (Connector::AND, cond("product", Equality::EQ, num(false, "134", ""))),
        (Connector::OR, cond("price", Equality::LT, num(false, "100", "0"))),
    ];
    let folded = fold_conditions(root, pairs);
    assert_eq!(
        folded,
        Filter {
            condition: cond("age", Equality::LT, num(false, "20", "")),
            connector: None,
            sub_filters: vec![
                Filter {
                    condition: cond("product", Equality::EQ, num(false, "134", "")),
                    connector: Some(Connector::AND),
                    sub_filters: vec![],
                },
                Filter {
                    condition: cond("price", Equality::LT, num(false, "100", "0")),
                    connector: Some(Connector::OR),
                    sub_filters: vec![],
                },
            ],
        }
    );
}

#[test]
fn operand_partial_literals_fall_through() {
    // A numeric or boolean match that stops short of a structural delimiter
    // falls through to the free-text alternative.
    assert_eq!(
        operand("12ab").unwrap(),
        (Operand::Value("12ab".to_string()), 4)
    );
    assert_eq!(
        operand("true1").unwrap(),
        (Operand::Value("true1".to_string()), 5)
    );
    // Up to a delimiter, the typed alternatives win.
    assert_eq!(operand("20&x").unwrap(), (num(false, "20", ""), 2));
    assert_eq!(operand("true)").unwrap(), (Operand::Boolean(true), 4));
}

#[test]
fn value_stops_at_close_paren() {
    assert_eq!(value("技)x").unwrap(), ("技".to_string(), 1));
    let err = value(")abc").unwrap_err();
    assert_eq!(err.kind, ErrorKind::MalformedOperand);
    assert_eq!(err.offset, 0);
}

#[test]
fn connector_kinds() {
    assert_eq!(connector("&rest").unwrap(), (Connector::AND, 1));
    assert_eq!(connector("|rest").unwrap(), (Connector::OR, 1));
    let err = connector("x").unwrap_err();
    assert_eq!(err.kind, ErrorKind::UnexpectedCharacter);
    assert_eq!(err.offset, 0);
}

#[test]
fn error_unknown_operator() {
    let err = condition("a=foo.1").unwrap_err();
    assert_eq!(err.kind, ErrorKind::UnknownOperator);
    assert_eq!(err.offset, 2);
}

#[test]
fn error_malformed_operand() {
    let err = condition("a=eq.)").unwrap_err();
    assert_eq!(err.kind, ErrorKind::MalformedOperand);
    assert_eq!(err.offset, 5);
}

#[test]
fn error_unexpected_character() {
    let err = condition("a(b").unwrap_err();
    assert_eq!(err.kind, ErrorKind::UnexpectedCharacter);
    assert_eq!(err.offset, 1);
}

#[test]
fn error_unbalanced_group() {
    let err = condition_expr("(a=eq.1").unwrap_err();
    assert_eq!(err.kind, ErrorKind::UnbalancedGroup);
    assert_eq!(err.offset, 7);
    let err = filter_expr("(a=eq.1&b=eq.2").unwrap_err();
    assert_eq!(err.kind, ErrorKind::UnbalancedGroup);
    assert_eq!(err.offset, 14);
}

#[test]
fn error_incomplete_input() {
    let err = filterlang::scan::column("").unwrap_err();
    assert_eq!(err.kind, ErrorKind::IncompleteInput);
    assert_eq!(err.offset, 0);
    let err = condition("a").unwrap_err();
    assert_eq!(err.kind, ErrorKind::IncompleteInput);
    assert_eq!(err.offset, 1);
}

#[test]
fn params_stop_before_dangling_separator() {
    let (ps, end) = params("a=1&").unwrap();
    assert_eq!(end, 3);
    assert_eq!(ps.len(), 1);
    match &ps[0] {
        Param::Equation(e) => {
            assert_eq!(e.left, col("a"));
            assert_eq!(e.right, num(false, "1", ""));
        }
        Param::Condition(_) => panic!("plain assignment parsed as condition"),
    }
}

#[test]
fn two_parenthesized_chains_stay_a_known_gap() {
    // The documented grammar gap: two parenthesized multi-condition chains
    // joined at the top level parse only up to the first group.
    test_filter_issue2();
    let (f, end) = filter_expr("(a=eq.1&b=eq.2)&(c=eq.3)").unwrap();
    assert_eq!(end, 15);
    assert_eq!(f.sub_filters.len(), 1);
}

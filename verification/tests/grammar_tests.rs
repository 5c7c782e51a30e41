use filterlang::ast::{
    Condition, Connector, Decimal, Equality, Equation, Filter, Operand, Param,
};
use filterlang::filter::{filter, filter_expr};
use filterlang::grammar::{condition, condition_expr, equality, operand, param, params};
use filterlang::scan::{boolean, float, unsigned_float, value};

fn col(name: &str) -> Operand {
    Operand::Column(name.to_string())
}

fn num(negative: bool, integral: &str, fractional: &str) -> Operand {
    Operand::Number(Decimal {
        negative,
        integral: integral.to_string(),
        fractional: fractional.to_string(),
    })
}

fn text(v: &str) -> Operand {
    Operand::Value(v.to_string())
}

fn chars(s: &str) -> usize {
    s.chars().count()
}

#[test]
fn test_identifier() {
    assert_eq!(filterlang::scan::column("ahello").unwrap(), ("ahello".to_string(), 6));
    assert_eq!(filterlang::scan::column("hello_").unwrap(), ("hello_".to_string(), 6));
    assert_eq!(filterlang::scan::column("hello1").unwrap(), ("hello1".to_string(), 6));
}

#[test]
fn test_value() {
    assert_eq!(
        value("hello world!").unwrap(),
        ("hello world!".to_string(), 12)
    );
    assert_eq!(
        value("技術通報").unwrap(),
        ("技術通報".to_string(), chars("技術通報"))
    );
}

#[test]
fn test_param() {
    assert_eq!(
        param("product=eq.134").unwrap(),
        (
            Param::Condition(Condition {
                left: col("product"),
                equality: Equality::EQ,
                right: num(false, "134", ""),
            }),
            14
        )
    );
    assert_eq!(
        param("product=134").unwrap(),
        (
            Param::Equation(Equation {
                left: col("product"),
                right: num(false, "134", ""),
            }),
            11
        )
    );
}

#[test]
fn test_params() {
    assert_eq!(
        params("product=eq.134").unwrap(),
        (
            vec![Param::Condition(Condition {
                left: col("product"),
                equality: Equality::EQ,
                right: num(false, "134", ""),
            })],
            14
        )
    );
    assert_eq!(
        params("product=eq.134&page=2").unwrap(),
        (
            vec![
                Param::Condition(Condition {
                    left: col("product"),
                    equality: Equality::EQ,
                    right: num(false, "134", ""),
                }),
                Param::Equation(Equation {
                    left: col("page"),
                    right: num(false, "2", ""),
                }),
            ],
            21
        )
    );
}

#[test]
fn test_filter_issue1() {
    assert_eq!(
        filter("age=lt.20&product=eq.134&price=lt.100.0").unwrap(),
        (
            Filter {
                connector: None,
                condition: Condition {
                    left: col("age"),
                    equality: Equality::LT,
                    right: num(false, "20", ""),
                },
                sub_filters: vec![
                    Filter {
                        condition: Condition {
                            left: col("product"),
                            equality: Equality::EQ,
                            right: num(false, "134", ""),
                        },
                        connector: Some(Connector::AND),
                        sub_filters: vec![],
                    },
                    Filter {
                        connector: Some(Connector::AND),
                        condition: Condition {
                            left: col("price"),
                            equality: Equality::LT,
                            right: num(false, "100", "0"),
                        },
                        sub_filters: vec![],
                    },
                ],
            },
            39
        )
    );
}

#[test]
fn test_filters() {
    assert_eq!(
        filter("product=eq.134").unwrap(),
        (
            Filter {
                connector: None,
                condition: Condition {
                    left: col("product"),
                    equality: Equality::EQ,
                    right: num(false, "134", ""),
                },
                sub_filters: vec![],
            },
            14
        )
    );
    assert_eq!(
        filter("product=eq.134&price=lt.100.0").unwrap(),
        (
            Filter {
                condition: Condition {
                    left: col("product"),
                    equality: Equality::EQ,
                    right: num(false, "134", ""),
                },
                connector: None,
                sub_filters: vec![Filter {
                    connector: Some(Connector::AND),
                    condition: Condition {
                        left: col("price"),
                        equality: Equality::LT,
                        right: num(false, "100", "0"),
                    },
                    sub_filters: vec![],
                }],
            },
            29
        )
    );
    assert_eq!(
        filter("product=eq.134|price=lt.100.0").unwrap(),
        (
            Filter {
                condition: Condition {
                    left: col("product"),
                    equality: Equality::EQ,
                    right: num(false, "134", ""),
                },
                connector: None,
                sub_filters: vec![Filter {
                    connector: Some(Connector::OR),
                    condition: Condition {
                        left: col("price"),
                        equality: Equality::LT,
                        right: num(false, "100", "0"),
                    },
                    sub_filters: vec![],
                }],
            },
            29
        )
    );
    assert_eq!(
        filter_expr("(product=eq.134|price=lt.100.0)").unwrap(),
        (
            Filter {
                condition: Condition {
                    left: col("product"),
                    equality: Equality::EQ,
                    right: num(false, "134", ""),
                },
                connector: None,
                sub_filters: vec![Filter {
                    connector: Some(Connector::OR),
                    condition: Condition {
                        left: col("price"),
                        equality: Equality::LT,
                        right: num(false, "100", "0"),
                    },
                    sub_filters: vec![],
                }],
            },
            31
        )
    );
}

#[test]
fn test_paren_filter_exprs() {
    assert_eq!(
        filter_expr("(product=eq.134)|(price=lt.100.0)").unwrap(),
        (
            Filter {
                condition: Condition {
                    left: col("product"),
                    equality: Equality::EQ,
                    right: num(false, "134", ""),
                },
                connector: None,
                sub_filters: vec![Filter {
                    condition: Condition {
                        left: col("price"),
                        equality: Equality::LT,
                        right: num(false, "100", "0"),
                    },
                    connector: Some(Connector::OR),
                    sub_filters: vec![],
                }],
            },
            33
        )
    );
    // The parenthesized sub-chain after `&` keeps its own OR-tagged entry;
    // the whole group relates to `age` through the AND it follows.
    assert_eq!(
        filter_expr("age=lt.20&(product=eq.134|price=lt.100.0)").unwrap(),
        (
            Filter {
                condition: Condition {
                    left: col("age"),
                    equality: Equality::LT,
                    right: num(false, "20", ""),
                },
                connector: None,
                sub_filters: vec![Filter {
                    condition: Condition {
                        left: col("product"),
                        equality: Equality::EQ,
                        right: num(false, "134", ""),
                    },
                    connector: Some(Connector::AND),
                    sub_filters: vec![Filter {
                        connector: Some(Connector::OR),
                        condition: Condition {
                            left: col("price"),
                            equality: Equality::LT,
                            right: num(false, "100", "0"),
                        },
                        sub_filters: vec![],
                    }],
                }],
            },
            41
        )
    );
}

#[test]
fn test_boolean() {
    assert_eq!(boolean("true").unwrap(), (true, 4));
    assert_eq!(boolean("false").unwrap(), (false, 5));
}

#[test]
fn test_cond() {
    assert_eq!(
        condition("product=eq.134").unwrap(),
        (
            Condition {
                left: col("product"),
                equality: Equality::EQ,
                right: num(false, "134", ""),
            },
            14
        )
    );
    assert_eq!(
        condition("active=eq.true").unwrap(),
        (
            Condition {
                left: col("active"),
                equality: Equality::EQ,
                right: Operand::Boolean(true),
            },
            14
        )
    );
    assert_eq!(
        condition("price=lt.-0.3").unwrap(),
        (
            Condition {
                left: col("price"),
                equality: Equality::LT,
                right: num(true, "0", "3"),
            },
            13
        )
    );
    assert_eq!(
        condition("name=st.John").unwrap(),
        (
            Condition {
                left: col("name"),
                equality: Equality::ST,
                right: text("John"),
            },
            12
        )
    );
    assert_eq!(
        condition("name=st.John Cena").unwrap(),
        (
            Condition {
                left: col("name"),
                equality: Equality::ST,
                right: text("John Cena"),
            },
            17
        )
    );
    assert_eq!(
        condition_expr("(name=st.John)").unwrap(),
        (
            Condition {
                left: col("name"),
                equality: Equality::ST,
                right: text("John"),
            },
            14
        )
    );
    assert_eq!(
        condition_expr("((name=st.John))").unwrap(),
        (
            Condition {
                left: col("name"),
                equality: Equality::ST,
                right: text("John"),
            },
            16
        )
    );
    assert_eq!(
        condition("name=st.技術通").unwrap(),
        (
            Condition {
                left: col("name"),
                equality: Equality::ST,
                right: text("技術通"),
            },
            chars("name=st.技術通")
        )
    );
    assert_eq!(
        condition("name=ilike.*° ͜ʖ ͡°*").unwrap(),
        (
            Condition {
                left: col("name"),
                equality: Equality::ILIKE,
                right: text("*° ͜ʖ ͡°*"),
            },
            chars("name=ilike.*° ͜ʖ ͡°*")
        )
    );
}

#[test]
fn test_equality() {
    assert_eq!(equality("eq").unwrap(), (Equality::EQ, 2));
    assert_eq!(equality("neq").unwrap(), (Equality::NEQ, 3));
    assert_eq!(equality("st").unwrap(), (Equality::ST, 2));
    assert_eq!(equality("ilike").unwrap(), (Equality::ILIKE, 5));
}

#[test]
fn test_operand() {
    assert_eq!(operand("product").unwrap(), (text("product"), 7));
    assert_eq!(operand("1234").unwrap(), (num(false, "1234", ""), 4));
    assert_eq!(operand("true").unwrap(), (Operand::Boolean(true), 4));
    assert_eq!(operand("false").unwrap(), (Operand::Boolean(false), 5));
    assert_eq!(operand("Hello world!").unwrap(), (text("Hello world!"), 12));
    assert_eq!(operand("hello world!").unwrap(), (text("hello world!"), 12));
}

#[test]
fn test_column() {
    assert_eq!(filterlang::scan::column("product").unwrap(), ("product".to_string(), 7));
}

#[test]
fn unsigned_float_test() {
    let cases: Vec<(&str, f64)> = vec![
        ("123.456", 123.456),
        ("0.123", 0.123),
        ("123.0", 123.0),
        ("123.", 123.0),
        (".123", 0.123),
        ("123456", 123456f64),
    ];
    for (input, expected) in cases {
        let (d, end) = unsigned_float(input).unwrap();
        assert_eq!(end, input.chars().count());
        assert!(!d.negative);
        assert_eq!(d.to_text().parse::<f64>().unwrap(), expected);
    }
}

#[test]
fn float_test() {
    let cases: Vec<(&str, f64)> = vec![
        ("123.456", 123.456),
        ("+123.456", 123.456),
        ("-123.456", -123.456),
    ];
    for (input, expected) in cases {
        let (d, end) = float(input).unwrap();
        assert_eq!(end, input.chars().count());
        assert_eq!(d.to_text().parse::<f64>().unwrap(), expected);
    }
}

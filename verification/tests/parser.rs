//! The per-production parser tests: each parses a source string with one
//! node type's production and compares against the expected AST value
//! (structural equality, positions ignored).
use compiler::ast::{Assignment, Expression, FnDef, FnInvocation, Identifier, Operator, Parameter};
use compiler::input::Input;
use compiler::parser::Parser;

/// Assert that the given input successfully parses into the expected value,
/// consuming all input.
fn assert_parse<T>(tests: Vec<(T, String)>)
where
    T: Parser + std::fmt::Debug + PartialEq,
{
    for (test_id, (expected, s)) in tests.into_iter().enumerate() {
        let src: Vec<char> = s.chars().collect();
        let (i, actual) = match T::parse(&src, Input::new()) {
            Ok(t) => t,
            Err(e) => {
                panic!("Could not parse: {e:#?}");
            }
        };
        assert!(
            i.is_empty(&src),
            "Input should have been empty, but input remained at offset {}. Parsed {actual:#?}.",
            i.offset
        );
        assert_eq!(
            actual, expected,
            "failed test {test_id}: expected {expected:#?} and got {actual:#?}"
        );
    }
}

/// Assert that the given input fails to parse.
fn assert_not_parse<T>(i: &str)
where
    T: Parser + std::fmt::Debug + PartialEq,
{
    let src: Vec<char> = i.chars().collect();
    let r = T::parse(&src, Input::new());
    assert!(r.is_err(), "input {i:?} should not have parsed");
}

fn number(n: u64) -> Expression {
    Expression::Number(n)
}

fn name(s: &str) -> Expression {
    Expression::Name(Identifier::from_text(s))
}

#[test]
fn parser_test_expr_number() {
    assert_parse(vec![
        (number(123), "12_3".to_string()),
        (number(123), "123".to_string()),
        (number(1), "1".to_string()),
        (number(2), "2".to_string()),
    ]);
}

#[test]
fn parser_test_expr_arith() {
    assert_parse(vec![
        (
            Expression::Arithmetic {
                lhs: Box::new(number(1)),
                op: Operator::Add,
                rhs: Box::new(number(2)),
            },
            "(1 + 2)".to_string(),
        ),
        (number(123), "123".to_string()),
    ]);
}

#[test]
fn parser_valid_function_invocations() {
    assert_parse(vec![(
        Expression::FnInvocation(FnInvocation {
            fn_name: Identifier::from_text("sphere"),
            args: vec![number(1), number(2)],
        }),
        "sphere(1, 2)".to_string(),
    )])
}

#[test]
fn parser_valid_function_definition() {
    assert_parse(vec![
        (
            FnDef {
                fn_name: Identifier::from_text("bigCircle"),
                params: vec![
                    Parameter {
                        name: Identifier::from_text("radius"),
                        kcl_type: Identifier::from_text("Distance"),
                    },
                    Parameter {
                        name: Identifier::from_text("center"),
                        kcl_type: Identifier::from_text("Point2D"),
                    },
                ],
                body: Expression::FnInvocation(FnInvocation {
                    fn_name: Identifier::from_text("circle"),
                    args: vec![name("radius")],
                }),
                return_type: Identifier::from_text("Solid2D"),
            },
            r#"bigCircle = (radius: Distance, center: Point2D -> Solid2D) => circle(radius)"#
                .to_string(),
        ),
        (
            FnDef {
                fn_name: Identifier::from_text("bigCircle"),
                params: vec![Parameter {
                    name: Identifier::from_text("center"),
                    kcl_type: Identifier::from_text("Point2D"),
                }],
                body: Expression::LetIn {
                    bindings: vec![Assignment {
                        identifier: Identifier::from_text("radius"),
                        value: Expression::Arithmetic {
                            lhs: Box::new(number(14)),
                            op: Operator::Mul,
                            rhs: Box::new(number(100)),
                        },
                    }],
                    body: Box::new(Expression::FnInvocation(FnInvocation {
                        fn_name: Identifier::from_text("circle"),
                        args: vec![name("radius"), name("center")],
                    })),
                },
                return_type: Identifier::from_text("Solid2D"),
            },
            "\
            bigCircle = (center: Point2D -> Solid2D) =>
                let
                    radius = (14 * 100)
                in circle(radius, center)"
                .to_string(),
        ),
    ])
}

#[test]
fn parser_let_in() {
    assert_parse(vec![
        (
            Expression::LetIn {
                bindings: vec![
                    Assignment {
                        identifier: Identifier::from_text("x"),
                        value: number(1),
                    },
                    Assignment {
                        identifier: Identifier::from_text("y"),
                        value: name("x"),
                    },
                ],
                body: Box::new(name("y")),
            },
            r#"let
    x = 1
    y = x
in y"#
                .to_string(),
        ),
        (
            Expression::LetIn {
                bindings: vec![Assignment {
                    identifier: Identifier::from_text("radius"),
                    value: Expression::Arithmetic {
                        lhs: Box::new(number(14)),
                        op: Operator::Mul,
                        rhs: Box::new(number(100)),
                    },
                }],
                body: Box::new(Expression::FnInvocation(FnInvocation {
                    fn_name: Identifier::from_text("circle"),
                    args: vec![name("radius"), name("center")],
                })),
            },
            r#"let
            radius = (14 * 100)
        in circle(radius, center)"#
                .to_string(),
        ),
    ])
}

#[test]
fn parser_test_assignment() {
    let valid_lhs = ["亞當", "n", "n123"];
    let tests = valid_lhs
        .into_iter()
        .flat_map(|lhs| {
            vec![
                (
                    Assignment {
                        identifier: Identifier::from_text(lhs),
                        value: Expression::FnInvocation(FnInvocation {
                            fn_name: Identifier::from_text("foo"),
                            args: vec![number(100)],
                        }),
                    },
                    format!("{lhs} = foo(100)"),
                ),
                (
                    Assignment {
                        identifier: Identifier::from_text(lhs),
                        value: number(100),
                    },
                    format!("{lhs} = 100"),
                ),
            ]
        })
        .collect();
    assert_parse(tests)
}

#[test]
fn parser_test_invalid_variables() {
    let invalid_binding_names = [
        // These are genuinely invalid.
        "n(",
        "123",
        "n h",
        "let",
        "in",
        "0000000aassdfasdfasdfasdf013423452342134234234234",
        // The grammar rejects an underscore after the first character.
        "n_hello",
    ];
    for identifier in invalid_binding_names {
        let i = format!("{identifier} = 100");
        assert_not_parse::<Assignment>(&i)
    }
}

#[test]
fn implementations_test_expr_number() {
    assert_parse(vec![
        (number(123), "12_3".to_string()),
        (number(123), "123".to_string()),
        (number(1), "1".to_string()),
        (number(2), "2".to_string()),
    ]);
}

#[test]
fn implementations_test_expr_arith() {
    assert_parse(vec![
        (
            Expression::Arithmetic {
                lhs: Box::new(number(1)),
                op: Operator::Add,
                rhs: Box::new(number(2)),
            },
            "(1 + 2)".to_string(),
        ),
        (number(123), "123".to_string()),
    ]);
}

#[test]
fn implementations_valid_function_invocations() {
    assert_parse(vec![(
        Expression::FnInvocation(FnInvocation {
            fn_name: Identifier::from_text("sphere"),
            args: vec![number(1), number(2)],
        }),
        "sphere(1, 2)".to_string(),
    )])
}

#[test]
fn implementations_valid_function_definition() {
    assert_parse(vec![
        (
            FnDef {
                fn_name: Identifier::from_text("bigCircle"),
                params: vec![
                    Parameter {
                        name: Identifier::from_text("radius"),
                        kcl_type: Identifier::from_text("Distance"),
                    },
                    Parameter {
                        name: Identifier::from_text("center"),
                        kcl_type: Identifier::from_text("Point2D"),
                    },
                ],
                body: Expression::FnInvocation(FnInvocation {
                    fn_name: Identifier::from_text("circle"),
                    args: vec![name("radius")],
                }),
                return_type: Identifier::from_text("Solid2D"),
            },
            r#"bigCircle = (radius: Distance, center: Point2D -> Solid2D) => circle(radius)"#
                .to_string(),
        ),
        (
            FnDef {
                fn_name: Identifier::from_text("bigCircle"),
                params: vec![Parameter {
                    name: Identifier::from_text("center"),
                    kcl_type: Identifier::from_text("Point2D"),
                }],
                body: Expression::LetIn {
                    bindings: vec![Assignment {
                        identifier: Identifier::from_text("radius"),
                        value: Expression::Arithmetic {
                            lhs: Box::new(number(14)),
                            op: Operator::Mul,
                            rhs: Box::new(number(100)),
                        },
                    }],
                    body: Box::new(Expression::FnInvocation(FnInvocation {
                        fn_name: Identifier::from_text("circle"),
                        args: vec![name("radius"), name("center")],
                    })),
                },
                return_type: Identifier::from_text("Solid2D"),
            },
            "\
            bigCircle = (center: Point2D -> Solid2D) =>
                let
                    radius = (14 * 100)
                in circle(radius, center)"
                .to_string(),
        ),
    ])
}

#[test]
fn implementations_let_in() {
    assert_parse(vec![
        (
            Expression::LetIn {
                bindings: vec![
                    Assignment {
                        identifier: Identifier::from_text("x"),
                        value: number(1),
                    },
                    Assignment {
                        identifier: Identifier::from_text("y"),
                        value: name("x"),
                    },
                ],
                body: Box::new(name("y")),
            },
            r#"let
    x = 1
    y = x
in y"#
                .to_string(),
        ),
        (
            Expression::LetIn {
                bindings: vec![Assignment {
                    identifier: Identifier::from_text("radius"),
                    value: Expression::Arithmetic {
                        lhs: Box::new(number(14)),
                        op: Operator::Mul,
                        rhs: Box::new(number(100)),
                    },
                }],
                body: Box::new(Expression::FnInvocation(FnInvocation {
                    fn_name: Identifier::from_text("circle"),
                    args: vec![name("radius"), name("center")],
                })),
            },
            r#"let
                radius = (14 * 100)
            in circle(radius, center)"#
                .to_string(),
        ),
    ])
}

#[test]
fn implementations_test_assignment() {
    let valid_lhs = ["n"];
    let tests: Vec<_> = valid_lhs
        .into_iter()
        .flat_map(|lhs| {
            vec![
                (
                    Assignment {
                        identifier: Identifier::from_text(lhs),
                        value: Expression::FnInvocation(FnInvocation {
                            fn_name: Identifier::from_text("foo"),
                            args: vec![number(100)],
                        }),
                    },
                    format!("{lhs} = foo(100)"),
                ),
                (
                    Assignment {
                        identifier: Identifier::from_text(lhs),
                        value: number(100),
                    },
                    format!("{lhs} = 100"),
                ),
            ]
        })
        .collect();
    assert_parse(tests)
}

#[test]
fn implementations_test_invalid_variables() {
    let invalid_binding_names = [
        // These are genuinely invalid.
        "n(",
        "123",
        "n h",
        "let",
        "in",
        "0000000aassdfasdfasdfasdf013423452342134234234234",
        // The grammar rejects an underscore after the first character.
        "n_hello",
    ];
    for identifier in invalid_binding_names {
        let i = format!("{identifier} = 100");
        assert_not_parse::<Assignment>(&i)
    }
}

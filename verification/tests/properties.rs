//! Behavioural tests: the concrete scenarios the language promises, the
//! diagnostic shapes of the failure cases, and parse-after-render
//! idempotence on canonical output.
use compiler::ast::{Assignment, Expression, FnDef, FnInvocation, Identifier, Operator, Parameter};
use compiler::displayable_error::{ContextLabel, ErrorLabel};
use compiler::input::Input;
use compiler::parser::Parser;

fn chars(s: &str) -> Vec<char> {
    s.chars().collect()
}

fn text_of(id: &Identifier) -> String {
    id.text.iter().collect()
}

// ---------------------------------------------------------------------------
// Canonical rendering, for the idempotence tests
// ---------------------------------------------------------------------------

fn render_expr(e: &Expression) -> String {
    match e {
        Expression::Number(n) => n.to_string(),
        Expression::Name(id) => text_of(id),
        Expression::FnInvocation(inv) => {
            let args: Vec<String> = inv.args.iter().map(render_expr).collect();
            format!("{}({})", text_of(&inv.fn_name), args.join(", "))
        }
        Expression::LetIn { bindings, body } => {
            let mut out = String::from("let\n");
            for b in bindings {
                out.push_str(&format!(
                    "    {} = {}\n",
                    text_of(&b.identifier),
                    render_expr(&b.value)
                ));
            }
            out.push_str(&format!("in {}", render_expr(body)));
            out
        }
        Expression::Arithmetic { lhs, op, rhs } => {
            let op_char = match op {
                Operator::Add => '+',
                Operator::Sub => '-',
                Operator::Mul => '*',
                Operator::Div => '/',
            };
            format!("({} {} {})", render_expr(lhs), op_char, render_expr(rhs))
        }
    }
}

fn render_fndef(d: &FnDef) -> String {
    let params: Vec<String> = d
        .params
        .iter()
        .map(|p| format!("{}: {}", text_of(&p.name), text_of(&p.kcl_type)))
        .collect();
    format!(
        "{} = ({} -> {}) => {}",
        text_of(&d.fn_name),
        params.join(", "),
        text_of(&d.return_type),
        render_expr(&d.body)
    )
}

fn reparse_expr(s: &str) -> Expression {
    let src = chars(s);
    let (i, e) = Expression::parse(&src, Input::new()).expect("canonical text must re-parse");
    assert!(i.is_empty(&src), "canonical text must be consumed whole");
    e
}

// ---------------------------------------------------------------------------
// Scenarios
// ---------------------------------------------------------------------------

#[test]
fn scenario_program_listing() {
    let source = "bigCircle = (radius: Distance, center: Point2D -> Solid2D) => circle(radius)";
    let (i, ast) = compiler::parse(source).expect("the program should parse");
    assert_eq!(i.offset, source.chars().count());
    assert_eq!(ast.functions.len(), 1);
    let listing = ast.all_functions();
    assert_eq!(listing.len(), 1);
    let (name, range) = &listing[0];
    assert_eq!(name.iter().collect::<String>(), "bigCircle");
    assert_eq!(range.start_line, 1);
    assert_eq!(range.start_column, 1);
    assert_eq!(range.length, 9);
}

#[test]
fn scenario_two_functions() {
    // Function definitions follow each other with no separator: the second
    // begins right where the first one's body stops matching.
    let source = "a = ( -> T) => 1b = ( -> T) => 2";
    let (_, ast) = compiler::parse(source).expect("the program should parse");
    assert_eq!(ast.functions.len(), 2);
    let listing = ast.all_functions();
    assert_eq!(listing[0].0.iter().collect::<String>(), "a");
    assert_eq!(listing[0].1.start_line, 1);
    assert_eq!(listing[0].1.start_column, 1);
    assert_eq!(listing[0].1.length, 1);
    assert_eq!(listing[1].0.iter().collect::<String>(), "b");
    assert_eq!(listing[1].1.start_line, 1);
    assert_eq!(listing[1].1.start_column, 17);
    assert_eq!(listing[1].1.length, 1);
}

#[test]
fn scenario_empty_program() {
    let (i, ast) = compiler::parse("").expect("an empty program parses");
    assert_eq!(i.offset, 0);
    assert_eq!(ast.functions.len(), 0);
}

#[test]
fn scenario_unparsed_trailing_input() {
    let errors = compiler::parse("123abc").expect_err("a bare numeral is not a program");
    let last = errors.last().expect("the trace is never empty");
    assert_eq!(last.label, ErrorLabel::Context(ContextLabel::ProgramRoot));
    assert!(errors
        .iter()
        .any(|e| e.label == ErrorLabel::Context(ContextLabel::UnparsedInput)));
}

#[test]
fn scenario_diagnostic_positions() {
    // The function body fails on line 2, column 4; the innermost entry of
    // the trace points exactly there.
    let errors = compiler::parse("a = ( -> T) =>\n   @").expect_err("the body cannot parse");
    let first = &errors[0];
    assert_eq!(first.pos.offset, 18);
    assert_eq!(first.pos.line, 2);
    assert_eq!(first.pos.column, 4);
}

// ---------------------------------------------------------------------------
// Numerals
// ---------------------------------------------------------------------------

#[test]
fn numeral_at_the_64_bit_boundary() {
    let src = chars("18446744073709551615");
    let (i, e) = Expression::parse_num(&src, Input::new()).expect("the maximum fits");
    assert!(i.is_empty(&src));
    assert_eq!(e, Expression::Number(u64::MAX));
}

#[test]
fn numeral_overflow_diagnostic() {
    let src = chars("18446744073709551616");
    let errors = Expression::parse_num(&src, Input::new()).expect_err("one past the maximum");
    assert_eq!(errors[0].label, ErrorLabel::Context(ContextLabel::Overflow));
    assert_eq!(
        errors.last().unwrap().label,
        ErrorLabel::Context(ContextLabel::Number)
    );
}

#[test]
fn numeral_all_underscores_diagnostic() {
    let src = chars("___");
    let errors = Expression::parse_num(&src, Input::new()).expect_err("no digit at all");
    assert_eq!(
        errors[0].label,
        ErrorLabel::Context(ContextLabel::EmptyNumeral)
    );
}

#[test]
fn numeral_leading_underscore() {
    let src = chars("_1");
    let (i, e) = Expression::parse_num(&src, Input::new()).expect("underscores are ignored");
    assert!(i.is_empty(&src));
    assert_eq!(e, Expression::Number(1));
}

// ---------------------------------------------------------------------------
// Identifiers and operators
// ---------------------------------------------------------------------------

#[test]
fn reserved_keyword_diagnostic() {
    for kw in ["let", "in"] {
        let src = chars(kw);
        let errors = Identifier::parse(&src, Input::new()).expect_err("keywords are not names");
        assert_eq!(
            errors[0].label,
            ErrorLabel::Context(ContextLabel::ReservedKeyword)
        );
        assert_eq!(
            errors.last().unwrap().label,
            ErrorLabel::Context(ContextLabel::Identifier)
        );
    }
}

#[test]
fn keyword_prefixed_identifier_is_accepted() {
    let src = chars("letx");
    let (i, id) = Identifier::parse(&src, Input::new()).expect("only the exact keywords fail");
    assert!(i.is_empty(&src));
    assert_eq!(id, Identifier::from_text("letx"));
}

#[test]
fn operator_characters() {
    let cases = [
        ("+", Operator::Add),
        ("-", Operator::Sub),
        ("*", Operator::Mul),
        ("/", Operator::Div),
    ];
    for (s, expected) in cases {
        let src = chars(s);
        let (i, op) = Operator::parse(&src, Input::new()).expect("a valid operator");
        assert_eq!(i.offset, 1);
        assert_eq!(op, expected);
    }
    let src = chars("%");
    assert!(Operator::parse(&src, Input::new()).is_err());
}

#[test]
fn positioned_input_advance() {
    let src = chars("a\nbc");
    let start = Input::new();
    assert_eq!((start.offset, start.line, start.column), (0, 1, 1));
    let mid = start.advance(&src, 2);
    assert_eq!((mid.offset, mid.line, mid.column), (2, 2, 1));
    let end = mid.advance(&src, 2);
    assert_eq!((end.offset, end.line, end.column), (4, 2, 3));
}

// ---------------------------------------------------------------------------
// Parse-after-render idempotence on canonical output
// ---------------------------------------------------------------------------

#[test]
fn round_trip_arithmetic() {
    let e = Expression::Arithmetic {
        lhs: Box::new(Expression::Number(1)),
        op: Operator::Add,
        rhs: Box::new(Expression::Number(2)),
    };
    let rendered = render_expr(&e);
    assert_eq!(rendered, "(1 + 2)");
    assert_eq!(reparse_expr(&rendered), e);
}

#[test]
fn round_trip_invocation() {
    let e = Expression::FnInvocation(FnInvocation {
        fn_name: Identifier::from_text("sphere"),
        args: vec![Expression::Number(1), Expression::Number(2)],
    });
    let rendered = render_expr(&e);
    assert_eq!(rendered, "sphere(1, 2)");
    assert_eq!(reparse_expr(&rendered), e);
}

#[test]
fn round_trip_let_in() {
    let e = Expression::LetIn {
        bindings: vec![
            Assignment {
                identifier: Identifier::from_text("x"),
                value: Expression::Number(1),
            },
            Assignment {
                identifier: Identifier::from_text("y"),
                value: Expression::Name(Identifier::from_text("x")),
            },
        ],
        body: Box::new(Expression::Name(Identifier::from_text("y"))),
    };
    let rendered = render_expr(&e);
    assert_eq!(rendered, "let\n    x = 1\n    y = x\nin y");
    assert_eq!(reparse_expr(&rendered), e);
}

#[test]
fn round_trip_function_definition() {
    let d = FnDef {
        fn_name: Identifier::from_text("bigCircle"),
        params: vec![
            Parameter {
                name: Identifier::from_text("radius"),
                kcl_type: Identifier::from_text("Distance"),
            },
            Parameter {
                name: Identifier::from_text("center"),
                kcl_type: Identifier::from_text("Point2D"),
            },
        ],
        body: Expression::FnInvocation(FnInvocation {
            fn_name: Identifier::from_text("circle"),
            args: vec![Expression::Name(Identifier::from_text("radius"))],
        }),
        return_type: Identifier::from_text("Solid2D"),
    };
    let rendered = render_fndef(&d);
    assert_eq!(
        rendered,
        "bigCircle = (radius: Distance, center: Point2D -> Solid2D) => circle(radius)"
    );
    let src = chars(&rendered);
    let (i, actual) = FnDef::parse(&src, Input::new()).expect("canonical text must re-parse");
    assert!(i.is_empty(&src));
    assert_eq!(actual, d);
}

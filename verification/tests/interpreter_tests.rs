use gizmo::{
    apply_binary_operator, apply_index_operator, apply_unary_operator, array_value,
    create_frame_from_value, try_create_2d_frame, value_to_bool, values_equal, ArithmeticOp,
    BinaryOperator, Builtin, BuiltinFunctions, Environment, ErrorKind, Frame, GizmoError,
    Interpreter, Lexer, MathFunction, Number, NumberEngine, Parser, Program, UnaryOperator,
    Value,
};

struct Floats;

fn float(n: Number) -> f64 {
    f64::from_bits(n.bits)
}

fn bits(x: f64) -> Number {
    Number { bits: x.to_bits() }
}

impl NumberEngine for Floats {
    fn parse(&self, text: &str) -> Option<Number> {
        text.parse::<f64>().ok().map(bits)
    }

    fn arithmetic(&self, op: ArithmeticOp, left: Number, right: Number) -> Number {
        let a = float(left);
        let b = float(right);
        bits(match op {
            ArithmeticOp::Add => a + b,
            ArithmeticOp::Subtract => a - b,
            ArithmeticOp::Multiply => a * b,
            ArithmeticOp::Divide => a / b,
            ArithmeticOp::Remainder => a % b,
            ArithmeticOp::Power => a.powf(b),
            ArithmeticOp::Atan2 => a.atan2(b),
        })
    }

    fn function(&self, function: MathFunction, x: Number) -> Number {
        let a = float(x);
        bits(match function {
            MathFunction::Sin => a.sin(),
            MathFunction::Cos => a.cos(),
            MathFunction::Tan => a.tan(),
            MathFunction::Sqrt => a.sqrt(),
            MathFunction::Floor => a.floor(),
            MathFunction::Ceil => a.ceil(),
        })
    }

    fn random(&self) -> Number {
        bits(0.25)
    }

    fn show(&self, x: Number) -> String {
        let a = float(x);
        if a.fract() == 0.0 {
            format!("{}", a as i64)
        } else {
            format!("{}", a)
        }
    }
}

fn num(x: f64) -> Value {
    Value::Number(bits(x))
}

fn text(s: &str) -> Value {
    Value::String(s.to_string())
}

fn frame(rows: &[&str]) -> Frame {
    let data: Vec<Vec<bool>> = rows
        .iter()
        .map(|r| r.chars().map(|c| c == '#').collect())
        .collect();
    Frame::from_array(data).unwrap()
}

fn program(source: &str) -> Program {
    let tokens = Lexer::new(source).tokenize().unwrap();
    Parser::new(tokens).parse().unwrap()
}

fn run(source: &str) -> Interpreter<Floats> {
    let mut interpreter = Interpreter::new(Floats, 1000);
    interpreter.execute(&program(source)).unwrap();
    interpreter
}

fn run_error(source: &str) -> GizmoError {
    let mut interpreter = Interpreter::new(Floats, 1000);
    interpreter.execute(&program(source)).unwrap_err()
}

/// The value of `name` after running `source`.
fn value_of(source: &str, name: &str) -> Value {
    let mut interpreter = run(source);
    let lookup = program(name);
    match &lookup.statements[0] {
        gizmo::Statement::ExpressionStatement(e) => interpreter.evaluate_expression(e).unwrap(),
        other => panic!("unexpected {:?}", other),
    }
}

fn result_of(expression: &str) -> Value {
    value_of(&format!("r = {}", expression), "r")
}

#[test]
fn test_math_functions() {
    let builtins = BuiltinFunctions::new();

    let args = vec![num(0.0)];
    let result = builtins.call(&Floats, "sin", &args).unwrap();
    assert_eq!(result, num(0.0));

    let args = vec![num(4.0)];
    let result = builtins.call(&Floats, "sqrt", &args).unwrap();
    assert_eq!(result, num(2.0));

    let args = vec![num(3.7)];
    let result = builtins.call(&Floats, "floor", &args).unwrap();
    assert_eq!(result, num(3.0));
}

#[test]
fn test_frame_operations() {
    let builtins = BuiltinFunctions::new();

    let frame_data = vec![
        vec![true, false, true],
        vec![false, true, false],
        vec![true, false, true],
    ];
    let frame = Frame::from_array(frame_data).unwrap();

    let args = vec![
        Value::Frame(frame),
        num(1.0), // row
        num(1.0), // col
    ];

    let result = builtins.call(&Floats, "count_neighbors", &args).unwrap();
    assert_eq!(result, num(4.0));
}

#[test]
fn pattern_of_the_diagonal() {
    let v = value_of("frame d = pattern(3,3){ return row == col; }", "d");
    assert_eq!(v, Value::Frame(frame(&["#..", ".#.", "..#"])));
}

#[test]
fn pattern_rows_are_rows_and_columns_are_columns() {
    let v = value_of("frame d = pattern(3, 2) { return col > row }", "d");
    assert_eq!(v, Value::Frame(frame(&[".##", "..#"])));
}

#[test]
fn a_pattern_body_may_end_in_an_expression() {
    let v = value_of("frame d = pattern(2, 2) { s = row + col\n s == 1 }", "d");
    assert_eq!(v, Value::Frame(frame(&[".#", "#."])));
}

#[test]
fn a_pattern_body_without_a_result_gives_off_pixels() {
    assert_eq!(value_of("frame d = pattern(2, 1) { x = 1 }", "d"), Value::Frame(frame(&[".."])));
    assert_eq!(value_of("frame d = pattern(2, 1) { }", "d"), Value::Frame(frame(&[".."])));
}

#[test]
fn the_first_return_decides_a_pixel() {
    let v = value_of(
        "frame d = pattern(3, 1) {\n if col == 1 then return 1 end\n return 0\n}",
        "d",
    );
    assert_eq!(v, Value::Frame(frame(&[".#."])));
}

#[test]
fn a_pattern_of_no_rows() {
    match value_of("frame d = pattern(4, 0) { return 1 }", "d") {
        Value::Frame(f) => {
            assert_eq!(f.width, 4);
            assert_eq!(f.height, 0);
        }
        other => panic!("unexpected {:?}", other),
    }
}

#[test]
fn what_a_pixel_binds_is_gone_after_the_pixel() {
    let mut i = run("num x = 5\nframe d = pattern(2, 2) { x = x + 1\n y = 9\n return x == 6 }");
    let d = i.evaluate_expression(&gizmo::Expression::Identifier("d".to_string())).unwrap();
    assert_eq!(d, Value::Frame(frame(&["##", "##"])));
    let x = i.evaluate_expression(&gizmo::Expression::Identifier("x".to_string())).unwrap();
    assert_eq!(x, num(5.0));
    for name in ["y", "row", "col"] {
        let e = i
            .evaluate_expression(&gizmo::Expression::Identifier(name.to_string()))
            .unwrap_err();
        assert!(matches!(e, GizmoError::UndefinedVariable(n) if n == name));
    }
}

#[test]
fn a_failing_pixel_leaves_the_environment_as_it_was() {
    let mut i = Interpreter::new(Floats, 0);
    i.execute(&program("num x = 1")).unwrap();
    let e = i.execute(&program("frame d = pattern(2, 2) { x = 2\n return nothing }")).unwrap_err();
    assert!(matches!(e, GizmoError::UndefinedVariable(n) if n == "nothing"));
    let x = i.evaluate_expression(&gizmo::Expression::Identifier("x".to_string())).unwrap();
    assert_eq!(x, num(1.0));
    assert!(i
        .evaluate_expression(&gizmo::Expression::Identifier("row".to_string()))
        .is_err());
}

#[test]
fn generators_can_nest() {
    let v = value_of(
        "frame d = pattern(2, 2) {\n frame inner = pattern(2, 2) { return row == col }\n return get_pixel(inner, row, col)\n}",
        "d",
    );
    assert_eq!(v, Value::Frame(frame(&["#.", ".#"])));
}

#[test]
fn animate_binds_the_clock() {
    let v = value_of("frame d = animate(2, 1) using t { return t == 1000 }", "d");
    assert_eq!(v, Value::Frame(frame(&["##"])));
    let mut i = Interpreter::new(Floats, 1000);
    i.update(500);
    i.execute(&program("frame d = animate(1, 1) using now { return now == 1500 }")).unwrap();
    assert_eq!(
        i.evaluate_expression(&gizmo::Expression::Identifier("d".to_string())).unwrap(),
        Value::Frame(frame(&["#"]))
    );
}

#[test]
fn evolve_reads_the_previous_frame() {
    let v = value_of(
        "frame g = pattern(3, 3) { return col == 1 }\nframe n = evolve(3, 3) from g {\n c = count_neighbors(g, row, col)\n alive = get_pixel(g, row, col)\n return (alive and (c == 2 or c == 3)) or (not alive and c == 3)\n}",
        "n",
    );
    assert_eq!(v, Value::Frame(frame(&["...", "###", "..."])));
}

#[test]
fn evolve_without_a_previous_frame_is_a_runtime_error() {
    assert!(matches!(
        run_error("frame n = evolve(2, 2) from missing { return 1 }"),
        GizmoError::RuntimeError(_)
    ));
    assert!(matches!(
        run_error("num g = 1\nframe n = evolve(2, 2) from g { return 1 }"),
        GizmoError::RuntimeError(_)
    ));
}

#[test]
fn play_speed_clamps_the_frame_duration() {
    let i = run("frames fs = [[1, 0]]\nplay_speed(fs, 0)");
    assert_eq!(i.get_frame_duration_ms(), 1);
    let i = run("frames fs = [[1, 0]]\nplay_speed(fs, 50000)");
    assert_eq!(i.get_frame_duration_ms(), 10000);
    let i = run("frames fs = [[1, 0]]\nplay_speed(fs, 250)");
    assert_eq!(i.get_frame_duration_ms(), 250);
    let i = run("frames fs = [[1, 0]]\nplay_speed(fs, 0 - 5)");
    assert_eq!(i.get_frame_duration_ms(), 1);
    assert_eq!(i.get_animation_frames(), vec![frame(&["#."])]);
}

#[test]
fn the_default_frame_duration_is_100() {
    let i = Interpreter::new(Floats, 0);
    assert_eq!(i.get_frame_duration_ms(), 100);
    assert!(i.get_animation_frames().is_empty());
    assert_eq!(i.get_current_frame(), None);
    assert_eq!(i.render_current_frame(), None);
    assert!(i.get_output_frames().is_empty());
}

#[test]
fn click_handlers_run_on_every_click() {
    let mut i = run("num x = 0\nwhen clicked do x = x + 1 end");
    let x = gizmo::Expression::Identifier("x".to_string());
    assert_eq!(i.evaluate_expression(&x).unwrap(), num(0.0));
    i.handle_click_event().unwrap();
    i.handle_click_event().unwrap();
    assert_eq!(i.evaluate_expression(&x).unwrap(), num(2.0));
}

#[test]
fn a_click_without_a_handler_does_nothing() {
    let mut i = run("num x = 0");
    i.handle_click_event().unwrap();
    i.handle_idle_event(5).unwrap();
    assert_eq!(
        i.evaluate_expression(&gizmo::Expression::Identifier("x".to_string())).unwrap(),
        num(0.0)
    );
}

#[test]
fn idle_handlers_are_kept_by_their_limit() {
    let mut i = run(
        "num x = 0\nwhen idle > 5000 do x = x + 1 end\nwhen idle > 100.9 do x = x + 10 end",
    );
    let x = gizmo::Expression::Identifier("x".to_string());
    i.handle_idle_event(5000).unwrap();
    assert_eq!(i.evaluate_expression(&x).unwrap(), num(1.0));
    i.handle_idle_event(100).unwrap();
    assert_eq!(i.evaluate_expression(&x).unwrap(), num(11.0));
    i.handle_idle_event(4999).unwrap();
    assert_eq!(i.evaluate_expression(&x).unwrap(), num(11.0));
}

#[test]
fn a_later_handler_replaces_an_earlier_one() {
    let mut i = run("num x = 0\nwhen clicked do x = 1 end\nwhen clicked do x = 2 end");
    i.handle_click_event().unwrap();
    assert_eq!(
        i.evaluate_expression(&gizmo::Expression::Identifier("x".to_string())).unwrap(),
        num(2.0)
    );
}

#[test]
fn a_handler_body_does_not_run_when_it_is_registered() {
    let i = run("when clicked do play([[1]]) end");
    assert!(i.get_animation_frames().is_empty());
}

#[test]
fn a_failing_handler_reports_its_error() {
    let mut i = run("when clicked do x = missing end");
    assert!(matches!(i.handle_click_event(), Err(GizmoError::UndefinedVariable(_))));
}

#[test]
fn indexing_frames_and_frame_sequences() {
    let frames = Value::Frames(vec![frame(&["#"]), frame(&["."]), frame(&["##"])]);
    assert!(matches!(
        apply_index_operator(&frames, &num(5.0)),
        Err(GizmoError::IndexError(_))
    ));
    assert!(matches!(
        apply_index_operator(&frames, &num(3.0)),
        Err(GizmoError::IndexError(_))
    ));
    assert_eq!(
        apply_index_operator(&frames, &num(2.9)).unwrap(),
        Value::Frame(frame(&["##"]))
    );
    assert_eq!(
        apply_index_operator(&frames, &num(-0.0)).unwrap(),
        Value::Frame(frame(&["#"]))
    );
    for index in [-1.0, -0.5, f64::NAN, f64::NEG_INFINITY, f64::INFINITY] {
        assert!(matches!(
            apply_index_operator(&frames, &num(index)),
            Err(GizmoError::IndexError(_))
        ));
    }
    assert!(matches!(
        apply_index_operator(&num(7.0), &num(0.0)),
        Err(GizmoError::TypeError(_))
    ));
    assert!(matches!(
        apply_index_operator(&frames, &Value::Boolean(true)),
        Err(GizmoError::TypeError(_))
    ));
    let grid = Value::Frame(frame(&["#.", ".#", "##"]));
    assert_eq!(apply_index_operator(&grid, &num(1.0)).unwrap(), Value::Frame(frame(&[".#"])));
    for index in [-1.0, f64::NAN] {
        assert!(matches!(
            apply_index_operator(&grid, &num(index)),
            Err(GizmoError::IndexError(_))
        ));
    }
    match apply_index_operator(&grid, &num(3.0)) {
        Err(GizmoError::IndexError(msg)) => assert_eq!(msg, "Row index 3 out of bounds"),
        other => panic!("unexpected {:?}", other),
    }
}

#[test]
fn indexing_in_a_script() {
    assert!(matches!(
        run_error("frames fs = [[1], [0], [1]]\nx = fs[5]"),
        GizmoError::IndexError(_)
    ));
    assert!(matches!(run_error("num n = 3\nx = n[0]"), GizmoError::TypeError(_)));
    assert_eq!(
        value_of("frames fs = [[1, 1], [0, 1]]\nx = fs[1]", "x"),
        Value::Frame(frame(&[".#"]))
    );
}

#[test]
fn division_and_remainder_by_zero_fail() {
    for op in [BinaryOperator::Divide, BinaryOperator::Modulo] {
        for zero in [0.0, -0.0] {
            for left in [num(1.0), num(0.0), num(f64::NAN), Value::Boolean(true)] {
                assert!(matches!(
                    apply_binary_operator(&Floats, &left, op, &num(zero)),
                    Err(GizmoError::DivisionByZero)
                ));
            }
            assert!(matches!(
                apply_binary_operator(&Floats, &num(1.0), op, &Value::Boolean(false)),
                Err(GizmoError::DivisionByZero)
            ));
        }
    }
    for op in [BinaryOperator::Divide, BinaryOperator::Modulo] {
        for zero in ["0", "-0", "0.0", "0e5"] {
            for left in [num(1.0), text("7"), Value::Boolean(true)] {
                assert!(matches!(
                    apply_binary_operator(&Floats, &left, op, &text(zero)),
                    Err(GizmoError::DivisionByZero)
                ));
            }
        }
        assert!(matches!(
            apply_binary_operator(&Floats, &text("x"), op, &num(0.0)),
            Err(GizmoError::TypeError(_))
        ));
    }
    assert_eq!(
        apply_binary_operator(&Floats, &text("7"), BinaryOperator::Divide, &text("2")).unwrap(),
        num(3.5)
    );
    assert_eq!(
        apply_binary_operator(&Floats, &text("7"), BinaryOperator::Modulo, &text("2")).unwrap(),
        num(1.0)
    );
    assert!(matches!(run_error("x = 1 / 0"), GizmoError::DivisionByZero));
    assert!(matches!(run_error("x = 1 / \"0\""), GizmoError::DivisionByZero));
    assert!(matches!(run_error("x = 1 % (2 - 2)"), GizmoError::DivisionByZero));
    assert_eq!(GizmoError::DivisionByZero.to_text(), "Division by zero");
}

#[test]
fn arithmetic_on_numbers() {
    assert_eq!(result_of("1 + 2 * 3"), num(7.0));
    assert_eq!(result_of("7 - 10"), num(-3.0));
    assert_eq!(result_of("7 / 2"), num(3.5));
    assert_eq!(result_of("7 % 4"), num(3.0));
    assert_eq!(result_of("2 ^ 10"), num(1024.0));
    assert_eq!(result_of("2 ^ 3 ^ 2"), num(512.0));
    assert_eq!(result_of("-(2 + 3)"), num(-5.0));
    assert_eq!(result_of("0.5 + 0.25"), num(0.75));
}

#[test]
fn arithmetic_coerces_booleans_and_numeric_strings() {
    assert_eq!(result_of("(1 < 2) + (2 < 1) + 5"), num(6.0));
    assert_eq!(result_of("\"4\" * 2"), num(8.0));
    match run_error("x = \"four\" * 2") {
        GizmoError::TypeError(msg) => assert_eq!(msg, "Cannot convert string 'four' to number"),
        other => panic!("unexpected {:?}", other),
    }
    match run_error("x = [1] + 2") {
        GizmoError::TypeError(msg) => assert_eq!(msg, "Cannot convert frame to number"),
        other => panic!("unexpected {:?}", other),
    }
}

#[test]
fn comparisons_give_booleans() {
    assert_eq!(result_of("1 < 2"), Value::Boolean(true));
    assert_eq!(result_of("2 < 2"), Value::Boolean(false));
    assert_eq!(result_of("2 <= 2"), Value::Boolean(true));
    assert_eq!(result_of("3 > 2"), Value::Boolean(true));
    assert_eq!(result_of("2 >= 3"), Value::Boolean(false));
    assert_eq!(result_of("0 - 1 < 0"), Value::Boolean(true));
    for op in [
        BinaryOperator::Less,
        BinaryOperator::Greater,
        BinaryOperator::LessEqual,
        BinaryOperator::GreaterEqual,
    ] {
        assert_eq!(
            apply_binary_operator(&Floats, &num(f64::NAN), op, &num(1.0)).unwrap(),
            Value::Boolean(false)
        );
    }
    assert_eq!(
        apply_binary_operator(&Floats, &num(-0.0), BinaryOperator::Less, &num(0.0)).unwrap(),
        Value::Boolean(false)
    );
    assert_eq!(
        apply_binary_operator(&Floats, &num(-0.0), BinaryOperator::GreaterEqual, &num(0.0))
            .unwrap(),
        Value::Boolean(true)
    );
}

#[test]
fn equality_of_values() {
    let f = Value::Frame(frame(&["#."]));
    let g = Value::Frame(frame(&[".#"]));
    let fs = Value::Frames(vec![frame(&["#."])]);
    let values = vec![
        num(1.0),
        text("1"),
        Value::Boolean(true),
        f.duplicate(),
        fs.duplicate(),
    ];
    for (i, a) in values.iter().enumerate() {
        for (j, b) in values.iter().enumerate() {
            assert_eq!(values_equal(&Floats, a, b), i == j, "{:?} {:?}", a, b);
            assert_eq!(values_equal(&Floats, a, b), values_equal(&Floats, b, a));
        }
    }
    assert!(!values_equal(&Floats, &f, &g));
    assert!(!values_equal(&Floats, &text("a"), &text("b")));
    assert!(!values_equal(&Floats, &Value::Boolean(true), &Value::Boolean(false)));
    assert!(!values_equal(&Floats, &fs, &Value::Frames(vec![])));
    assert!(values_equal(&Floats, &Value::Frames(vec![]), &Value::Frames(vec![])));
}

#[test]
fn numbers_are_equal_within_the_machine_epsilon() {
    assert!(values_equal(&Floats, &num(0.1 + 0.2), &num(0.3)));
    assert!(values_equal(&Floats, &num(0.0), &num(-0.0)));
    assert!(values_equal(&Floats, &num(1e300), &num(1e300)));
    assert!(!values_equal(&Floats, &num(1.0), &num(1.0 + f64::EPSILON)));
    assert!(!values_equal(&Floats, &num(1.0), &num(2.0)));
    assert!(!values_equal(&Floats, &num(f64::NAN), &num(f64::NAN)));
    assert!(!values_equal(&Floats, &num(f64::INFINITY), &num(f64::INFINITY)));
    assert_eq!(result_of("1 == 1"), Value::Boolean(true));
    assert_eq!(result_of("1 != 1"), Value::Boolean(false));
    assert_eq!(result_of("1 == \"1\""), Value::Boolean(false));
    assert_eq!(result_of("1 != \"1\""), Value::Boolean(true));
}

#[test]
fn logic_short_circuits() {
    assert_eq!(result_of("0 and missing"), Value::Boolean(false));
    assert_eq!(result_of("1 or missing"), Value::Boolean(true));
    assert!(matches!(run_error("r = 1 and missing"), GizmoError::UndefinedVariable(_)));
    assert!(matches!(run_error("r = 0 or missing"), GizmoError::UndefinedVariable(_)));
    assert_eq!(result_of("1 and \"x\""), Value::Boolean(true));
    assert_eq!(result_of("1 and \"\""), Value::Boolean(false));
    assert_eq!(result_of("0 or [1]"), Value::Boolean(true));
    assert_eq!(result_of("not 0"), Value::Boolean(true));
    assert_eq!(result_of("not \"text\""), Value::Boolean(false));
}

#[test]
fn operators_on_values() {
    assert_eq!(
        apply_binary_operator(&Floats, &text("a"), BinaryOperator::And, &num(0.0)).unwrap(),
        Value::Boolean(false)
    );
    assert_eq!(
        apply_binary_operator(&Floats, &text(""), BinaryOperator::Or, &num(2.0)).unwrap(),
        Value::Boolean(true)
    );
    assert_eq!(
        apply_unary_operator(&Floats, UnaryOperator::Minus, &num(2.5)).unwrap(),
        num(-2.5)
    );
    assert_eq!(
        apply_unary_operator(&Floats, UnaryOperator::Minus, &Value::Boolean(true)).unwrap(),
        num(-1.0)
    );
    assert_eq!(
        apply_unary_operator(&Floats, UnaryOperator::Not, &Value::Frames(vec![])).unwrap(),
        Value::Boolean(true)
    );
    assert!(matches!(
        apply_unary_operator(&Floats, UnaryOperator::Minus, &Value::Frames(vec![])),
        Err(GizmoError::TypeError(_))
    ));
}

#[test]
fn the_conditional_evaluates_one_branch() {
    assert_eq!(result_of("1 ? 2 : missing"), num(2.0));
    assert_eq!(result_of("0 ? missing : 3"), num(3.0));
}

#[test]
fn array_literals_of_numbers_are_one_row_frames() {
    assert_eq!(result_of("[0, 1, 2, 0]"), Value::Frame(frame(&[".##."])));
    assert_eq!(
        array_value(&vec![num(0.0), num(-0.0), num(0.5), num(f64::NAN)]).unwrap(),
        Value::Frame(frame(&["..##"]))
    );
}

#[test]
fn array_literals_of_frames_are_frame_sequences() {
    assert_eq!(
        result_of("[[1, 0], [0, 1]]"),
        Value::Frames(vec![frame(&["#."]), frame(&[".#"])])
    );
    assert_eq!(result_of("[]"), Value::Frames(vec![]));
    assert_eq!(
        array_value(&vec![Value::Frame(frame(&["#", "."]))]).unwrap(),
        Value::Frames(vec![frame(&["#", "."])])
    );
}

#[test]
fn mixed_array_literals_are_type_errors() {
    assert!(matches!(run_error("x = [1, [1]]"), GizmoError::TypeError(_)));
    assert!(matches!(run_error("x = [\"a\"]"), GizmoError::TypeError(_)));
    assert!(matches!(
        array_value(&vec![Value::Frame(frame(&["#"])), Value::Boolean(true)]),
        Err(GizmoError::TypeError(_))
    ));
}

#[test]
fn stacking_one_row_frames() {
    let rows = vec![Value::Frame(frame(&["#."])), Value::Frame(frame(&[".#"]))];
    assert_eq!(try_create_2d_frame(&rows).unwrap(), Value::Frame(frame(&["#.", ".#"])));
    assert!(matches!(try_create_2d_frame(&vec![]), Err(GizmoError::TypeError(_))));
    assert!(matches!(
        try_create_2d_frame(&vec![Value::Frame(frame(&["#", "."]))]),
        Err(GizmoError::TypeError(_))
    ));
    assert!(matches!(
        try_create_2d_frame(&vec![Value::Frame(frame(&["#"])), num(1.0)]),
        Err(GizmoError::TypeError(_))
    ));
    assert!(matches!(
        try_create_2d_frame(&vec![Value::Frame(frame(&["#."])), Value::Frame(frame(&["#"]))]),
        Err(GizmoError::InvalidFrameSize(_))
    ));
}

#[test]
fn undefined_names() {
    match run_error("x = y") {
        GizmoError::UndefinedVariable(name) => assert_eq!(name, "y"),
        other => panic!("unexpected {:?}", other),
    }
    match run_error("x = nothing(1)") {
        GizmoError::UndefinedFunction(name) => assert_eq!(name, "nothing"),
        other => panic!("unexpected {:?}", other),
    }
    assert_eq!(
        GizmoError::UndefinedFunction("f".to_string()).to_text(),
        "Undefined function: f"
    );
}

#[test]
fn the_name_time_is_the_clock_unless_it_is_bound() {
    assert_eq!(result_of("time"), num(1000.0));
    assert_eq!(value_of("time = 3\nr = time", "r"), num(3.0));
}

#[test]
fn if_runs_the_first_true_branch() {
    let source = |n: i32| {
        format!(
            "num n = {}\nnum r = 0\nif n == 1 then r = 10 elsif n == 2 then r = 20 elsif n == 3 then r = 30 else r = 40 end",
            n
        )
    };
    assert_eq!(value_of(&source(1), "r"), num(10.0));
    assert_eq!(value_of(&source(2), "r"), num(20.0));
    assert_eq!(value_of(&source(3), "r"), num(30.0));
    assert_eq!(value_of(&source(4), "r"), num(40.0));
    assert_eq!(value_of("r = 1\nif 0 then r = 2 end", "r"), num(1.0));
}

#[test]
fn repeat_runs_its_body_that_often() {
    assert_eq!(value_of("num x = 0\nrepeat 4 times do x = x + 1 end", "x"), num(4.0));
    assert_eq!(value_of("num x = 0\nrepeat 2.9 times do x = x + 1 end", "x"), num(2.0));
    assert_eq!(value_of("num x = 0\nrepeat 0 - 3 times do x = x + 1 end", "x"), num(0.0));
    assert_eq!(value_of("num x = 0\nrepeat 0 times do x = x + 1 end", "x"), num(0.0));
    assert_eq!(
        value_of("num s = 0\nrepeat 4 times do s = s + time end", "s"),
        num(0.0 + 1.0 + 2.0 + 3.0)
    );
}

#[test]
fn return_ends_the_enclosing_blocks() {
    assert_eq!(
        value_of(
            "frame d = pattern(1, 1) {\n repeat 5 times do\n  if time == 2 then return 1 end\n end\n return 0\n}",
            "d"
        ),
        Value::Frame(frame(&["#"]))
    );
}

#[test]
fn a_return_at_the_top_level_ends_only_itself() {
    assert_eq!(value_of("x = 1\nreturn 5\nx = 2", "x"), num(2.0));
}

#[test]
fn what_ran_before_a_failure_stays_done() {
    let mut i = Interpreter::new(Floats, 0);
    let e = i.execute(&program("x = 1\nplay([[1, 1]])\ny = missing\nx = 2")).unwrap_err();
    assert!(matches!(e, GizmoError::UndefinedVariable(_)));
    assert_eq!(
        i.evaluate_expression(&gizmo::Expression::Identifier("x".to_string())).unwrap(),
        num(1.0)
    );
    assert_eq!(i.get_animation_frames(), vec![frame(&["##"])]);
}

#[test]
fn play_shows_frames() {
    let i = run("play([[1, 0], [0, 1]])");
    assert_eq!(i.get_animation_frames(), vec![frame(&["#."]), frame(&[".#"])]);
    assert_eq!(i.get_output_frames(), &[frame(&["#."]), frame(&[".#"])][..]);
    assert_eq!(i.get_current_frame(), Some(frame(&["#."])));
    assert_eq!(i.get_frame_duration_ms(), 100);
    assert_eq!(i.render_current_frame(), Some("#.\n".to_string()));
    let i = run("play([1, 0, 1])");
    assert_eq!(i.get_animation_frames(), vec![frame(&["#.#"])]);
}

#[test]
fn play_checks_its_arguments() {
    assert!(matches!(run_error("play(1)"), GizmoError::TypeError(_)));
    match run_error("play()") {
        GizmoError::ArgumentError(msg) => assert_eq!(msg, "play expects 1 argument, got 0"),
        other => panic!("unexpected {:?}", other),
    }
    assert!(matches!(run_error("loop([1])"), GizmoError::TypeError(_)));
    assert!(matches!(run_error("play_speed([[1]], \"fast\")"), GizmoError::TypeError(_)));
    match run_error("play_speed([[1]])") {
        GizmoError::ArgumentError(msg) => {
            assert_eq!(msg, "play_speed expects 2 arguments, got 1")
        }
        other => panic!("unexpected {:?}", other),
    }
}

#[test]
fn update_moves_playback_on() {
    let mut i = run("frames fs = [[1, 0], [0, 1], [1, 1]]\nloop_speed(fs, 100)");
    assert_eq!(i.get_frame_duration_ms(), 100);
    // The first update is always due: playback starts at time 0 and the clock at 1000.
    assert_eq!(i.update(0), Some(frame(&[".#"])));
    assert_eq!(i.update(99), Some(frame(&[".#"])));
    assert_eq!(i.update(1), Some(frame(&["##"])));
    assert_eq!(i.update(100), Some(frame(&["#."])));
    assert_eq!(i.render_current_frame(), Some("#.\n".to_string()));
}

#[test]
fn playback_without_loop_rests_on_the_last_frame() {
    let mut i = run("play_speed([[1], [0]], 10)");
    assert_eq!(i.update(10), Some(frame(&["."])));
    assert_eq!(i.update(10), Some(frame(&["."])));
    assert_eq!(i.update(1000), Some(frame(&["."])));
}

#[test]
fn update_without_playback_shows_nothing() {
    let mut i = run("x = 1");
    assert_eq!(i.update(1000), None);
    assert_eq!(i.update(u64::MAX), None);
    assert_eq!(i.update(5), None);
}

#[test]
fn stop_ends_playback_and_keeps_the_frames() {
    let mut i = run("play([[1]])\nstop()");
    assert_eq!(i.update(1000), None);
    assert_eq!(i.get_animation_frames(), vec![frame(&["#"])]);
}

#[test]
fn add_frame_appends_in_place() {
    assert_eq!(
        value_of("frames fs = []\nadd_frame(fs, [1, 0])\nadd_frame(fs, [0, 1])", "fs"),
        Value::Frames(vec![frame(&["#."]), frame(&[".#"])])
    );
    assert_eq!(
        value_of("num fs = 0\nadd_frame(fs, [1])", "fs"),
        Value::Frames(vec![frame(&["#"])])
    );
    assert_eq!(
        value_of("frames fs = [[1]]\nframes more = add_frame(fs, [0])", "more"),
        Value::Frames(vec![frame(&["#"]), frame(&["."])])
    );
    assert_eq!(
        value_of("frames fs = [[1]]\nframes more = add_frame([[0]], [1])", "fs"),
        Value::Frames(vec![frame(&["#"])])
    );
}

#[test]
fn add_frame_checks_its_arguments() {
    assert!(matches!(run_error("frames fs = []\nadd_frame(fs)"), GizmoError::ArgumentError(_)));
    assert!(matches!(run_error("frames fs = []\nadd_frame(fs, 1)"), GizmoError::TypeError(_)));
    assert!(matches!(run_error("add_frame(1, [1])"), GizmoError::TypeError(_)));
    assert!(matches!(run_error("add_frame(fs, [1])"), GizmoError::UndefinedVariable(_)));
}

#[test]
fn a_repeat_loop_builds_an_animation() {
    let i = run(
        "frames fs = []\nrepeat 3 times do\n add_frame(fs, pattern(3, 1) { return col == time })\nend\nloop_speed(fs, 40)",
    );
    assert_eq!(
        i.get_animation_frames(),
        vec![frame(&["#.."]), frame(&[".#."]), frame(&["..#"])]
    );
    assert_eq!(i.get_frame_duration_ms(), 40);
}

#[test]
fn builtins_compute() {
    let b = BuiltinFunctions::new();
    let call = |name: &str, args: Vec<Value>| b.call(&Floats, name, &args);
    assert_eq!(call("abs", vec![num(-2.5)]).unwrap(), num(2.5));
    assert_eq!(call("ceil", vec![num(2.1)]).unwrap(), num(3.0));
    assert_eq!(call("cos", vec![num(0.0)]).unwrap(), num(1.0));
    assert_eq!(call("tan", vec![num(0.0)]).unwrap(), num(0.0));
    assert_eq!(call("atan2", vec![num(0.0), num(1.0)]).unwrap(), num(0.0));
    assert_eq!(call("random", vec![]).unwrap(), num(0.25));
    assert_eq!(call("sqrt", vec![num(-0.0)]).unwrap(), num(-0.0));
    assert_eq!(call("floor", vec![Value::Boolean(true)]).unwrap(), num(1.0));
    assert_eq!(call("floor", vec![text("2.5")]).unwrap(), num(2.0));
    let grid = Value::Frame(frame(&["#.", ".."]));
    assert_eq!(call("get_pixel", vec![grid.duplicate(), num(0.0), num(0.0)]).unwrap(), num(1.0));
    assert_eq!(call("get_pixel", vec![grid.duplicate(), num(1.0), num(0.0)]).unwrap(), num(0.0));
    assert_eq!(
        call("set_pixel", vec![grid.duplicate(), num(1.0), num(1.0), num(1.0)]).unwrap(),
        Value::Frame(frame(&["#.", ".#"]))
    );
    assert_eq!(
        call("set_pixel", vec![grid.duplicate(), num(0.0), num(0.0), num(0.0)]).unwrap(),
        Value::Frame(frame(&["..", ".."]))
    );
    assert_eq!(call("flip", vec![grid.duplicate()]).unwrap(), Value::Frame(frame(&[".#", "##"])));
    assert_eq!(
        call("rotate", vec![grid.duplicate()]).unwrap(),
        Value::Frame(frame(&[".#", ".."]))
    );
    assert_eq!(
        call("create_frame", vec![num(3.0), num(2.0)]).unwrap(),
        Value::Frame(Frame::new(3, 2))
    );
    let fs = Value::Frames(vec![frame(&["#"]), frame(&["."])]);
    assert_eq!(call("last_frame", vec![fs.duplicate()]).unwrap(), Value::Frame(frame(&["."])));
    assert_eq!(
        call("add_frame", vec![fs.duplicate(), Value::Frame(frame(&["##"]))]).unwrap(),
        Value::Frames(vec![frame(&["#"]), frame(&["."]), frame(&["##"])])
    );
    assert_eq!(call("evolve_from", vec![grid.duplicate(), num(0.0)]).unwrap(), grid);
    assert_eq!(call("stop", vec![num(1.0), num(2.0)]).unwrap(), Value::Boolean(true));
    assert_eq!(call("play", vec![fs.duplicate()]).unwrap(), Value::Boolean(true));
}

#[test]
fn place_sprite_draws_on_a_canvas_of_128_by_128() {
    let b = BuiltinFunctions::new();
    let sprite = Value::Frame(frame(&["##", "#."]));
    let args = vec![sprite, num(126.5), num(-1.0)];
    match b.call(&Floats, "place_sprite", &args).unwrap() {
        Value::Frame(canvas) => {
            assert_eq!(canvas.width, 128);
            assert_eq!(canvas.height, 128);
            let mut expected = Frame::new(128, 128);
            expected.set_pixel(0, 126, true).unwrap();
            assert_eq!(canvas, expected);
        }
        other => panic!("unexpected {:?}", other),
    }
}

#[test]
fn builtins_check_their_arguments() {
    let b = BuiltinFunctions::new();
    let call = |name: &str, args: Vec<Value>| b.call(&Floats, name, &args);
    match call("sin", vec![]) {
        Err(GizmoError::ArgumentError(msg)) => assert_eq!(msg, "sin expects 1 argument, got 0"),
        other => panic!("unexpected {:?}", other),
    }
    match call("random", vec![num(1.0)]) {
        Err(GizmoError::ArgumentError(msg)) => {
            assert_eq!(msg, "random expects 0 arguments, got 1")
        }
        other => panic!("unexpected {:?}", other),
    }
    match call("count_neighbors", vec![num(1.0)]) {
        Err(GizmoError::ArgumentError(msg)) => {
            assert_eq!(msg, "count_neighbors expects 3 arguments, got 1")
        }
        other => panic!("unexpected {:?}", other),
    }
    match call("sqrt", vec![num(-1.0)]) {
        Err(GizmoError::RuntimeError(msg)) => assert_eq!(msg, "sqrt of negative number"),
        other => panic!("unexpected {:?}", other),
    }
    let grid = Value::Frame(frame(&["#.", ".."]));
    assert!(matches!(call("sin", vec![grid.duplicate()]), Err(GizmoError::TypeError(_))));
    assert!(matches!(call("flip", vec![num(1.0)]), Err(GizmoError::TypeError(_))));
    assert!(matches!(call("rotate", vec![text("x")]), Err(GizmoError::TypeError(_))));
    assert!(matches!(
        call("get_pixel", vec![grid.duplicate(), num(2.0), num(0.0)]),
        Err(GizmoError::IndexError(_))
    ));
    assert!(matches!(
        call("set_pixel", vec![grid.duplicate(), num(0.0), num(2.0), num(1.0)]),
        Err(GizmoError::IndexError(_))
    ));
    assert!(matches!(
        call("count_neighbors", vec![grid.duplicate(), num(0.0), num(9.0)]),
        Err(GizmoError::IndexError(_))
    ));
    for bad in [-1.0, f64::NAN] {
        assert!(matches!(
            call("get_pixel", vec![grid.duplicate(), num(bad), num(0.0)]),
            Err(GizmoError::IndexError(_))
        ));
        assert!(matches!(
            call("get_pixel", vec![grid.duplicate(), num(0.0), num(bad)]),
            Err(GizmoError::IndexError(_))
        ));
        assert!(matches!(
            call("set_pixel", vec![grid.duplicate(), num(bad), num(0.0), num(1.0)]),
            Err(GizmoError::IndexError(_))
        ));
        assert!(matches!(
            call("count_neighbors", vec![grid.duplicate(), num(0.0), num(bad)]),
            Err(GizmoError::IndexError(_))
        ));
    }
    assert!(matches!(
        call("get_pixel", vec![grid.duplicate(), text("x"), num(-1.0)]),
        Err(GizmoError::TypeError(_))
    ));
    assert_eq!(
        call("get_pixel", vec![grid.duplicate(), text("0"), Value::Boolean(false)]).unwrap(),
        num(1.0)
    );
    assert!(matches!(
        call("last_frame", vec![Value::Frames(vec![])]),
        Err(GizmoError::RuntimeError(_))
    ));
    assert!(matches!(call("last_frame", vec![grid.duplicate()]), Err(GizmoError::TypeError(_))));
    match call("nothing", vec![]) {
        Err(GizmoError::UndefinedFunction(name)) => assert_eq!(name, "nothing"),
        other => panic!("unexpected {:?}", other),
    }
}

#[test]
fn the_registry_knows_its_names() {
    let b = BuiltinFunctions::new();
    for name in [
        "sin", "cos", "tan", "sqrt", "floor", "ceil", "abs", "random", "atan2",
        "count_neighbors", "get_pixel", "set_pixel", "flip", "rotate", "place_sprite",
        "create_frame", "add_frame", "last_frame", "evolve_from", "play", "loop", "play_speed",
        "loop_speed", "stop",
    ] {
        assert!(b.has_function(name), "{}", name);
        assert!(b.get(name).is_some());
    }
    assert!(!b.has_function("sine"));
    assert!(!b.has_function(""));
    assert_eq!(b.get("rotate"), Some(Builtin::Rotate));
    assert_eq!(b.get("Rotate"), None);
}

#[test]
fn coercions_of_values() {
    assert_eq!(num(2.5).to_number(&Floats).unwrap(), bits(2.5));
    assert_eq!(Value::Boolean(true).to_number(&Floats).unwrap(), bits(1.0));
    assert_eq!(Value::Boolean(false).to_number(&Floats).unwrap(), bits(0.0));
    assert_eq!(text("3.5").to_number(&Floats).unwrap(), bits(3.5));
    assert!(matches!(text("").to_number(&Floats), Err(GizmoError::TypeError(_))));
    match Value::Frames(vec![]).to_number(&Floats) {
        Err(GizmoError::TypeError(msg)) => assert_eq!(msg, "Cannot convert frames to number"),
        other => panic!("unexpected {:?}", other),
    }
    assert!(num(0.1).is_truthy());
    assert!(num(f64::NAN).is_truthy());
    assert!(!num(0.0).is_truthy());
    assert!(!num(-0.0).is_truthy());
    assert!(text("0").is_truthy());
    assert!(!text("").is_truthy());
    assert!(Value::Frame(Frame::new(0, 0)).is_truthy());
    assert!(!Value::Frames(vec![]).is_truthy());
    assert!(Value::Frames(vec![Frame::new(1, 1)]).is_truthy());
    assert_eq!(num(1.0).variant_name(), "number");
    assert_eq!(text("").variant_name(), "string");
    assert_eq!(Value::Boolean(true).variant_name(), "boolean");
    assert_eq!(Value::Frame(Frame::new(1, 1)).variant_name(), "frame");
    assert_eq!(Value::Frames(vec![]).variant_name(), "frames");
}

#[test]
fn values_as_text() {
    assert_eq!(num(3.0).to_string(&Floats), "3");
    assert_eq!(num(3.5).to_string(&Floats), "3.5");
    assert_eq!(text("hi").to_string(&Floats), "hi");
    assert_eq!(Value::Boolean(true).to_string(&Floats), "true");
    assert_eq!(Value::Boolean(false).to_string(&Floats), "false");
    assert_eq!(Value::Frame(Frame::new(12, 7)).to_string(&Floats), "Frame(12x7)");
    assert_eq!(Value::Frames(vec![Frame::new(1, 1); 3]).to_string(&Floats), "Frames(3)");
}

#[test]
fn frames_from_values_and_pixels_from_values() {
    let f = frame(&["#."]);
    assert_eq!(create_frame_from_value(&Value::Frame(f.clone())).unwrap(), f);
    assert_eq!(
        create_frame_from_value(&Value::Frames(vec![f.clone(), Frame::new(1, 1)])).unwrap(),
        f
    );
    assert!(matches!(
        create_frame_from_value(&Value::Frames(vec![])),
        Err(GizmoError::RuntimeError(_))
    ));
    match create_frame_from_value(&num(1.0)) {
        Err(GizmoError::TypeError(msg)) => assert_eq!(msg, "Cannot convert number to frame"),
        other => panic!("unexpected {:?}", other),
    }
    assert_eq!(value_to_bool(&Value::Boolean(true)).unwrap(), true);
    assert_eq!(value_to_bool(&num(0.0)).unwrap(), false);
    assert_eq!(value_to_bool(&num(2.0)).unwrap(), true);
    match value_to_bool(&text("x")) {
        Err(GizmoError::TypeError(msg)) => assert_eq!(msg, "Cannot convert string to boolean"),
        other => panic!("unexpected {:?}", other),
    }
}

#[test]
fn inner_scopes_shadow_outer_ones() {
    let mut env = Environment::new();
    assert_eq!(env.depth(), 1);
    env.define("x".to_string(), num(1.0));
    env.define("y".to_string(), num(2.0));
    let mut env = Environment::new_enclosed(env);
    assert_eq!(env.depth(), 2);
    assert_eq!(env.get("x").unwrap(), num(1.0));
    env.define("x".to_string(), num(10.0));
    assert_eq!(env.get("x").unwrap(), num(10.0));
    assert_eq!(env.get("y").unwrap(), num(2.0));
    env.assign("y", num(20.0)).unwrap();
    env.assign("x", num(11.0)).unwrap();
    assert_eq!(env.get("x").unwrap(), num(11.0));
    env.pop_scope();
    assert_eq!(env.depth(), 1);
    assert_eq!(env.get("x").unwrap(), num(1.0));
    assert_eq!(env.get("y").unwrap(), num(20.0));
    env.pop_scope();
    assert_eq!(env.depth(), 1);
    match env.get("z") {
        Err(GizmoError::UndefinedVariable(name)) => assert_eq!(name, "z"),
        other => panic!("unexpected {:?}", other),
    }
    match env.assign("z", num(0.0)) {
        Err(e) => assert_eq!(e.error_kind(), ErrorKind::UndefinedVariable),
        other => panic!("unexpected {:?}", other),
    }
    env.define("x".to_string(), text("again"));
    assert_eq!(env.get("x").unwrap(), text("again"));
}

#[test]
fn errors_show_with_their_headings() {
    assert_eq!(GizmoError::LexError("a".to_string()).to_text(), "Lexical error: a");
    assert_eq!(GizmoError::ParseError("a".to_string()).to_text(), "Parse error: a");
    assert_eq!(GizmoError::RuntimeError("a".to_string()).to_text(), "Runtime error: a");
    assert_eq!(GizmoError::TypeError("a".to_string()).to_text(), "Type error: a");
    assert_eq!(GizmoError::IndexError("a".to_string()).to_text(), "Index error: a");
    assert_eq!(GizmoError::InvalidFrameSize("a".to_string()).to_text(), "Invalid frame size: a");
    assert_eq!(GizmoError::UndefinedVariable("a".to_string()).to_text(), "Undefined variable: a");
    assert_eq!(GizmoError::ArgumentError("a".to_string()).to_text(), "Argument error: a");
    assert_eq!(GizmoError::IOError("a".to_string()).to_text(), "IO error: a");
}

#[test]
fn decimal_text_writes_integers() {
    assert_eq!(gizmo::decimal_text(0), "0");
    assert_eq!(gizmo::decimal_text(7), "7");
    assert_eq!(gizmo::decimal_text(10), "10");
    assert_eq!(gizmo::decimal_text(1234567890), "1234567890");
    assert_eq!(gizmo::decimal_text(u64::MAX), "18446744073709551615");
}

#[test]
fn names_can_be_looked_up() {
    let i = run("num x = 4\ntext t = \"hi\"");
    assert_eq!(i.look_up("x").unwrap(), num(4.0));
    assert_eq!(i.look_up("t").unwrap(), text("hi"));
    match i.look_up("y") {
        Err(GizmoError::UndefinedVariable(name)) => assert_eq!(name, "y"),
        other => panic!("unexpected {:?}", other),
    }
    assert!(i.look_up("time").is_err());
}

#[test]
fn blocks_and_statements_can_be_run_directly() {
    let mut i = Interpreter::new(Floats, 0);
    let p = program("x = 1\nreturn x + 1\nx = 5");
    assert_eq!(i.execute_block(&p.statements).unwrap(), gizmo::Flow::Returned(num(2.0)));
    assert_eq!(i.look_up("x").unwrap(), num(1.0));
    assert_eq!(i.execute_statement(&p.statements[2]).unwrap(), gizmo::Flow::Normal);
    assert_eq!(i.look_up("x").unwrap(), num(5.0));
    assert_eq!(i.execute_block(&vec![]).unwrap(), gizmo::Flow::Normal);
}

#[test]
fn generators_can_be_run_directly() {
    let mut i = run("frame g = [1, 0]\nnum keep = 7");
    let body = program("return get_pixel(g, 0, col)").statements;
    assert_eq!(
        i.generate_pattern_frame(2, 2, &body).unwrap(),
        Value::Frame(frame(&["#.", "#."]))
    );
    let body = program("return now == 1000").statements;
    assert_eq!(
        i.generate_animated_frame(1, 1, &"now".to_string(), &body).unwrap(),
        Value::Frame(frame(&["#"]))
    );
    let body = program("return not get_pixel(g, 0, col)").statements;
    assert_eq!(
        i.generate_cellular_frame(2, 1, &"g".to_string(), &body).unwrap(),
        Value::Frame(frame(&[".#"]))
    );
    assert!(matches!(
        i.generate_cellular_frame(2, 1, &"keep".to_string(), &body),
        Err(GizmoError::RuntimeError(_))
    ));
    assert_eq!(i.look_up("keep").unwrap(), num(7.0));
    assert!(i.look_up("col").is_err());
}

#[test]
fn animation_controls_act_on_values() {
    let mut i = Interpreter::new(Floats, 0);
    let frames = Value::Frames(vec![frame(&["#"]), frame(&["."])]);
    assert_eq!(
        i.handle_animation_function(Builtin::LoopSpeed, &vec![frames.duplicate(), num(20000.0)])
            .unwrap(),
        Value::Boolean(true)
    );
    assert_eq!(i.get_frame_duration_ms(), 10000);
    assert_eq!(i.get_animation_frames().len(), 2);
    assert!(matches!(
        i.handle_animation_function(Builtin::Play, &vec![num(1.0)]),
        Err(GizmoError::TypeError(_))
    ));
    assert_eq!(i.get_animation_frames().len(), 2);
    assert_eq!(
        i.handle_animation_function(Builtin::Play, &vec![Value::Frame(frame(&["##"]))]).unwrap(),
        Value::Boolean(true)
    );
    assert_eq!(i.get_animation_frames(), vec![frame(&["##"])]);
    assert_eq!(i.get_frame_duration_ms(), 10000);
}

#[test]
fn a_numeral_that_the_engine_cannot_read_is_an_error() {
    struct Deaf;
    impl NumberEngine for Deaf {
        fn parse(&self, _text: &str) -> Option<Number> {
            None
        }
        fn arithmetic(&self, _op: ArithmeticOp, left: Number, _right: Number) -> Number {
            left
        }
        fn function(&self, _function: MathFunction, x: Number) -> Number {
            x
        }
        fn random(&self) -> Number {
            Number { bits: 0 }
        }
        fn show(&self, _x: Number) -> String {
            String::new()
        }
    }
    let mut i = Interpreter::new(Deaf, 0);
    match i.execute(&program("x = 12")) {
        Err(GizmoError::LexError(msg)) => assert_eq!(msg, "Invalid number '12'"),
        other => panic!("unexpected {:?}", other),
    }
}

/// An engine whose `random` answers with whatever it was given.
struct Loaded(f64);

impl NumberEngine for Loaded {
    fn parse(&self, text: &str) -> Option<Number> {
        Floats.parse(text)
    }
    fn arithmetic(&self, op: ArithmeticOp, left: Number, right: Number) -> Number {
        Floats.arithmetic(op, left, right)
    }
    fn function(&self, function: MathFunction, x: Number) -> Number {
        Floats.function(function, x)
    }
    fn random(&self) -> Number {
        bits(self.0)
    }
    fn show(&self, x: Number) -> String {
        Floats.show(x)
    }
}

#[test]
fn random_stays_in_the_unit_interval() {
    let b = BuiltinFunctions::new();
    for inside in [0.0, 0.25, 0.5, 0.999_999] {
        assert_eq!(b.call(&Loaded(inside), "random", &vec![]).unwrap(), num(inside));
    }
    for outside in [1.0, 1.5, -0.25, -0.0, f64::NAN, f64::INFINITY, f64::NEG_INFINITY] {
        assert_eq!(b.call(&Loaded(outside), "random", &vec![]).unwrap(), num(0.0));
    }
}

#[test]
fn numbers_that_differ_are_not_equal() {
    assert!(!values_equal(&Floats, &num(1.0), &num(2.0)));
    assert!(!values_equal(&Floats, &num(0.0), &num(1.0)));
    assert!(!values_equal(&Floats, &num(-3.0), &num(3.0)));
    assert!(values_equal(&Floats, &num(3.0), &num(3.0)));
    assert!(values_equal(&Floats, &num(0.0), &num(-0.0)));
    assert!(!values_equal(&Floats, &num(f64::NAN), &num(f64::NAN)));
    assert_eq!(result_of("1 == 2"), Value::Boolean(false));
    assert_eq!(result_of("1 != 2"), Value::Boolean(true));
}

#[test]
fn equality_asks_the_engine_for_the_difference() {
    struct Flat;
    impl NumberEngine for Flat {
        fn parse(&self, text: &str) -> Option<Number> {
            Floats.parse(text)
        }
        fn arithmetic(&self, _op: ArithmeticOp, _left: Number, _right: Number) -> Number {
            bits(0.0)
        }
        fn function(&self, _function: MathFunction, x: Number) -> Number {
            x
        }
        fn random(&self) -> Number {
            bits(0.0)
        }
        fn show(&self, _x: Number) -> String {
            String::new()
        }
    }
    assert!(values_equal(&Flat, &num(1.0), &num(2.0)));
    assert!(!values_equal(&Floats, &num(1.0), &num(2.0)));
}

#[test]
fn a_string_coerces_to_the_number_it_reads_as() {
    assert_eq!(text("2.5").to_number(&Floats).unwrap(), bits(2.5));
    assert_eq!(text("-4").to_number(&Floats).unwrap(), bits(-4.0));
    assert_eq!(text("0").to_number(&Floats).unwrap(), bits(0.0));
    match text("two").to_number(&Floats) {
        Err(GizmoError::TypeError(msg)) => {
            assert_eq!(msg, "Cannot convert string 'two' to number")
        }
        other => panic!("unexpected {:?}", other),
    }
    assert_eq!(
        apply_binary_operator(&Floats, &text("2"), BinaryOperator::Add, &text("3")).unwrap(),
        num(5.0)
    );
    assert_eq!(
        apply_binary_operator(&Floats, &num(2.0), BinaryOperator::Subtract, &num(3.0)).unwrap(),
        num(-1.0)
    );
}

#[test]
fn a_numeral_is_the_number_that_the_engine_reads() {
    assert_eq!(result_of("12"), num(12.0));
    assert_eq!(result_of("0.5"), num(0.5));
    assert_eq!(value_of("num x = 0\nx = x + 1\nx = x + 1", "x"), num(2.0));
}

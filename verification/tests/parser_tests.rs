use gizmo::{
    BinaryOperator, Event, Expression, GizmoError, Lexer, Parser, Program, Statement, Token,
    UnaryOperator, VariableType,
};

fn parse(source: &str) -> Program {
    let tokens = Lexer::new(source).tokenize().unwrap();
    Parser::new(tokens).parse().unwrap()
}

fn parse_error(source: &str) -> String {
    let tokens = Lexer::new(source).tokenize().unwrap();
    match Parser::new(tokens).parse() {
        Err(GizmoError::ParseError(msg)) => msg,
        other => panic!("expected a parse error, got {:?}", other),
    }
}

fn expr(source: &str) -> Expression {
    let mut program = parse(source);
    assert_eq!(program.statements.len(), 1);
    match program.statements.remove(0) {
        Statement::ExpressionStatement(e) => e,
        other => panic!("expected an expression statement, got {:?}", other),
    }
}

fn num(text: &str) -> Expression {
    Expression::Number(text.to_string())
}

fn id(name: &str) -> Expression {
    Expression::Identifier(name.to_string())
}

fn bin(left: Expression, operator: BinaryOperator, right: Expression) -> Expression {
    Expression::Binary { left: Box::new(left), operator, right: Box::new(right) }
}

#[test]
fn test_variable_declaration() {
    let mut lexer = Lexer::new("frame eye = [0, 1];");
    let tokens = lexer.tokenize().unwrap();
    let mut parser = Parser::new(tokens);
    let program = parser.parse().unwrap();

    assert_eq!(program.statements.len(), 1);
    match &program.statements[0] {
        Statement::VariableDeclaration { var_type, name, .. } => {
            assert_eq!(*var_type, VariableType::Frame);
            assert_eq!(name, "eye");
        }
        _ => panic!("Expected variable declaration"),
    }
}

#[test]
fn test_function_call() {
    let mut lexer = Lexer::new("play([eye_open, eye_closed]);");
    let tokens = lexer.tokenize().unwrap();
    let mut parser = Parser::new(tokens);
    let program = parser.parse().unwrap();

    assert_eq!(program.statements.len(), 1);
    match &program.statements[0] {
        Statement::ExpressionStatement(Expression::FunctionCall { name, args }) => {
            assert_eq!(name, "play");
            assert_eq!(args.len(), 1);
        }
        _ => panic!("Expected function call"),
    }
}

#[test]
fn declarations_of_every_type() {
    let program = parse("frame a = 1\nframes b = 2\nnum c = 3\ntext d = \"x\"");
    let types: Vec<VariableType> = program
        .statements
        .iter()
        .map(|s| match s {
            Statement::VariableDeclaration { var_type, .. } => *var_type,
            other => panic!("unexpected {:?}", other),
        })
        .collect();
    assert_eq!(
        types,
        vec![VariableType::Frame, VariableType::Frames, VariableType::Num, VariableType::Text]
    );
    assert_eq!(
        program.statements[3],
        Statement::VariableDeclaration {
            var_type: VariableType::Text,
            name: "d".to_string(),
            value: Expression::String("x".to_string()),
        }
    );
}

#[test]
fn an_empty_program_has_no_statements() {
    assert_eq!(parse("").statements.len(), 0);
    assert_eq!(parse("\n\n  \n// nothing\n").statements.len(), 0);
}

#[test]
fn assignment_is_told_from_a_call_by_the_equal_sign() {
    let program = parse("x = x + 1\nx(1)\nx");
    assert_eq!(
        program.statements,
        vec![
            Statement::Assignment {
                name: "x".to_string(),
                value: bin(id("x"), BinaryOperator::Add, num("1")),
            },
            Statement::ExpressionStatement(Expression::FunctionCall {
                name: "x".to_string(),
                args: vec![num("1")],
            }),
            Statement::ExpressionStatement(id("x")),
        ]
    );
}

#[test]
fn products_bind_tighter_than_sums() {
    assert_eq!(
        expr("1 + 2 * 3"),
        bin(num("1"), BinaryOperator::Add, bin(num("2"), BinaryOperator::Multiply, num("3")))
    );
    assert_eq!(
        expr("1 * 2 + 3"),
        bin(bin(num("1"), BinaryOperator::Multiply, num("2")), BinaryOperator::Add, num("3"))
    );
}

#[test]
fn operators_of_one_level_group_to_the_left() {
    assert_eq!(
        expr("1 - 2 - 3"),
        bin(bin(num("1"), BinaryOperator::Subtract, num("2")), BinaryOperator::Subtract, num("3"))
    );
    assert_eq!(
        expr("8 / 4 % 3"),
        bin(bin(num("8"), BinaryOperator::Divide, num("4")), BinaryOperator::Modulo, num("3"))
    );
    assert_eq!(
        expr("a < b >= c"),
        bin(bin(id("a"), BinaryOperator::Less, id("b")), BinaryOperator::GreaterEqual, id("c"))
    );
}

#[test]
fn power_groups_to_the_right_and_binds_tighter_than_products() {
    assert_eq!(
        expr("2 ^ 3 ^ 4"),
        bin(num("2"), BinaryOperator::Power, bin(num("3"), BinaryOperator::Power, num("4")))
    );
    assert_eq!(
        expr("2 * 3 ^ 4"),
        bin(num("2"), BinaryOperator::Multiply, bin(num("3"), BinaryOperator::Power, num("4")))
    );
}

#[test]
fn the_levels_of_binding_from_or_down_to_comparison() {
    assert_eq!(
        expr("a or b and c == d < e"),
        bin(
            id("a"),
            BinaryOperator::Or,
            bin(
                id("b"),
                BinaryOperator::And,
                bin(id("c"), BinaryOperator::Equal, bin(id("d"), BinaryOperator::Less, id("e"))),
            ),
        )
    );
    assert_eq!(
        expr("a != b > c"),
        bin(id("a"), BinaryOperator::NotEqual, bin(id("b"), BinaryOperator::Greater, id("c")))
    );
    assert_eq!(
        expr("a <= b + c"),
        bin(id("a"), BinaryOperator::LessEqual, bin(id("b"), BinaryOperator::Add, id("c")))
    );
}

#[test]
fn unary_operators_bind_tighter_than_power() {
    assert_eq!(
        expr("-a ^ b"),
        bin(
            Expression::Unary { operator: UnaryOperator::Minus, operand: Box::new(id("a")) },
            BinaryOperator::Power,
            id("b"),
        )
    );
    assert_eq!(
        expr("not not a"),
        Expression::Unary {
            operator: UnaryOperator::Not,
            operand: Box::new(Expression::Unary {
                operator: UnaryOperator::Not,
                operand: Box::new(id("a")),
            }),
        }
    );
}

#[test]
fn parentheses_override_the_levels() {
    assert_eq!(
        expr("(1 + 2) * 3"),
        bin(bin(num("1"), BinaryOperator::Add, num("2")), BinaryOperator::Multiply, num("3"))
    );
}

#[test]
fn the_conditional_binds_loosest_and_groups_to_the_right() {
    assert_eq!(
        expr("a or b ? 1 : c ? 2 : 3"),
        Expression::Conditional {
            condition: Box::new(bin(id("a"), BinaryOperator::Or, id("b"))),
            then_expr: Box::new(num("1")),
            else_expr: Box::new(Expression::Conditional {
                condition: Box::new(id("c")),
                then_expr: Box::new(num("2")),
                else_expr: Box::new(num("3")),
            }),
        }
    );
}

#[test]
fn calls_and_indices_follow_a_primary() {
    assert_eq!(
        expr("f(1, x)[2][y]"),
        Expression::Index {
            object: Box::new(Expression::Index {
                object: Box::new(Expression::FunctionCall {
                    name: "f".to_string(),
                    args: vec![num("1"), id("x")],
                }),
                index: Box::new(num("2")),
            }),
            index: Box::new(id("y")),
        }
    );
    assert_eq!(
        expr("f()"),
        Expression::FunctionCall { name: "f".to_string(), args: vec![] }
    );
}

#[test]
fn only_a_name_can_be_called() {
    assert_eq!(parse_error("1(2)"), "Can only call functions");
    assert_eq!(parse_error("f(1)(2)"), "Can only call functions");
}

#[test]
fn array_literals_allow_a_trailing_comma_and_line_breaks() {
    assert_eq!(expr("[]"), Expression::Array(vec![]));
    assert_eq!(expr("[1, 2,]"), Expression::Array(vec![num("1"), num("2")]));
    assert_eq!(
        expr("[\n  [1, 0],\n  [0, 1],\n]"),
        Expression::Array(vec![
            Expression::Array(vec![num("1"), num("0")]),
            Expression::Array(vec![num("0"), num("1")]),
        ])
    );
    assert_eq!(
        expr("f(\n 1,\n 2\n)"),
        Expression::FunctionCall { name: "f".to_string(), args: vec![num("1"), num("2")] }
    );
}

#[test]
fn an_expression_may_go_on_behind_a_line_break_after_an_operator() {
    assert_eq!(expr("1 +\n 2"), bin(num("1"), BinaryOperator::Add, num("2")));
}

#[test]
fn the_three_generators() {
    assert_eq!(
        expr("pattern(3, 4) { return row == col; }"),
        Expression::PatternGenerator {
            width: Box::new(num("3")),
            height: Box::new(num("4")),
            body: vec![Statement::ReturnStatement(bin(
                id("row"),
                BinaryOperator::Equal,
                id("col"),
            ))],
        }
    );
    assert_eq!(
        expr("animate(w, h) using t {\n x = t\n return x\n}"),
        Expression::AnimatedGenerator {
            width: Box::new(id("w")),
            height: Box::new(id("h")),
            time_var: "t".to_string(),
            body: vec![
                Statement::Assignment { name: "x".to_string(), value: id("t") },
                Statement::ReturnStatement(id("x")),
            ],
        }
    );
    assert_eq!(
        expr("evolve(8, 8) from prev { count_neighbors(prev, row, col) == 3 }"),
        Expression::CellularGenerator {
            width: Box::new(num("8")),
            height: Box::new(num("8")),
            prev_var: "prev".to_string(),
            body: vec![Statement::ExpressionStatement(bin(
                Expression::FunctionCall {
                    name: "count_neighbors".to_string(),
                    args: vec![id("prev"), id("row"), id("col")],
                },
                BinaryOperator::Equal,
                num("3"),
            ))],
        }
    );
}

#[test]
fn generators_demand_their_parts() {
    assert_eq!(parse_error("pattern 3"), "Expected '(', found '3'");
    assert_eq!(parse_error("pattern(3 4)"), "Expected ',', found '4'");
    assert_eq!(parse_error("pattern(3, 4 {"), "Expected ')', found '{'");
    assert_eq!(parse_error("pattern(3, 4) x"), "Expected '{', found 'x'");
    assert_eq!(parse_error("pattern(3, 4) { return 1"), "Expected '}', found 'EOF'");
    assert_eq!(parse_error("animate(3, 4) { }"), "Expected 'using', found '{'");
    assert_eq!(parse_error("animate(3, 4) using 5 { }"), "Expected identifier, found '5'");
    assert_eq!(parse_error("evolve(3, 4) using p { }"), "Expected 'from', found 'using'");
}

#[test]
fn if_with_elsif_and_else() {
    let program = parse("if a then\n x = 1\nelsif b then\n x = 2\nelsif c then\nelse\n x = 3\nend");
    assert_eq!(
        program.statements,
        vec![Statement::IfStatement {
            condition: id("a"),
            then_block: vec![Statement::Assignment { name: "x".to_string(), value: num("1") }],
            elsif_blocks: vec![
                (id("b"), vec![Statement::Assignment { name: "x".to_string(), value: num("2") }]),
                (id("c"), vec![]),
            ],
            else_block: Some(vec![Statement::Assignment {
                name: "x".to_string(),
                value: num("3"),
            }]),
        }]
    );
}

#[test]
fn if_without_else() {
    assert_eq!(
        parse("if a then b end;").statements,
        vec![Statement::IfStatement {
            condition: id("a"),
            then_block: vec![Statement::ExpressionStatement(id("b"))],
            elsif_blocks: vec![],
            else_block: None,
        }]
    );
}

#[test]
fn if_demands_then_and_end() {
    assert_eq!(parse_error("if a b end"), "Expected 'then', found 'b'");
    assert_eq!(parse_error("if a then b"), "Expected 'end', found 'EOF'");
    assert_eq!(parse_error("if a then b else c"), "Expected 'end', found 'EOF'");
    assert_eq!(parse_error("if a then b elsif c d end"), "Expected 'then', found 'd'");
}

#[test]
fn repeat_statement() {
    assert_eq!(
        parse("repeat 3 times do\n x = x + 1\nend").statements,
        vec![Statement::RepeatStatement {
            times: num("3"),
            body: vec![Statement::Assignment {
                name: "x".to_string(),
                value: bin(id("x"), BinaryOperator::Add, num("1")),
            }],
        }]
    );
    assert_eq!(parse_error("repeat 3 do end"), "Expected 'times', found 'do'");
    assert_eq!(parse_error("repeat 3 times end"), "Expected 'do', found 'end'");
    assert_eq!(parse_error("repeat 3 times do x"), "Expected 'end', found 'EOF'");
}

#[test]
fn when_statements() {
    assert_eq!(
        parse("when clicked do x = x + 1 end").statements,
        vec![Statement::WhenStatement {
            event: Event::Clicked,
            body: vec![Statement::Assignment {
                name: "x".to_string(),
                value: bin(id("x"), BinaryOperator::Add, num("1")),
            }],
        }]
    );
    assert_eq!(
        parse("when idle > 5000 do\n stop()\nend").statements,
        vec![Statement::WhenStatement {
            event: Event::Idle(num("5000")),
            body: vec![Statement::ExpressionStatement(Expression::FunctionCall {
                name: "stop".to_string(),
                args: vec![],
            })],
        }]
    );
    assert_eq!(parse_error("when idle 5 do end"), "Expected '>' after 'idle', found '5'");
    assert_eq!(parse_error("when x do end"), "Expected event type, found 'x'");
    assert_eq!(parse_error("when clicked x end"), "Expected 'do', found 'x'");
}

#[test]
fn return_statement() {
    assert_eq!(
        parse("return 1 + 2;").statements,
        vec![Statement::ReturnStatement(bin(num("1"), BinaryOperator::Add, num("2")))]
    );
}

#[test]
fn statements_end_at_a_semicolon_or_a_line_break() {
    assert_eq!(parse("a; b\nc;\n\nd").statements.len(), 4);
    assert_eq!(parse("a b").statements.len(), 2);
}

#[test]
fn declarations_demand_a_name_and_an_equal_sign() {
    assert_eq!(parse_error("frame = 1"), "Expected identifier, found '='");
    assert_eq!(parse_error("frame x 1"), "Expected '=', found '1'");
    assert_eq!(parse_error("num frame = 1"), "Expected identifier, found 'frame'");
}

#[test]
fn a_token_that_starts_no_expression_is_an_error() {
    assert_eq!(parse_error("x = )"), "Unexpected token ')'");
    assert_eq!(parse_error("end"), "Unexpected token 'end'");
    assert_eq!(parse_error("1 + * 2"), "Unexpected token '*'");
    assert_eq!(parse_error("x = \"a\" + then"), "Unexpected token 'then'");
}

#[test]
fn input_that_ends_too_soon_is_an_error() {
    assert_eq!(parse_error("x = ("), "Unexpected token 'EOF'");
    assert_eq!(parse_error("x = ["), "Unexpected token 'EOF'");
    assert_eq!(parse_error("x = 1 +"), "Unexpected token 'EOF'");
    assert_eq!(parse_error("x = -"), "Unexpected token 'EOF'");
    assert_eq!(parse_error("x = f(1"), "Expected ')', found 'EOF'");
    assert_eq!(parse_error("x = [1, 2"), "Expected ']', found 'EOF'");
    assert_eq!(parse_error("x = a[1"), "Expected ']', found 'EOF'");
    assert_eq!(parse_error("x = (1"), "Expected ')', found 'EOF'");
    assert_eq!(parse_error("x = a ? b"), "Expected ':', found 'EOF'");
    assert_eq!(parse_error("x = 1 +\n\n"), "Unexpected end of input");
}

#[test]
fn tokens_without_an_end_marker_are_parsed_too() {
    let tokens = vec![
        Token::Identifier("x".to_string()),
        Token::Equal,
        Token::Number("1".to_string()),
    ];
    let program = Parser::new(tokens).parse().unwrap();
    assert_eq!(
        program.statements,
        vec![Statement::Assignment { name: "x".to_string(), value: num("1") }]
    );
    let tokens = vec![Token::LeftParen];
    assert!(matches!(Parser::new(tokens).parse(), Err(GizmoError::ParseError(_))));
}

#[test]
fn parsing_the_same_source_twice_gives_the_same_tree() {
    let source = "num x = 0\nframe f = pattern(3, 3) { return row == col; }\nwhen clicked do x = x + 1 end\nif x > 1 then play([f]) elsif x then loop([f, f]) else stop() end\nrepeat 2 times do add_frame(fs, f) end";
    let first = parse(source);
    let second = parse(source);
    assert_eq!(first, second);
    assert_eq!(first.statements.len(), 5);
    assert_eq!(first.duplicate(), first);
}

#[test]
fn parser_helpers_walk_the_tokens() {
    let tokens = Lexer::new("a\n\nb").tokenize().unwrap();
    let mut parser = Parser::new(tokens);
    assert!(!parser.is_at_end());
    assert_eq!(parser.previous(), Token::Eof);
    assert_eq!(parser.peek(), Token::Identifier("a".to_string()));
    assert_eq!(parser.advance(), Token::Identifier("a".to_string()));
    parser.skip_newlines();
    assert_eq!(parser.peek(), Token::Identifier("b".to_string()));
    assert_eq!(parser.previous(), Token::Newline);
    assert_eq!(parser.advance(), Token::Identifier("b".to_string()));
    assert!(parser.is_at_end());
    assert_eq!(parser.peek(), Token::Eof);
    assert_eq!(parser.advance(), Token::Identifier("b".to_string()));
}

#[test]
fn single_statements_and_expressions_can_be_read() {
    let tokens = Lexer::new("x = 1; y").tokenize().unwrap();
    let mut parser = Parser::new(tokens);
    assert_eq!(
        parser.statement().unwrap(),
        Statement::Assignment { name: "x".to_string(), value: num("1") }
    );
    assert_eq!(parser.expression().unwrap(), id("y"));
    assert!(parser.is_at_end());
}

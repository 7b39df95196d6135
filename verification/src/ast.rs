//! The syntax tree: programs, statements and expressions, with their
//! mathematical views.

use vstd::prelude::*;

verus! {

/// A parsed script: its top-level statements in source order.
#[derive(Debug, PartialEq)]
pub struct Program {
    pub statements: Vec<Statement>,
}

/// The declared type of a variable.
#[derive(Debug, Clone, Copy, PartialEq, Eq, Structural)]
pub enum VariableType {
    Frame,
    Frames,
    Num,
    Text,
}

/// A binary operator.
#[derive(Debug, Clone, Copy, PartialEq, Eq, Structural)]
pub enum BinaryOperator {
    Add,
    Subtract,
    Multiply,
    Divide,
    Modulo,
    Power,
    Equal,
    NotEqual,
    Less,
    Greater,
    LessEqual,
    GreaterEqual,
    And,
    Or,
}

/// A unary operator.
#[derive(Debug, Clone, Copy, PartialEq, Eq, Structural)]
pub enum UnaryOperator {
    Not,
    Minus,
}

/// What a `when` statement waits for.
#[derive(Debug, PartialEq)]
pub enum Event {
    Clicked,
    /// Idle for longer than the given number of milliseconds.
    Idle(Expression),
}

/// A statement.
#[allow(inconsistent_fields)]
#[derive(Debug, PartialEq)]
pub enum Statement {
    VariableDeclaration { var_type: VariableType, name: String, value: Expression },
    Assignment { name: String, value: Expression },
    ExpressionStatement(Expression),
    IfStatement {
        condition: Expression,
        then_block: Vec<Statement>,
        elsif_blocks: Vec<(Expression, Vec<Statement>)>,
        else_block: Option<Vec<Statement>>,
    },
    RepeatStatement { times: Expression, body: Vec<Statement> },
    WhenStatement { event: Event, body: Vec<Statement> },
    ReturnStatement(Expression),
}

/// An expression.
#[allow(inconsistent_fields)]
#[derive(Debug, PartialEq)]
pub enum Expression {
    /// A numeral, as written in the source.
    Number(String),
    String(String),
    Boolean(bool),
    Identifier(String),
    Array(Vec<Expression>),
    FunctionCall { name: String, args: Vec<Expression> },
    Binary { left: Box<Expression>, operator: BinaryOperator, right: Box<Expression> },
    Unary { operator: UnaryOperator, operand: Box<Expression> },
    Index { object: Box<Expression>, index: Box<Expression> },
    /// `pattern(width, height) { body }`
    PatternGenerator { width: Box<Expression>, height: Box<Expression>, body: Vec<Statement> },
    /// `animate(width, height) using time_var { body }`
    AnimatedGenerator {
        width: Box<Expression>,
        height: Box<Expression>,
        time_var: String,
        body: Vec<Statement>,
    },
    /// `evolve(width, height) from prev_var { body }`
    CellularGenerator {
        width: Box<Expression>,
        height: Box<Expression>,
        prev_var: String,
        body: Vec<Statement>,
    },
    /// `condition ? then_expr : else_expr`
    Conditional {
        condition: Box<Expression>,
        then_expr: Box<Expression>,
        else_expr: Box<Expression>,
    },
}

/// The mathematical value of an `Event`.
pub enum EventView {
    Clicked,
    Idle(ExpressionView),
}

/// The mathematical value of a `Statement`.
#[allow(inconsistent_fields)]
pub enum StatementView {
    VariableDeclaration { var_type: VariableType, name: Seq<char>, value: ExpressionView },
    Assignment { name: Seq<char>, value: ExpressionView },
    ExpressionStatement(ExpressionView),
    IfStatement {
        condition: ExpressionView,
        then_block: Seq<StatementView>,
        elsif_blocks: Seq<(ExpressionView, Seq<StatementView>)>,
        else_block: Option<Seq<StatementView>>,
    },
    RepeatStatement { times: ExpressionView, body: Seq<StatementView> },
    WhenStatement { event: EventView, body: Seq<StatementView> },
    ReturnStatement(ExpressionView),
}

/// The mathematical value of an `Expression`.
#[allow(inconsistent_fields)]
pub enum ExpressionView {
    Number(Seq<char>),
    String(Seq<char>),
    Boolean(bool),
    Identifier(Seq<char>),
    Array(Seq<ExpressionView>),
    FunctionCall { name: Seq<char>, args: Seq<ExpressionView> },
    Binary { left: Box<ExpressionView>, operator: BinaryOperator, right: Box<ExpressionView> },
    Unary { operator: UnaryOperator, operand: Box<ExpressionView> },
    Index { object: Box<ExpressionView>, index: Box<ExpressionView> },
    PatternGenerator {
        width: Box<ExpressionView>,
        height: Box<ExpressionView>,
        body: Seq<StatementView>,
    },
    AnimatedGenerator {
        width: Box<ExpressionView>,
        height: Box<ExpressionView>,
        time_var: Seq<char>,
        body: Seq<StatementView>,
    },
    CellularGenerator {
        width: Box<ExpressionView>,
        height: Box<ExpressionView>,
        prev_var: Seq<char>,
        body: Seq<StatementView>,
    },
    Conditional {
        condition: Box<ExpressionView>,
        then_expr: Box<ExpressionView>,
        else_expr: Box<ExpressionView>,
    },
}

/// The view of an expression.
pub open spec fn expression_view(e: Expression) -> ExpressionView
    decreases e,
{
    match e {
        Expression::Number(s) => ExpressionView::Number(s@),
        Expression::String(s) => ExpressionView::String(s@),
        Expression::Boolean(b) => ExpressionView::Boolean(b),
        Expression::Identifier(s) => ExpressionView::Identifier(s@),
        Expression::Array(es) => ExpressionView::Array(expressions_view(es)),
        Expression::FunctionCall { name, args } => ExpressionView::FunctionCall {
            name: name@,
            args: expressions_view(args),
        },
        Expression::Binary { left, operator, right } => ExpressionView::Binary {
            left: Box::new(expression_view(*left)),
            operator,
            right: Box::new(expression_view(*right)),
        },
        Expression::Unary { operator, operand } => ExpressionView::Unary {
            operator,
            operand: Box::new(expression_view(*operand)),
        },
        Expression::Index { object, index } => ExpressionView::Index {
            object: Box::new(expression_view(*object)),
            index: Box::new(expression_view(*index)),
        },
        Expression::PatternGenerator { width, height, body } => ExpressionView::PatternGenerator {
            width: Box::new(expression_view(*width)),
            height: Box::new(expression_view(*height)),
            body: statements_view(body),
        },
        Expression::AnimatedGenerator {
            width,
            height,
            time_var,
            body,
        } => ExpressionView::AnimatedGenerator {
            width: Box::new(expression_view(*width)),
            height: Box::new(expression_view(*height)),
            time_var: time_var@,
            body: statements_view(body),
        },
        Expression::CellularGenerator {
            width,
            height,
            prev_var,
            body,
        } => ExpressionView::CellularGenerator {
            width: Box::new(expression_view(*width)),
            height: Box::new(expression_view(*height)),
            prev_var: prev_var@,
            body: statements_view(body),
        },
        Expression::Conditional { condition, then_expr, else_expr } => ExpressionView::Conditional {
            condition: Box::new(expression_view(*condition)),
            then_expr: Box::new(expression_view(*then_expr)),
            else_expr: Box::new(expression_view(*else_expr)),
        },
    }
}

/// The views of a list of expressions.
pub open spec fn expressions_view(es: Vec<Expression>) -> Seq<ExpressionView>
    decreases es,
{
    Seq::new(
        es@.len(),
        |i: int|
            if 0 <= i < es@.len() {
                expression_view(es@[i])
            } else {
                arbitrary()
            },
    )
}

/// The view of a statement.
pub open spec fn statement_view(s: Statement) -> StatementView
    decreases s,
{
    match s {
        Statement::VariableDeclaration { var_type, name, value } => StatementView::VariableDeclaration {
            var_type,
            name: name@,
            value: expression_view(value),
        },
        Statement::Assignment { name, value } => StatementView::Assignment {
            name: name@,
            value: expression_view(value),
        },
        Statement::ExpressionStatement(e) => StatementView::ExpressionStatement(expression_view(e)),
        Statement::IfStatement {
            condition,
            then_block,
            elsif_blocks,
            else_block,
        } => StatementView::IfStatement {
            condition: expression_view(condition),
            then_block: statements_view(then_block),
            elsif_blocks: elsifs_view(elsif_blocks),
            else_block: match else_block {
                Some(b) => Some(statements_view(b)),
                None => None,
            },
        },
        Statement::RepeatStatement { times, body } => StatementView::RepeatStatement {
            times: expression_view(times),
            body: statements_view(body),
        },
        Statement::WhenStatement { event, body } => StatementView::WhenStatement {
            event: match event {
                Event::Clicked => EventView::Clicked,
                Event::Idle(e) => EventView::Idle(expression_view(e)),
            },
            body: statements_view(body),
        },
        Statement::ReturnStatement(e) => StatementView::ReturnStatement(expression_view(e)),
    }
}

/// The views of a list of statements.
pub open spec fn statements_view(ss: Vec<Statement>) -> Seq<StatementView>
    decreases ss,
{
    Seq::new(
        ss@.len(),
        |i: int|
            if 0 <= i < ss@.len() {
                statement_view(ss@[i])
            } else {
                arbitrary()
            },
    )
}

/// The views of the `elsif` branches of an `if` statement.
pub open spec fn elsifs_view(bs: Vec<(Expression, Vec<Statement>)>) -> Seq<
    (ExpressionView, Seq<StatementView>),
>
    decreases bs,
{
    Seq::new(
        bs@.len(),
        |i: int|
            if 0 <= i < bs@.len() {
                (expression_view(bs@[i].0), statements_view(bs@[i].1))
            } else {
                arbitrary()
            },
    )
}

impl View for Expression {
    type V = ExpressionView;

    open spec fn view(&self) -> ExpressionView {
        expression_view(*self)
    }
}

impl View for Statement {
    type V = StatementView;

    open spec fn view(&self) -> StatementView {
        statement_view(*self)
    }
}

impl View for Program {
    type V = Seq<StatementView>;

    open spec fn view(&self) -> Seq<StatementView> {
        statements_view(self.statements)
    }
}

/// An independent copy of an expression.
pub fn duplicate_expression(e: &Expression) -> (r: Expression)
    ensures
        r@ == e@,
    decreases e,
{
    match e {
        Expression::Number(s) => Expression::Number(s.clone()),
        Expression::String(s) => Expression::String(s.clone()),
        Expression::Boolean(b) => Expression::Boolean(*b),
        Expression::Identifier(s) => Expression::Identifier(s.clone()),
        Expression::Array(es) => Expression::Array(duplicate_expressions(es)),
        Expression::FunctionCall { name, args } => Expression::FunctionCall {
            name: name.clone(),
            args: duplicate_expressions(args),
        },
        Expression::Binary { left, operator, right } => Expression::Binary {
            left: Box::new(duplicate_expression(left)),
            operator: *operator,
            right: Box::new(duplicate_expression(right)),
        },
        Expression::Unary { operator, operand } => Expression::Unary {
            operator: *operator,
            operand: Box::new(duplicate_expression(operand)),
        },
        Expression::Index { object, index } => Expression::Index {
            object: Box::new(duplicate_expression(object)),
            index: Box::new(duplicate_expression(index)),
        },
        Expression::PatternGenerator { width, height, body } => Expression::PatternGenerator {
            width: Box::new(duplicate_expression(width)),
            height: Box::new(duplicate_expression(height)),
            body: duplicate_statements(body),
        },
        Expression::AnimatedGenerator { width, height, time_var, body } => Expression::AnimatedGenerator {
            width: Box::new(duplicate_expression(width)),
            height: Box::new(duplicate_expression(height)),
            time_var: time_var.clone(),
            body: duplicate_statements(body),
        },
        Expression::CellularGenerator { width, height, prev_var, body } => Expression::CellularGenerator {
            width: Box::new(duplicate_expression(width)),
            height: Box::new(duplicate_expression(height)),
            prev_var: prev_var.clone(),
            body: duplicate_statements(body),
        },
        Expression::Conditional { condition, then_expr, else_expr } => Expression::Conditional {
            condition: Box::new(duplicate_expression(condition)),
            then_expr: Box::new(duplicate_expression(then_expr)),
            else_expr: Box::new(duplicate_expression(else_expr)),
        },
    }
}

/// An independent copy of a list of expressions.
pub fn duplicate_expressions(es: &Vec<Expression>) -> (r: Vec<Expression>)
    ensures
        expressions_view(r) == expressions_view(*es),
    decreases es,
{
    let mut out: Vec<Expression> = Vec::new();
    let mut i: usize = 0;
    while i < es.len()
        invariant
            i <= es@.len(),
            out@.len() == i,
            forall|j: int| 0 <= j < i ==> expression_view(#[trigger] out@[j]) == expression_view(es@[j]),
        decreases es@.len() - i,
    {
        out.push(duplicate_expression(&es[i]));
        i = i + 1;
    }
    assert(expressions_view(out) =~= expressions_view(*es));
    out
}

/// An independent copy of a statement.
pub fn duplicate_statement(s: &Statement) -> (r: Statement)
    ensures
        r@ == s@,
    decreases s,
{
    match s {
        Statement::VariableDeclaration { var_type, name, value } => Statement::VariableDeclaration {
            var_type: *var_type,
            name: name.clone(),
            value: duplicate_expression(value),
        },
        Statement::Assignment { name, value } => Statement::Assignment {
            name: name.clone(),
            value: duplicate_expression(value),
        },
        Statement::ExpressionStatement(e) => Statement::ExpressionStatement(duplicate_expression(e)),
        Statement::IfStatement { condition, then_block, elsif_blocks, else_block } => {
            let other = match else_block {
                Some(b) => Some(duplicate_statements(b)),
                None => None,
            };
            Statement::IfStatement {
                condition: duplicate_expression(condition),
                then_block: duplicate_statements(then_block),
                elsif_blocks: duplicate_elsifs(elsif_blocks),
                else_block: other,
            }
        },
        Statement::RepeatStatement { times, body } => Statement::RepeatStatement {
            times: duplicate_expression(times),
            body: duplicate_statements(body),
        },
        Statement::WhenStatement { event, body } => {
            let ev = match event {
                Event::Clicked => Event::Clicked,
                Event::Idle(e) => Event::Idle(duplicate_expression(e)),
            };
            Statement::WhenStatement { event: ev, body: duplicate_statements(body) }
        },
        Statement::ReturnStatement(e) => Statement::ReturnStatement(duplicate_expression(e)),
    }
}

/// An independent copy of a list of statements.
pub fn duplicate_statements(ss: &Vec<Statement>) -> (r: Vec<Statement>)
    ensures
        statements_view(r) == statements_view(*ss),
    decreases ss,
{
    let mut out: Vec<Statement> = Vec::new();
    let mut i: usize = 0;
    while i < ss.len()
        invariant
            i <= ss@.len(),
            out@.len() == i,
            forall|j: int| 0 <= j < i ==> statement_view(#[trigger] out@[j]) == statement_view(ss@[j]),
        decreases ss@.len() - i,
    {
        out.push(duplicate_statement(&ss[i]));
        i = i + 1;
    }
    assert(statements_view(out) =~= statements_view(*ss));
    out
}

/// An independent copy of the `elsif` branches of an `if` statement.
pub fn duplicate_elsifs(bs: &Vec<(Expression, Vec<Statement>)>) -> (r: Vec<
    (Expression, Vec<Statement>),
>)
    ensures
        elsifs_view(r) == elsifs_view(*bs),
    decreases bs,
{
    let mut out: Vec<(Expression, Vec<Statement>)> = Vec::new();
    let mut i: usize = 0;
    while i < bs.len()
        invariant
            i <= bs@.len(),
            out@.len() == i,
            forall|j: int|
                0 <= j < i ==> expression_view((#[trigger] out@[j]).0) == expression_view(bs@[j].0)
                    && statements_view(out@[j].1) == statements_view(bs@[j].1),
        decreases bs@.len() - i,
    {
        let branch = &bs[i];
        out.push((duplicate_expression(&branch.0), duplicate_statements(&branch.1)));
        i = i + 1;
    }
    assert(elsifs_view(out) =~= elsifs_view(*bs));
    out
}

impl Program {
    /// An independent copy of the program.
    pub fn duplicate(&self) -> (r: Program)
        ensures
            r@ == self@,
    {
        Program { statements: duplicate_statements(&self.statements) }
    }
}

} // verus!

//! The parser: from tokens to a syntax tree, by recursive descent.
//!
//! Every method reads one construct of the grammar at the current position
//! and leaves the position behind it. The first violation of the grammar
//! ends parsing: there is no recovery.

use vstd::prelude::*;
use vstd::string::StringExecFns;
use crate::ast::{
    expression_view, expressions_view, elsifs_view, statement_view, statements_view,
    BinaryOperator, Event, Expression, ExpressionView, Program, Statement, StatementView,
    UnaryOperator, VariableType,
};
use crate::error::{ErrorKind, GizmoError};
use crate::grammar::{
    lemma_assignment, lemma_binary, lemma_binary_rest, lemma_block, lemma_body, lemma_branch,
    lemma_call, lemma_call_rest, lemma_declaration, lemma_else, lemma_elsifs, lemma_event,
    lemma_expression, lemma_expression_statement, lemma_generator, lemma_if, lemma_list,
    lemma_operand, lemma_power, lemma_primary, lemma_repeat, lemma_return, lemma_statement,
    lemma_unary, lemma_when, at_end, binary, expect, expect_identifier, expected, generator,
    lemma_skip_newlines, operator_at, parse_binary, parse_binary_rest, parse_block, parse_body,
    parse_branch, parse_call, parse_call_rest, parse_elsifs, parse_expression, parse_generator,
    parse_list, parse_operand, parse_power, parse_primary, parse_assignment, parse_declaration,
    parse_expression_statement, parse_if, parse_program, parse_repeat, parse_return,
    parse_statement, parse_unary, parse_when, peek, progress, skip_newlines, statement_end,
    stops, type_of, unexpected, Parsed, Stop,
};
use crate::token::{tokens_view, Token, TokenView};

verus! {

/// Whether the result `r` of a method that left the parser at `position` is
/// what the grammar says: the construct whose view is the value read and
/// the position behind it, or a parse error with the grammar's message.
pub open spec fn yields<V, T>(
    p: Parsed<V>,
    r: Result<T, GizmoError>,
    position: int,
    view: spec_fn(T) -> V,
) -> bool {
    match p {
        Parsed::Done { value, next } => r is Ok && view(r->Ok_0) == value && position == next,
        Parsed::Failed { message } => r is Err && r->Err_0.kind() == ErrorKind::Parse
            && r->Err_0.detail() == message,
    }
}

/// Whether the result `r` of parsing a whole program is what the grammar
/// says: the program whose statements have the views read, or a parse error
/// with the grammar's message.
pub open spec fn parsed(p: Parsed<Seq<StatementView>>, r: Result<Program, GizmoError>) -> bool {
    match p {
        Parsed::Done { value, next } => r is Ok && r->Ok_0@ == value,
        Parsed::Failed { message } => r is Err && r->Err_0.kind() == ErrorKind::Parse
            && r->Err_0.detail() == message,
    }
}

/// Parsing is a function of the tokens: two results for the same tokens
/// from the same position are both programs of the same structure, or both
/// the same error. How a token is shown in a message plays no part in the
/// structure.
pub proof fn law_parsing_is_deterministic(
    ts: Seq<TokenView>,
    start: int,
    first: Result<Program, GizmoError>,
    second: Result<Program, GizmoError>,
)
    requires
        parsed(parse_block(ts, start, Stop::Program, Seq::empty()), first),
        parsed(parse_block(ts, start, Stop::Program, Seq::empty()), second),
    ensures
        first is Ok <==> second is Ok,
        first is Ok ==> first->Ok_0@ == second->Ok_0@,
        first is Err ==> first->Err_0.kind() == second->Err_0.kind() && first->Err_0.detail()
            == second->Err_0.detail(),
{
}

/// Reading the same source twice gives trees of the same structure: the
/// tree depends on the source only through its tokens.
pub proof fn law_same_source_same_tree(
    source: Seq<char>,
    first_tokens: Vec<Token>,
    second_tokens: Vec<Token>,
    first: Result<Program, GizmoError>,
    second: Result<Program, GizmoError>,
)
    requires
        crate::lexer::lexed(
            source,
            crate::lexer::lex(source),
            Ok::<Vec<Token>, GizmoError>(first_tokens),
        ),
        crate::lexer::lexed(
            source,
            crate::lexer::lex(source),
            Ok::<Vec<Token>, GizmoError>(second_tokens),
        ),
        parsed(parse_program(tokens_view(first_tokens@)), first),
        parsed(parse_program(tokens_view(second_tokens@)), second),
    ensures
        tokens_view(first_tokens@) == tokens_view(second_tokens@),
        first is Ok <==> second is Ok,
        first is Ok ==> first->Ok_0@ == second->Ok_0@,
        first is Err ==> first->Err_0.kind() == second->Err_0.kind() && first->Err_0.detail()
            == second->Err_0.detail(),
{
}

/// A block that was read ends at the end of the tokens or at a token that
/// ends blocks of its kind.
pub proof fn lemma_block_stops(ts: Seq<TokenView>, pos: int, stop: Stop, acc: Seq<StatementView>)
    ensures
        parse_block(ts, pos, stop, acc) matches Parsed::Done { value, next } ==> at_end(ts, next)
            || stops(stop, peek(ts, next)),
    decreases ts.len() - pos,
{
    lemma_block(ts, pos, stop, acc);
    if at_end(ts, pos) || stops(stop, peek(ts, pos)) {
    } else if peek(ts, pos) is Newline {
        lemma_block_stops(ts, pos + 1, stop, acc);
    } else {
        match parse_statement(ts, pos) {
            Parsed::Failed { message } => {},
            Parsed::Done { value, next } => {
                if pos < next <= ts.len() {
                    lemma_block_stops(ts, next, stop, acc.push(value));
                }
            },
        }
    }
}

/// The view of an expression.
pub open spec fn of_expression() -> spec_fn(Expression) -> ExpressionView {
    |e: Expression| expression_view(e)
}

/// The view of a statement.
pub open spec fn of_statement() -> spec_fn(Statement) -> StatementView {
    |s: Statement| statement_view(s)
}

/// The views of a list of statements.
pub open spec fn of_statements() -> spec_fn(Vec<Statement>) -> Seq<StatementView> {
    |ss: Vec<Statement>| statements_view(ss)
}

/// The views of a list of expressions.
pub open spec fn of_expressions() -> spec_fn(Vec<Expression>) -> Seq<ExpressionView> {
    |es: Vec<Expression>| expressions_view(es)
}

/// Nothing.
pub open spec fn of_unit() -> spec_fn(()) -> () {
    |u: ()| ()
}

/// The characters of a string.
pub open spec fn of_name() -> spec_fn(String) -> Seq<char> {
    |s: String| s@
}

/// A parser over one token sequence.
pub struct Parser {
    tokens: Vec<Token>,
    current: usize,
}

impl Parser {
    /// The tokens being read.
    #[verifier::opaque]
    pub closed spec fn stream(&self) -> Seq<TokenView> {
        tokens_view(self.tokens@)
    }

    /// The position of the next token to read.
    pub closed spec fn position(&self) -> int {
        self.current as int
    }

    /// The position lies within the tokens or at their end.
    pub closed spec fn wf(&self) -> bool {
        self.current <= self.tokens@.len() && self.stream().len() == self.tokens@.len()
    }

    /// A well-formed parser stands within its tokens.
    pub proof fn lemma_wf(&self)
        requires
            self.wf(),
        ensures
            0 <= self.position() <= self.stream().len(),
    {
    }

    /// A parser at the start of `tokens`.
    pub fn new(tokens: Vec<Token>) -> (p: Parser)
        ensures
            p.wf(),
            p.stream() == tokens_view(tokens@),
            p.position() == 0,
    {
        reveal(Parser::stream);
        Parser { tokens, current: 0 }
    }

    /// The kind of the next token; that of the end marker behind the last
    /// token.
    fn code(&self) -> (c: u8)
        requires
            self.wf(),
        ensures
            c == peek(self.stream(), self.position()).code(),
            c != TokenView::Eof.code() ==> self.position() < self.stream().len(),
    {
        reveal(Parser::stream);
        if self.current < self.tokens.len() {
            assert(self.stream()[self.current as int] == self.tokens@[self.current as int]@);
            self.tokens[self.current].code()
        } else {
            Token::Eof.code()
        }
    }

    /// Reads one token.
    fn bump(&mut self)
        requires
            old(self).wf(),
            old(self).position() < old(self).stream().len(),
        ensures
            final(self).wf(),
            final(self).stream() == old(self).stream(),
            final(self).position() == old(self).position() + 1,
    {
        reveal(Parser::stream);
        let n = self.tokens.len();
        self.current = self.current + 1;
    }

    /// Whether the next token is `token`.
    fn at(&self, token: &Token) -> (b: bool)
        requires
            self.wf(),
            token@.plain(),
        ensures
            b == (peek(self.stream(), self.position()) == token@),
            b && !(token@ is Eof) ==> self.position() < self.stream().len(),
    {
        proof {
            peek(self.stream(), self.position()).lemma_code(token@);
        }
        self.code() == token.code()
    }

    /// Whether no token is left to read.
    pub fn is_at_end(&self) -> (b: bool)
        requires
            self.wf(),
        ensures
            b == at_end(self.stream(), self.position()),
    {
        self.at(&Token::Eof)
    }

    /// A copy of the next token, without reading it; the end marker behind
    /// the last token.
    pub fn peek(&self) -> (t: Token)
        requires
            self.wf(),
        ensures
            t@ == peek(self.stream(), self.position()),
    {
        reveal(Parser::stream);
        if self.current < self.tokens.len() {
            assert(self.stream()[self.current as int] == self.tokens@[self.current as int]@);
            self.tokens[self.current].duplicate()
        } else {
            Token::Eof
        }
    }

    /// A copy of the token before the current position; the end marker at
    /// the start.
    pub fn previous(&self) -> (t: Token)
        requires
            self.wf(),
        ensures
            t@ == (if self.position() == 0 {
                TokenView::Eof
            } else {
                self.stream()[self.position() - 1]
            }),
    {
        reveal(Parser::stream);
        if self.current == 0 {
            Token::Eof
        } else {
            assert(self.stream()[self.current - 1] == self.tokens@[self.current - 1]@);
            self.tokens[self.current - 1].duplicate()
        }
    }

    /// Reads the next token, unless none is left, and returns a copy of the
    /// token before the new position.
    pub fn advance(&mut self) -> (t: Token)
        requires
            old(self).wf(),
        ensures
            final(self).wf(),
            final(self).stream() == old(self).stream(),
            final(self).position() == (if at_end(old(self).stream(), old(self).position()) {
                old(self).position()
            } else {
                old(self).position() + 1
            }),
            t@ == (if final(self).position() == 0 {
                TokenView::Eof
            } else {
                final(self).stream()[final(self).position() - 1]
            }),
    {
        if !self.is_at_end() {
            self.bump();
        }
        self.previous()
    }

    /// Reads past line breaks.
    pub fn skip_newlines(&mut self)
        requires
            old(self).wf(),
        ensures
            final(self).wf(),
            final(self).stream() == old(self).stream(),
            final(self).position() == skip_newlines(old(self).stream(), old(self).position()),
            final(self).position() >= old(self).position(),
    {
        let ghost ts = self.stream();
        let ghost start = self.position();
        while self.at(&Token::Newline)
            invariant
                self.wf(),
                ts == self.stream(),
                start <= self.position(),
                skip_newlines(ts, start) == skip_newlines(ts, self.position()),
            decreases self.stream().len() - self.position(),
        {
            self.bump();
        }
    }

    /// Reads the end of a statement: one semicolon, if there is one, and
    /// the line breaks that follow.
    fn end_statement(&mut self)
        requires
            old(self).wf(),
        ensures
            final(self).wf(),
            final(self).stream() == old(self).stream(),
            final(self).position() == statement_end(old(self).stream(), old(self).position()),
            final(self).position() >= old(self).position(),
    {
        if self.at(&Token::Semicolon) {
            self.bump();
        }
        self.skip_newlines();
    }

    /// The error for a next token that is not `what`.
    fn failure_expected(&self, what: &str) -> (e: GizmoError)
        requires
            self.wf(),
        ensures
            e.kind() == ErrorKind::Parse,
            e.detail() == expected(what@, peek(self.stream(), self.position())),
    {
        let mut msg = String::from_str("Expected ");
        msg.append(what);
        msg.append(", found '");
        msg.append(self.peek().to_text().as_str());
        msg.append("'");
        GizmoError::ParseError(msg)
    }

    /// The error for a next token that starts no expression.
    fn failure_unexpected(&self) -> (e: GizmoError)
        requires
            self.wf(),
        ensures
            e.kind() == ErrorKind::Parse,
            e.detail() == unexpected(peek(self.stream(), self.position())),
    {
        let mut msg = String::from_str("Unexpected token '");
        msg.append(self.peek().to_text().as_str());
        msg.append("'");
        GizmoError::ParseError(msg)
    }

    /// Reads the token `token`, which is called `what` in messages.
    fn expect(&mut self, token: &Token, what: &str) -> (r: Result<(), GizmoError>)
        requires
            old(self).wf(),
            token@.plain(),
            !(token@ is Eof),
        ensures
            final(self).wf(),
            final(self).stream() == old(self).stream(),
            yields(
                expect(old(self).stream(), old(self).position(), token@, what@),
                r,
                final(self).position(),
                of_unit(),
            ),
    {
        if self.at(token) {
            self.bump();
            Ok(())
        } else {
            Err(self.failure_expected(what))
        }
    }

    /// Reads an identifier.
    fn identifier(&mut self) -> (r: Result<String, GizmoError>)
        requires
            old(self).wf(),
        ensures
            final(self).wf(),
            final(self).stream() == old(self).stream(),
            yields(
                expect_identifier(old(self).stream(), old(self).position()),
                r,
                final(self).position(),
                of_name(),
            ),
    {
        reveal(Parser::stream);
        if self.current < self.tokens.len() {
            assert(self.stream()[self.current as int] == self.tokens@[self.current as int]@);
            match &self.tokens[self.current] {
                Token::Identifier(name) => {
                    let n = name.clone();
                    self.bump();
                    return Ok(n);
                },
                _ => {},
            }
        }
        Err(self.failure_expected("identifier"))
    }

    /// The binary operator of `level` that the next token is, if it is one.
    fn operator_here(&self, level: u8) -> (r: Option<BinaryOperator>)
        requires
            self.wf(),
        ensures
            r == operator_at(level as int, peek(self.stream(), self.position())),
            r is Some ==> self.position() < self.stream().len(),
    {
        reveal(Parser::stream);
        if self.current >= self.tokens.len() {
            return None;
        }
        assert(self.stream()[self.current as int] == self.tokens@[self.current as int]@);
        let token = &self.tokens[self.current];
        if level == 18 {
            match token {
                Token::Or => Some(BinaryOperator::Or),
                _ => None,
            }
        } else if level == 16 {
            match token {
                Token::And => Some(BinaryOperator::And),
                _ => None,
            }
        } else if level == 14 {
            match token {
                Token::EqualEqual => Some(BinaryOperator::Equal),
                Token::NotEqual => Some(BinaryOperator::NotEqual),
                _ => None,
            }
        } else if level == 12 {
            match token {
                Token::Greater => Some(BinaryOperator::Greater),
                Token::GreaterEqual => Some(BinaryOperator::GreaterEqual),
                Token::Less => Some(BinaryOperator::Less),
                Token::LessEqual => Some(BinaryOperator::LessEqual),
                _ => None,
            }
        } else if level == 10 {
            match token {
                Token::Plus => Some(BinaryOperator::Add),
                Token::Minus => Some(BinaryOperator::Subtract),
                _ => None,
            }
        } else if level == 8 {
            match token {
                Token::Star => Some(BinaryOperator::Multiply),
                Token::Slash => Some(BinaryOperator::Divide),
                Token::Percent => Some(BinaryOperator::Modulo),
                _ => None,
            }
        } else {
            None
        }
    }

    /// Reads an expression.
    pub fn expression(&mut self) -> (r: Result<Expression, GizmoError>)
        requires
            old(self).wf(),
        ensures
            final(self).wf(),
            final(self).stream() == old(self).stream(),
            yields(
                parse_expression(old(self).stream(), old(self).position()),
                r,
                final(self).position(),
                of_expression(),
            ),
            r is Ok ==> old(self).position() < final(self).position(),
        decreases old(self).stream().len() - old(self).position(), 41int,
    {
        self.ternary()
    }

    /// Reads a conditional, or what binds tighter.
    fn ternary(&mut self) -> (r: Result<Expression, GizmoError>)
        requires
            old(self).wf(),
        ensures
            final(self).wf(),
            final(self).stream() == old(self).stream(),
            yields(
                parse_expression(old(self).stream(), old(self).position()),
                r,
                final(self).position(),
                of_expression(),
            ),
            r is Ok ==> old(self).position() < final(self).position(),
        decreases old(self).stream().len() - old(self).position(), 40int,
    {
        proof {
            lemma_expression(self.stream(), self.position());
        }
        let ghost ts = self.stream();
        let ghost pos = self.position();
        let condition = self.logical_or()?;
        if !self.at(&Token::Question) {
            return Ok(condition);
        }
        self.bump();
        let then_expr = self.expression()?;
        self.expect(&Token::Colon, "':'")?;
        let else_expr = self.expression()?;
        Ok(
            Expression::Conditional {
                condition: Box::new(condition),
                then_expr: Box::new(then_expr),
                else_expr: Box::new(else_expr),
            },
        )
    }

    /// Reads a chain of `or`.
    fn logical_or(&mut self) -> (r: Result<Expression, GizmoError>)
        requires
            old(self).wf(),
        ensures
            final(self).wf(),
            final(self).stream() == old(self).stream(),
            yields(
                parse_binary(old(self).stream(), old(self).position(), 18),
                r,
                final(self).position(),
                of_expression(),
            ),
            r is Ok ==> old(self).position() < final(self).position(),
        decreases old(self).stream().len() - old(self).position(), 37int,
    {
        self.binary_chain(18)
    }

    /// Reads a chain of `and`.
    fn logical_and(&mut self) -> (r: Result<Expression, GizmoError>)
        requires
            old(self).wf(),
        ensures
            final(self).wf(),
            final(self).stream() == old(self).stream(),
            yields(
                parse_binary(old(self).stream(), old(self).position(), 16),
                r,
                final(self).position(),
                of_expression(),
            ),
            r is Ok ==> old(self).position() < final(self).position(),
        decreases old(self).stream().len() - old(self).position(), 33int,
    {
        self.binary_chain(16)
    }

    /// Reads a chain of `==` and `!=`.
    fn equality(&mut self) -> (r: Result<Expression, GizmoError>)
        requires
            old(self).wf(),
        ensures
            final(self).wf(),
            final(self).stream() == old(self).stream(),
            yields(
                parse_binary(old(self).stream(), old(self).position(), 14),
                r,
                final(self).position(),
                of_expression(),
            ),
            r is Ok ==> old(self).position() < final(self).position(),
        decreases old(self).stream().len() - old(self).position(), 29int,
    {
        self.binary_chain(14)
    }

    /// Reads a chain of `<`, `>`, `<=` and `>=`.
    fn comparison(&mut self) -> (r: Result<Expression, GizmoError>)
        requires
            old(self).wf(),
        ensures
            final(self).wf(),
            final(self).stream() == old(self).stream(),
            yields(
                parse_binary(old(self).stream(), old(self).position(), 12),
                r,
                final(self).position(),
                of_expression(),
            ),
            r is Ok ==> old(self).position() < final(self).position(),
        decreases old(self).stream().len() - old(self).position(), 25int,
    {
        self.binary_chain(12)
    }

    /// Reads a chain of `+` and `-`.
    fn term(&mut self) -> (r: Result<Expression, GizmoError>)
        requires
            old(self).wf(),
        ensures
            final(self).wf(),
            final(self).stream() == old(self).stream(),
            yields(
                parse_binary(old(self).stream(), old(self).position(), 10),
                r,
                final(self).position(),
                of_expression(),
            ),
            r is Ok ==> old(self).position() < final(self).position(),
        decreases old(self).stream().len() - old(self).position(), 21int,
    {
        self.binary_chain(10)
    }

    /// Reads a chain of `*`, `/` and `%`.
    fn factor(&mut self) -> (r: Result<Expression, GizmoError>)
        requires
            old(self).wf(),
        ensures
            final(self).wf(),
            final(self).stream() == old(self).stream(),
            yields(
                parse_binary(old(self).stream(), old(self).position(), 8),
                r,
                final(self).position(),
                of_expression(),
            ),
            r is Ok ==> old(self).position() < final(self).position(),
        decreases old(self).stream().len() - old(self).position(), 17int,
    {
        self.binary_chain(8)
    }

    /// Reads an operand of the binary operators of `level`.
    fn operand(&mut self, level: u8) -> (r: Result<Expression, GizmoError>)
        requires
            old(self).wf(),
            8 <= level <= 18,
            level % 2 == 0,
        ensures
            final(self).wf(),
            final(self).stream() == old(self).stream(),
            yields(
                parse_operand(old(self).stream(), old(self).position(), level as int),
                r,
                final(self).position(),
                of_expression(),
            ),
            r is Ok ==> old(self).position() < final(self).position(),
        decreases old(self).stream().len() - old(self).position(), 2 * level - 1,
    {
        proof {
            lemma_operand(self.stream(), self.position(), level as int);
        }
        if level == 18 {
            self.logical_and()
        } else if level == 16 {
            self.equality()
        } else if level == 14 {
            self.comparison()
        } else if level == 12 {
            self.term()
        } else if level == 10 {
            self.factor()
        } else {
            self.power()
        }
    }

    /// Reads a chain of binary operators of `level`, grouped to the left.
    fn binary_chain(&mut self, level: u8) -> (r: Result<Expression, GizmoError>)
        requires
            old(self).wf(),
            8 <= level <= 18,
            level % 2 == 0,
        ensures
            final(self).wf(),
            final(self).stream() == old(self).stream(),
            yields(
                parse_binary(old(self).stream(), old(self).position(), level as int),
                r,
                final(self).position(),
                of_expression(),
            ),
            r is Ok ==> old(self).position() < final(self).position(),
        decreases old(self).stream().len() - old(self).position(), 2 * level,
    {
        proof {
            lemma_binary(self.stream(), self.position(), level as int);
        }
        let ghost ts = self.stream();
        let ghost pos = self.position();
        let mut expr = self.operand(level)?;
        let ghost target = parse_binary_rest(ts, self.position(), level as int, expr@);
        loop
            invariant
                self.wf(),
                ts == self.stream(),
                ts == old(self).stream(),
                pos == old(self).position(),
                pos < self.position(),
                8 <= level <= 18,
                level % 2 == 0,
                target == parse_binary_rest(ts, self.position(), level as int, expr@),
                parse_binary(ts, pos, level as int) == progress(ts, pos, target),
            decreases self.stream().len() - self.position(),
        {
            proof {
                lemma_binary_rest(self.stream(), self.position(), level as int, expr@);
            }
            match self.operator_here(level) {
                None => {
                    return Ok(expr);
                },
                Some(operator) => {
                    self.bump();
                    let right = self.operand(level)?;
                    expr =
                    Expression::Binary { left: Box::new(expr), operator, right: Box::new(right) };
                },
            }
        }
    }

    /// Reads a power.
    fn power(&mut self) -> (r: Result<Expression, GizmoError>)
        requires
            old(self).wf(),
        ensures
            final(self).wf(),
            final(self).stream() == old(self).stream(),
            yields(
                parse_power(old(self).stream(), old(self).position()),
                r,
                final(self).position(),
                of_expression(),
            ),
            r is Ok ==> old(self).position() < final(self).position(),
        decreases old(self).stream().len() - old(self).position(), 6int,
    {
        proof {
            lemma_power(self.stream(), self.position());
        }
        let base = self.unary()?;
        if !self.at(&Token::Caret) {
            return Ok(base);
        }
        self.bump();
        let exponent = self.power()?;
        Ok(
            Expression::Binary {
                left: Box::new(base),
                operator: BinaryOperator::Power,
                right: Box::new(exponent),
            },
        )
    }

    /// Reads a unary operation.
    fn unary(&mut self) -> (r: Result<Expression, GizmoError>)
        requires
            old(self).wf(),
        ensures
            final(self).wf(),
            final(self).stream() == old(self).stream(),
            yields(
                parse_unary(old(self).stream(), old(self).position()),
                r,
                final(self).position(),
                of_expression(),
            ),
            r is Ok ==> old(self).position() < final(self).position(),
        decreases old(self).stream().len() - old(self).position(), 4int,
    {
        proof {
            lemma_unary(self.stream(), self.position());
        }
        if self.at(&Token::Not) {
            self.bump();
            let operand = self.unary()?;
            Ok(Expression::Unary { operator: UnaryOperator::Not, operand: Box::new(operand) })
        } else if self.at(&Token::Minus) {
            self.bump();
            let operand = self.unary()?;
            Ok(Expression::Unary { operator: UnaryOperator::Minus, operand: Box::new(operand) })
        } else {
            self.call()
        }
    }

    /// Reads a primary with the argument lists and indices behind it.
    fn call(&mut self) -> (r: Result<Expression, GizmoError>)
        requires
            old(self).wf(),
        ensures
            final(self).wf(),
            final(self).stream() == old(self).stream(),
            yields(
                parse_call(old(self).stream(), old(self).position()),
                r,
                final(self).position(),
                of_expression(),
            ),
            r is Ok ==> old(self).position() < final(self).position(),
        decreases old(self).stream().len() - old(self).position(), 2int,
    {
        proof {
            lemma_call(self.stream(), self.position());
        }
        let ghost ts = self.stream();
        let ghost pos = self.position();
        let mut expr = self.primary()?;
        let ghost target = parse_call_rest(ts, self.position(), expr@);
        loop
            invariant
                self.wf(),
                ts == self.stream(),
                ts == old(self).stream(),
                pos == old(self).position(),
                pos < self.position(),
                target == parse_call_rest(ts, self.position(), expr@),
                parse_call(ts, pos) == progress(ts, pos, target),
            decreases self.stream().len() - self.position(),
        {
            proof {
                lemma_call_rest(self.stream(), self.position(), expr@);
            }
            if self.at(&Token::LeftParen) {
                self.bump();
                let args = self.argument_list()?;
                self.expect(&Token::RightParen, "')'")?;
                match expr {
                    Expression::Identifier(name) => {
                        expr = Expression::FunctionCall { name, args };
                    },
                    _ => {
                        return Err(
                            GizmoError::ParseError(String::from_str("Can only call functions")),
                        );
                    },
                }
            } else if self.at(&Token::LeftBracket) {
                self.bump();
                let index = self.expression()?;
                self.expect(&Token::RightBracket, "']'")?;
                expr = Expression::Index { object: Box::new(expr), index: Box::new(index) };
            } else {
                return Ok(expr);
            }
        }
    }

    /// Reads the expressions of a list up to its closing token, which is
    /// left unread.
    fn list_until(&mut self, close: &Token) -> (r: Result<Vec<Expression>, GizmoError>)
        requires
            old(self).wf(),
            close@.plain(),
            !(close@ is Eof),
        ensures
            final(self).wf(),
            final(self).stream() == old(self).stream(),
            yields(
                parse_list(
                    old(self).stream(),
                    skip_newlines(old(self).stream(), old(self).position()),
                    old(self).position(),
                    close@,
                    Seq::empty(),
                ),
                r,
                final(self).position(),
                of_expressions(),
            ),
            r is Ok ==> old(self).position() <= final(self).position(),
        decreases old(self).stream().len() - old(self).position(), 44int,
    {
        let ghost ts = self.stream();
        let ghost start = self.position();
        let ghost mut floor = self.position();
        let mut items: Vec<Expression> = Vec::new();
        self.skip_newlines();
        assert(expressions_view(items) =~= Seq::<ExpressionView>::empty());
        let ghost target = parse_list(ts, self.position(), floor, close@, Seq::empty());
        loop
            invariant
                self.wf(),
                ts == self.stream(),
                ts == old(self).stream(),
                start == old(self).position(),
                start <= floor <= self.position(),
                close@.plain(),
                !(close@ is Eof),
                target == parse_list(ts, self.position(), floor, close@, expressions_view(items)),
                target == parse_list(ts, skip_newlines(ts, start), start, close@, Seq::empty()),
            decreases self.stream().len() - self.position(),
        {
            proof {
                lemma_list(self.stream(), self.position(), floor, close@, expressions_view(items));
            }
            if self.at(close) {
                return Ok(items);
            }
            let ghost before = expressions_view(items);
            let item = self.expression()?;
            items.push(item);
            assert(expressions_view(items) =~= before.push(item@));
            if self.at(&Token::Comma) {
                self.bump();
                proof {
                    floor = self.position();
                }
                self.skip_newlines();
            } else {
                self.skip_newlines();
                return Ok(items);
            }
        }
    }

    /// Reads the arguments of a call, up to the closing parenthesis.
    fn argument_list(&mut self) -> (r: Result<Vec<Expression>, GizmoError>)
        requires
            old(self).wf(),
        ensures
            final(self).wf(),
            final(self).stream() == old(self).stream(),
            yields(
                parse_list(
                    old(self).stream(),
                    skip_newlines(old(self).stream(), old(self).position()),
                    old(self).position(),
                    TokenView::RightParen,
                    Seq::empty(),
                ),
                r,
                final(self).position(),
                of_expressions(),
            ),
            r is Ok ==> old(self).position() <= final(self).position(),
        decreases old(self).stream().len() - old(self).position(), 45int,
    {
        self.list_until(&Token::RightParen)
    }

    /// Reads an array literal behind its opening bracket.
    fn array_literal(&mut self) -> (r: Result<Expression, GizmoError>)
        requires
            old(self).wf(),
        ensures
            final(self).wf(),
            final(self).stream() == old(self).stream(),
            r is Ok ==> old(self).position() < final(self).position(),
            match parse_list(
                old(self).stream(),
                skip_newlines(old(self).stream(), old(self).position()),
                old(self).position(),
                TokenView::RightBracket,
                Seq::empty(),
            ) {
                Parsed::Failed { message } => r is Err && r->Err_0.kind() == ErrorKind::Parse
                    && r->Err_0.detail() == message,
                Parsed::Done { value, next } => yields(
                    match expect(old(self).stream(), next, TokenView::RightBracket, "']'"@) {
                        Parsed::Failed { message } => Parsed::Failed { message },
                        Parsed::Done { value: _, next: after } => Parsed::Done {
                            value: ExpressionView::Array(value),
                            next: after,
                        },
                    },
                    r,
                    final(self).position(),
                    of_expression(),
                ),
            },
        decreases old(self).stream().len() - old(self).position(), 45int,
    {
        let elements = self.list_until(&Token::RightBracket)?;
        self.expect(&Token::RightBracket, "']'")?;
        Ok(Expression::Array(elements))
    }

    /// Reads a primary expression.
    fn primary(&mut self) -> (r: Result<Expression, GizmoError>)
        requires
            old(self).wf(),
        ensures
            final(self).wf(),
            final(self).stream() == old(self).stream(),
            yields(
                parse_primary(old(self).stream(), old(self).position()),
                r,
                final(self).position(),
                of_expression(),
            ),
            r is Ok ==> old(self).position() < final(self).position(),
        decreases old(self).stream().len() - old(self).position(), 0int,
    {
        proof {
            lemma_primary(self.stream(), self.position());
        }
        let ghost ts = self.stream();
        let ghost pos = self.position();
        if self.is_at_end() {
            return Err(self.failure_unexpected());
        }
        match self.peek() {
            Token::Number(s) => {
                self.bump();
                Ok(Expression::Number(s))
            },
            Token::String(s) => {
                self.bump();
                Ok(Expression::String(s))
            },
            Token::Identifier(s) => {
                self.bump();
                Ok(Expression::Identifier(s))
            },
            Token::LeftParen => {
                self.bump();
                let e = self.expression()?;
                self.expect(&Token::RightParen, "')'")?;
                Ok(e)
            },
            Token::LeftBracket => {
                self.bump();
                self.array_literal()
            },
            Token::Pattern => {
                self.bump();
                self.pattern_generator()
            },
            Token::Animate => {
                self.bump();
                self.animated_generator()
            },
            Token::Evolve => {
                self.bump();
                self.cellular_generator()
            },
            Token::Newline => {
                proof {
                    lemma_skip_newlines(ts, pos + 1);
                }
                self.skip_newlines();
                if self.is_at_end() {
                    return Err(
                        GizmoError::ParseError(String::from_str("Unexpected end of input")),
                    );
                }
                self.primary()
            },
            _ => Err(self.failure_unexpected()),
        }
    }

    /// Reads a `pattern` generator behind its keyword.
    fn pattern_generator(&mut self) -> (r: Result<Expression, GizmoError>)
        requires
            old(self).wf(),
        ensures
            final(self).wf(),
            final(self).stream() == old(self).stream(),
            yields(
                parse_generator(old(self).stream(), old(self).position(), TokenView::Pattern),
                r,
                final(self).position(),
                of_expression(),
            ),
            r is Ok ==> old(self).position() < final(self).position(),
        decreases old(self).stream().len() - old(self).position(), 47int,
    {
        self.generator(&Token::Pattern)
    }

    /// Reads an `animate` generator behind its keyword.
    fn animated_generator(&mut self) -> (r: Result<Expression, GizmoError>)
        requires
            old(self).wf(),
        ensures
            final(self).wf(),
            final(self).stream() == old(self).stream(),
            yields(
                parse_generator(old(self).stream(), old(self).position(), TokenView::Animate),
                r,
                final(self).position(),
                of_expression(),
            ),
            r is Ok ==> old(self).position() < final(self).position(),
        decreases old(self).stream().len() - old(self).position(), 47int,
    {
        self.generator(&Token::Animate)
    }

    /// Reads an `evolve` generator behind its keyword.
    fn cellular_generator(&mut self) -> (r: Result<Expression, GizmoError>)
        requires
            old(self).wf(),
        ensures
            final(self).wf(),
            final(self).stream() == old(self).stream(),
            yields(
                parse_generator(old(self).stream(), old(self).position(), TokenView::Evolve),
                r,
                final(self).position(),
                of_expression(),
            ),
            r is Ok ==> old(self).position() < final(self).position(),
        decreases old(self).stream().len() - old(self).position(), 47int,
    {
        self.generator(&Token::Evolve)
    }

    /// Reads a generator of the kind of `keyword` behind that keyword.
    fn generator(&mut self, keyword: &Token) -> (r: Result<Expression, GizmoError>)
        requires
            old(self).wf(),
            keyword@ is Pattern || keyword@ is Animate || keyword@ is Evolve,
        ensures
            final(self).wf(),
            final(self).stream() == old(self).stream(),
            yields(
                parse_generator(old(self).stream(), old(self).position(), keyword@),
                r,
                final(self).position(),
                of_expression(),
            ),
            r is Ok ==> old(self).position() < final(self).position(),
        decreases old(self).stream().len() - old(self).position(), 46int,
    {
        proof {
            lemma_generator(self.stream(), self.position(), keyword@);
        }
        let ghost ts = self.stream();
        let ghost pos = self.position();
        self.expect(&Token::LeftParen, "'('")?;
        let width = self.expression()?;
        self.expect(&Token::Comma, "','")?;
        let height = self.expression()?;
        self.expect(&Token::RightParen, "')'")?;
        let name = match keyword {
            Token::Pattern => String::new(),
            Token::Animate => {
                self.expect(&Token::Using, "'using'")?;
                self.identifier()?
            },
            _ => {
                self.expect(&Token::From, "'from'")?;
                self.identifier()?
            },
        };
        self.expect(&Token::LeftBrace, "'{'")?;
        proof {
            lemma_skip_newlines(ts, self.position());
        }
        self.skip_newlines();
        let body = self.block_until(Stop::Brace)?;
        self.expect(&Token::RightBrace, "'}'")?;
        let e = match keyword {
            Token::Pattern => Expression::PatternGenerator {
                width: Box::new(width),
                height: Box::new(height),
                body,
            },
            Token::Animate => Expression::AnimatedGenerator {
                width: Box::new(width),
                height: Box::new(height),
                time_var: name,
                body,
            },
            _ => Expression::CellularGenerator {
                width: Box::new(width),
                height: Box::new(height),
                prev_var: name,
                body,
            },
        };
        Ok(e)
    }

    /// Whether the next token ends a block of the given kind.
    fn at_stop(&self, stop: Stop) -> (b: bool)
        requires
            self.wf(),
        ensures
            b == stops(stop, peek(self.stream(), self.position())),
    {
        match stop {
            Stop::Program => false,
            Stop::Branch => self.at(&Token::Elsif) || self.at(&Token::Else) || self.at(&Token::End),
            Stop::End => self.at(&Token::End),
            Stop::Brace => self.at(&Token::RightBrace),
        }
    }

    /// Reads the statements of a block up to the token that ends it, which
    /// is left unread.
    fn block_until(&mut self, stop: Stop) -> (r: Result<Vec<Statement>, GizmoError>)
        requires
            old(self).wf(),
        ensures
            final(self).wf(),
            final(self).stream() == old(self).stream(),
            yields(
                parse_block(old(self).stream(), old(self).position(), stop, Seq::empty()),
                r,
                final(self).position(),
                of_statements(),
            ),
            r is Ok ==> old(self).position() <= final(self).position(),
        decreases old(self).stream().len() - old(self).position(), 52int,
    {
        let ghost ts = self.stream();
        let ghost start = self.position();
        let mut statements: Vec<Statement> = Vec::new();
        assert(statements_view(statements) =~= Seq::<StatementView>::empty());
        let ghost target = parse_block(ts, start, stop, Seq::empty());
        loop
            invariant
                self.wf(),
                ts == self.stream(),
                ts == old(self).stream(),
                start == old(self).position(),
                start <= self.position(),
                target == parse_block(ts, self.position(), stop, statements_view(statements)),
                target == parse_block(ts, start, stop, Seq::empty()),
            decreases self.stream().len() - self.position(),
        {
            proof {
                lemma_block(self.stream(), self.position(), stop, statements_view(statements));
            }
            if self.is_at_end() || self.at_stop(stop) {
                return Ok(statements);
            }
            if self.at(&Token::Newline) {
                self.bump();
            } else {
                let ghost before = statements_view(statements);
                let statement = self.statement()?;
                statements.push(statement);
                assert(statements_view(statements) =~= before.push(statement@));
            }
        }
    }

    /// Reads the whole program: all statements up to the end of the tokens.
    pub fn parse(&mut self) -> (r: Result<Program, GizmoError>)
        requires
            old(self).wf(),
        ensures
            final(self).wf(),
            final(self).stream() == old(self).stream(),
            parsed(
                parse_block(old(self).stream(), old(self).position(), Stop::Program, Seq::empty()),
                r,
            ),
            old(self).position() == 0 ==> parsed(parse_program(old(self).stream()), r),
            r is Ok ==> at_end(final(self).stream(), final(self).position()),
    {
        proof {
            lemma_block_stops(self.stream(), self.position(), Stop::Program, Seq::empty());
        }
        let statements = self.block_until(Stop::Program)?;
        Ok(Program { statements })
    }

    /// Reads a statement.
    pub fn statement(&mut self) -> (r: Result<Statement, GizmoError>)
        requires
            old(self).wf(),
        ensures
            final(self).wf(),
            final(self).stream() == old(self).stream(),
            yields(
                parse_statement(old(self).stream(), old(self).position()),
                r,
                final(self).position(),
                of_statement(),
            ),
            r is Ok ==> old(self).position() < final(self).position(),
        decreases old(self).stream().len() - old(self).position(), 51int,
    {
        proof {
            lemma_statement(self.stream(), self.position());
        }
        match self.peek() {
            Token::Frame | Token::Frames | Token::Num | Token::Text => self.variable_declaration(),
            Token::If => self.if_statement(),
            Token::Repeat => self.repeat_statement(),
            Token::When => self.when_statement(),
            Token::Return => self.return_statement(),
            Token::Identifier(_) => {
                if self.peek_ahead_is_assignment() {
                    self.assignment_statement()
                } else {
                    self.expression_statement()
                }
            },
            _ => self.expression_statement(),
        }
    }

    /// Whether the token after the next one is `=`.
    fn peek_ahead_is_assignment(&self) -> (b: bool)
        requires
            self.wf(),
        ensures
            b == (peek(self.stream(), self.position() + 1) is Equal),
    {
        reveal(Parser::stream);
        if self.current < self.tokens.len() && self.tokens.len() - self.current >= 2 {
            assert(self.stream()[self.current + 1] == self.tokens@[self.current + 1]@);
            match &self.tokens[self.current + 1] {
                Token::Equal => true,
                _ => false,
            }
        } else {
            false
        }
    }

    /// Reads a declaration: a type, a name, `=` and an expression.
    fn variable_declaration(&mut self) -> (r: Result<Statement, GizmoError>)
        requires
            old(self).wf(),
            type_of(peek(old(self).stream(), old(self).position())) is Some,
        ensures
            final(self).wf(),
            final(self).stream() == old(self).stream(),
            yields(
                parse_declaration(old(self).stream(), old(self).position()),
                r,
                final(self).position(),
                of_statement(),
            ),
            r is Ok ==> old(self).position() < final(self).position(),
        decreases old(self).stream().len() - old(self).position(), 50int,
    {
        proof {
            lemma_declaration(self.stream(), self.position());
        }
        let var_type = match self.peek() {
            Token::Frame => VariableType::Frame,
            Token::Frames => VariableType::Frames,
            Token::Num => VariableType::Num,
            _ => VariableType::Text,
        };
        self.bump();
        let name = self.identifier()?;
        self.expect(&Token::Equal, "'='")?;
        let value = self.expression()?;
        self.end_statement();
        Ok(Statement::VariableDeclaration { var_type, name, value })
    }

    /// Reads an assignment: a name, `=` and an expression.
    fn assignment_statement(&mut self) -> (r: Result<Statement, GizmoError>)
        requires
            old(self).wf(),
        ensures
            final(self).wf(),
            final(self).stream() == old(self).stream(),
            yields(
                parse_assignment(old(self).stream(), old(self).position()),
                r,
                final(self).position(),
                of_statement(),
            ),
            r is Ok ==> old(self).position() < final(self).position(),
        decreases old(self).stream().len() - old(self).position(), 50int,
    {
        proof {
            lemma_assignment(self.stream(), self.position());
        }
        let ghost ts = self.stream();
        let name = self.identifier()?;
        self.expect(&Token::Equal, "'='")?;
        let value = self.expression()?;
        self.end_statement();
        Ok(Statement::Assignment { name, value })
    }

    /// Reads an expression statement.
    fn expression_statement(&mut self) -> (r: Result<Statement, GizmoError>)
        requires
            old(self).wf(),
        ensures
            final(self).wf(),
            final(self).stream() == old(self).stream(),
            yields(
                parse_expression_statement(old(self).stream(), old(self).position()),
                r,
                final(self).position(),
                of_statement(),
            ),
            r is Ok ==> old(self).position() < final(self).position(),
        decreases old(self).stream().len() - old(self).position(), 50int,
    {
        proof {
            lemma_expression_statement(self.stream(), self.position());
        }
        let value = self.expression()?;
        self.end_statement();
        Ok(Statement::ExpressionStatement(value))
    }

    /// Reads a `return` statement.
    fn return_statement(&mut self) -> (r: Result<Statement, GizmoError>)
        requires
            old(self).wf(),
            peek(old(self).stream(), old(self).position()) is Return,
        ensures
            final(self).wf(),
            final(self).stream() == old(self).stream(),
            yields(
                parse_return(old(self).stream(), old(self).position()),
                r,
                final(self).position(),
                of_statement(),
            ),
            r is Ok ==> old(self).position() < final(self).position(),
        decreases old(self).stream().len() - old(self).position(), 50int,
    {
        proof {
            lemma_return(self.stream(), self.position());
        }
        self.bump();
        let value = self.expression()?;
        self.end_statement();
        Ok(Statement::ReturnStatement(value))
    }

    /// Reads a block behind the keyword that opens it, up to and including
    /// its `end` and the end of the statement.
    fn body(&mut self, Ghost(floor): Ghost<int>) -> (r: Result<Vec<Statement>, GizmoError>)
        requires
            old(self).wf(),
            floor < old(self).position(),
        ensures
            final(self).wf(),
            final(self).stream() == old(self).stream(),
            yields(
                parse_body(old(self).stream(), old(self).position(), floor),
                r,
                final(self).position(),
                of_statements(),
            ),
            r is Ok ==> old(self).position() < final(self).position(),
        decreases old(self).stream().len() - old(self).position(), 53int,
    {
        proof {
            lemma_body(self.stream(), self.position(), floor);
        }
        let ghost ts = self.stream();
        proof {
            lemma_skip_newlines(ts, self.position());
        }
        self.skip_newlines();
        let statements = self.block_until(Stop::End)?;
        self.expect(&Token::End, "'end'")?;
        self.end_statement();
        Ok(statements)
    }

    /// Reads a branch of an `if` behind its `if` or `elsif`.
    fn branch(&mut self, Ghost(floor): Ghost<int>) -> (r: Result<
        (Expression, Vec<Statement>),
        GizmoError,
    >)
        requires
            old(self).wf(),
            floor < old(self).position(),
        ensures
            final(self).wf(),
            final(self).stream() == old(self).stream(),
            yields(
                parse_branch(old(self).stream(), old(self).position(), floor),
                r,
                final(self).position(),
                |b: (Expression, Vec<Statement>)| (expression_view(b.0), statements_view(b.1)),
            ),
            r is Ok ==> old(self).position() < final(self).position(),
        decreases old(self).stream().len() - old(self).position(), 53int,
    {
        proof {
            lemma_branch(self.stream(), self.position(), floor);
        }
        let ghost ts = self.stream();
        let condition = self.expression()?;
        self.expect(&Token::Then, "'then'")?;
        proof {
            lemma_skip_newlines(ts, self.position());
        }
        self.skip_newlines();
        let block = self.block_until(Stop::Branch)?;
        Ok((condition, block))
    }

    /// Reads the `elsif` branches of an `if` statement.
    fn elsifs(&mut self) -> (r: Result<Vec<(Expression, Vec<Statement>)>, GizmoError>)
        requires
            old(self).wf(),
        ensures
            final(self).wf(),
            final(self).stream() == old(self).stream(),
            yields(
                parse_elsifs(old(self).stream(), old(self).position(), Seq::empty()),
                r,
                final(self).position(),
                |bs: Vec<(Expression, Vec<Statement>)>| elsifs_view(bs),
            ),
            r is Ok ==> old(self).position() <= final(self).position(),
        decreases old(self).stream().len() - old(self).position(), 54int,
    {
        let ghost ts = self.stream();
        let ghost start = self.position();
        let mut elsif_blocks: Vec<(Expression, Vec<Statement>)> = Vec::new();
        assert(elsifs_view(elsif_blocks) =~= Seq::<(ExpressionView, Seq<StatementView>)>::empty());
        let ghost target = parse_elsifs(ts, start, Seq::empty());
        loop
            invariant
                self.wf(),
                ts == self.stream(),
                ts == old(self).stream(),
                start == old(self).position(),
                start <= self.position(),
                target == parse_elsifs(ts, self.position(), elsifs_view(elsif_blocks)),
                target == parse_elsifs(ts, start, Seq::empty()),
            decreases self.stream().len() - self.position(),
        {
            proof {
                lemma_elsifs(self.stream(), self.position(), elsifs_view(elsif_blocks));
            }
            if !self.at(&Token::Elsif) {
                return Ok(elsif_blocks);
            }
            let ghost here = self.position();
            let ghost before = elsifs_view(elsif_blocks);
            self.bump();
            let next = self.branch(Ghost(here))?;
            elsif_blocks.push(next);
            assert(elsifs_view(elsif_blocks) =~= before.push(
                (expression_view(next.0), statements_view(next.1)),
            ));
        }
    }

    /// Reads an `if` statement.
    fn if_statement(&mut self) -> (r: Result<Statement, GizmoError>)
        requires
            old(self).wf(),
            peek(old(self).stream(), old(self).position()) is If,
        ensures
            final(self).wf(),
            final(self).stream() == old(self).stream(),
            yields(
                parse_if(old(self).stream(), old(self).position()),
                r,
                final(self).position(),
                of_statement(),
            ),
            r is Ok ==> old(self).position() < final(self).position(),
        decreases old(self).stream().len() - old(self).position(), 50int,
    {
        proof {
            lemma_if(self.stream(), self.position());
        }
        let ghost ts = self.stream();
        let ghost pos = self.position();
        self.bump();
        let first = self.branch(Ghost(pos))?;
        let elsif_blocks = self.elsifs()?;
        proof {
            lemma_else(self.stream(), self.position(), pos);
        }
        let else_block = if self.at(&Token::Else) {
            self.bump();
            Some(self.body(Ghost(pos))?)
        } else {
            self.expect(&Token::End, "'end'")?;
            self.end_statement();
            None
        };
        Ok(
            Statement::IfStatement {
                condition: first.0,
                then_block: first.1,
                elsif_blocks,
                else_block,
            },
        )
    }

    /// Reads a `repeat` statement.
    fn repeat_statement(&mut self) -> (r: Result<Statement, GizmoError>)
        requires
            old(self).wf(),
            peek(old(self).stream(), old(self).position()) is Repeat,
        ensures
            final(self).wf(),
            final(self).stream() == old(self).stream(),
            yields(
                parse_repeat(old(self).stream(), old(self).position()),
                r,
                final(self).position(),
                of_statement(),
            ),
            r is Ok ==> old(self).position() < final(self).position(),
        decreases old(self).stream().len() - old(self).position(), 50int,
    {
        proof {
            lemma_repeat(self.stream(), self.position());
        }
        let ghost pos = self.position();
        self.bump();
        let times = self.expression()?;
        self.expect(&Token::Times, "'times'")?;
        self.expect(&Token::Do, "'do'")?;
        let body = self.body(Ghost(pos))?;
        Ok(Statement::RepeatStatement { times, body })
    }

    /// Reads a `when` statement.
    fn when_statement(&mut self) -> (r: Result<Statement, GizmoError>)
        requires
            old(self).wf(),
            peek(old(self).stream(), old(self).position()) is When,
        ensures
            final(self).wf(),
            final(self).stream() == old(self).stream(),
            yields(
                parse_when(old(self).stream(), old(self).position()),
                r,
                final(self).position(),
                of_statement(),
            ),
            r is Ok ==> old(self).position() < final(self).position(),
        decreases old(self).stream().len() - old(self).position(), 50int,
    {
        proof {
            lemma_when(self.stream(), self.position());
            lemma_event(self.stream(), self.position() + 1, self.position());
        }
        let ghost pos = self.position();
        self.bump();
        let event = if self.at(&Token::Clicked) {
            self.bump();
            Event::Clicked
        } else if self.at(&Token::Idle) {
            self.bump();
            self.expect(&Token::Greater, "'>' after 'idle'")?;
            Event::Idle(self.expression()?)
        } else {
            return Err(self.failure_expected("event type"));
        };
        self.expect(&Token::Do, "'do'")?;
        let body = self.body(Ghost(pos))?;
        Ok(Statement::WhenStatement { event, body })
    }
}

} // verus!

//! What the parser computes: the syntax tree of a token sequence.
//!
//! Each function here reads one construct at a position of the token
//! sequence and gives its tree and the position behind it, or the message
//! of the first violation of the grammar. Binary operators of one level
//! group to the left, `^` and the conditional to the right. The levels, from
//! the loosest binding to the tightest: conditional, `or`, `and`, equality,
//! comparison, sum, product, power, unary, call and index, primary.
//!
//! The rules call one another, so each comes in three parts: the rule
//! itself, which the prover does not look into; its definition; and a lemma
//! that says the two are the same. A proof unfolds a rule where it calls
//! the lemma, and nowhere else.

use vstd::prelude::*;
use crate::ast::{
    BinaryOperator, EventView, ExpressionView, StatementView, UnaryOperator, VariableType,
};
use crate::token::TokenView;

verus! {

/// The result of reading one construct.
pub enum Parsed<T> {
    /// The construct and the position of the token behind it.
    Done { value: T, next: int },
    /// The message of a violation of the grammar.
    Failed { message: Seq<char> },
}

/// The token at `pos`; the end marker behind the last token.
pub open spec fn peek(ts: Seq<TokenView>, pos: int) -> TokenView {
    if 0 <= pos < ts.len() {
        ts[pos]
    } else {
        TokenView::Eof
    }
}

/// Whether no token is left to read at `pos`.
pub open spec fn at_end(ts: Seq<TokenView>, pos: int) -> bool {
    peek(ts, pos) is Eof
}

/// The message for a token that starts no expression.
pub open spec fn unexpected(found: TokenView) -> Seq<char> {
    "Unexpected token '"@ + found.text() + "'"@
}

/// The message for a token that is not the one the grammar asks for.
pub open spec fn expected(what: Seq<char>, found: TokenView) -> Seq<char> {
    "Expected "@ + what + ", found '"@ + found.text() + "'"@
}

/// The message for a construct that read nothing.
pub open spec fn stalled() -> Seq<char> {
    "No progress"@
}

/// A result that is kept only if it read at least one token.
pub open spec fn progress<T>(ts: Seq<TokenView>, pos: int, p: Parsed<T>) -> Parsed<T> {
    match p {
        Parsed::Done { value, next } => if pos < next <= ts.len() {
            p
        } else {
            Parsed::Failed { message: stalled() }
        },
        Parsed::Failed { message } => p,
    }
}

/// Reads the token `token`, which is called `what` in messages.
pub open spec fn expect(ts: Seq<TokenView>, pos: int, token: TokenView, what: Seq<char>) -> Parsed<()> {
    if peek(ts, pos) == token {
        Parsed::Done { value: (), next: pos + 1 }
    } else {
        Parsed::Failed { message: expected(what, peek(ts, pos)) }
    }
}

/// Reads an identifier.
pub open spec fn expect_identifier(ts: Seq<TokenView>, pos: int) -> Parsed<Seq<char>> {
    match peek(ts, pos) {
        TokenView::Identifier(name) => Parsed::Done { value: name, next: pos + 1 },
        found => Parsed::Failed { message: expected("identifier"@, found) },
    }
}

/// The position behind the line breaks that start at `pos`.
pub open spec fn skip_newlines(ts: Seq<TokenView>, pos: int) -> int
    decreases ts.len() - pos,
{
    if 0 <= pos < ts.len() && ts[pos] is Newline {
        skip_newlines(ts, pos + 1)
    } else {
        pos
    }
}

/// Skipping line breaks never goes back, and stops at a token that is none.
pub proof fn lemma_skip_newlines(ts: Seq<TokenView>, pos: int)
    ensures
        skip_newlines(ts, pos) >= pos,
        !(peek(ts, skip_newlines(ts, pos)) is Newline),
        pos <= ts.len() ==> skip_newlines(ts, pos) <= ts.len(),
    decreases ts.len() - pos,
{
    if 0 <= pos < ts.len() && ts[pos] is Newline {
        lemma_skip_newlines(ts, pos + 1);
    }
}

/// The position behind the end of a statement at `pos`: behind one
/// semicolon, if there is one, and the line breaks that follow.
pub open spec fn statement_end(ts: Seq<TokenView>, pos: int) -> int {
    if peek(ts, pos) is Semicolon {
        skip_newlines(ts, pos + 1)
    } else {
        skip_newlines(ts, pos)
    }
}

/// What ends a block.
#[derive(Clone, Copy, Debug, PartialEq, Eq, Structural)]
pub enum Stop {
    /// Only the end of the tokens: the block is the whole program.
    Program,
    /// `elsif`, `else` or `end`: the block is a branch of an `if`.
    Branch,
    /// `end`.
    End,
    /// `}`: the block is the body of a generator.
    Brace,
}

/// Whether `token` ends a block of the given kind.
pub open spec fn stops(stop: Stop, token: TokenView) -> bool {
    match stop {
        Stop::Program => false,
        Stop::Branch => token is Elsif || token is Else || token is End,
        Stop::End => token is End,
        Stop::Brace => token is RightBrace,
    }
}

/// The binary operator that a token is at the given level of binding.
pub open spec fn operator_at(level: int, token: TokenView) -> Option<BinaryOperator> {
    if level == 18 {
        if token is Or {
            Some(BinaryOperator::Or)
        } else {
            None
        }
    } else if level == 16 {
        if token is And {
            Some(BinaryOperator::And)
        } else {
            None
        }
    } else if level == 14 {
        if token is EqualEqual {
            Some(BinaryOperator::Equal)
        } else if token is NotEqual {
            Some(BinaryOperator::NotEqual)
        } else {
            None
        }
    } else if level == 12 {
        if token is Greater {
            Some(BinaryOperator::Greater)
        } else if token is GreaterEqual {
            Some(BinaryOperator::GreaterEqual)
        } else if token is Less {
            Some(BinaryOperator::Less)
        } else if token is LessEqual {
            Some(BinaryOperator::LessEqual)
        } else {
            None
        }
    } else if level == 10 {
        if token is Plus {
            Some(BinaryOperator::Add)
        } else if token is Minus {
            Some(BinaryOperator::Subtract)
        } else {
            None
        }
    } else if level == 8 {
        if token is Star {
            Some(BinaryOperator::Multiply)
        } else if token is Slash {
            Some(BinaryOperator::Divide)
        } else if token is Percent {
            Some(BinaryOperator::Modulo)
        } else {
            None
        }
    } else {
        None
    }
}

/// The declared type that a token names.
pub open spec fn type_of(token: TokenView) -> Option<VariableType> {
    match token {
        TokenView::Frame => Some(VariableType::Frame),
        TokenView::Frames => Some(VariableType::Frames),
        TokenView::Num => Some(VariableType::Num),
        TokenView::Text => Some(VariableType::Text),
        _ => None,
    }
}

/// A binary operation.
pub open spec fn binary(left: ExpressionView, operator: BinaryOperator, right: ExpressionView) -> ExpressionView {
    ExpressionView::Binary { left: Box::new(left), operator, right: Box::new(right) }
}

/// An expression: a conditional, or anything that binds tighter.
#[verifier::opaque]
pub open spec fn parse_expression(ts: Seq<TokenView>, pos: int) -> Parsed<ExpressionView>
    decreases ts.len() - pos, 22int, 1int,
{
    expression_rule(ts, pos)
}

/// The definition of `parse_expression`.
pub open spec fn expression_rule(ts: Seq<TokenView>, pos: int) -> Parsed<ExpressionView>
    decreases ts.len() - pos, 22int, 0int,
{
    progress(
        ts,
        pos,
        match parse_binary(ts, pos, 18) {
            Parsed::Failed { message } => Parsed::Failed { message },
            Parsed::Done { value: condition, next } => if !(peek(ts, next) is Question) {
                Parsed::Done { value: condition, next }
            } else if !(pos <= next <= ts.len()) {
                Parsed::Failed { message: stalled() }
            } else {
                match parse_expression(ts, next + 1) {
                    Parsed::Failed { message } => Parsed::Failed { message },
                    Parsed::Done { value: then_expr, next: colon } => match expect(
                        ts,
                        colon,
                        TokenView::Colon,
                        "':'"@,
                    ) {
                        Parsed::Failed { message } => Parsed::Failed { message },
                        Parsed::Done { value: _, next: after } => if !(pos < after <= ts.len()) {
                            Parsed::Failed { message: stalled() }
                        } else {
                            match parse_expression(ts, after) {
                                Parsed::Failed { message } => Parsed::Failed { message },
                                Parsed::Done {
                                    value: else_expr,
                                    next: end,
                                } => Parsed::Done {
                                    value: ExpressionView::Conditional {
                                        condition: Box::new(condition),
                                        then_expr: Box::new(then_expr),
                                        else_expr: Box::new(else_expr),
                                    },
                                    next: end,
                                },
                            }
                        },
                    },
                }
            },
        },
    )
}

/// `parse_expression` is what its definition says.
pub proof fn lemma_expression(ts: Seq<TokenView>, pos: int)
    ensures
        parse_expression(ts, pos) == expression_rule(ts, pos),
{
    reveal(parse_expression);
}

/// An operand of the binary operators of `level`: an expression of the next
/// tighter level.
#[verifier::opaque]
pub open spec fn parse_operand(ts: Seq<TokenView>, pos: int, level: int) -> Parsed<ExpressionView>
    decreases ts.len() - pos, level - 1, 1int,
{
    operand_rule(ts, pos, level)
}

/// The definition of `parse_operand`.
pub open spec fn operand_rule(ts: Seq<TokenView>, pos: int, level: int) -> Parsed<ExpressionView>
    decreases ts.len() - pos, level - 1, 0int,
{
    if level < 8 || level > 18 {
        Parsed::Failed { message: stalled() }
    } else if level > 8 {
        parse_binary(ts, pos, level - 2)
    } else {
        parse_power(ts, pos)
    }
}

/// `parse_operand` is what its definition says.
pub proof fn lemma_operand(ts: Seq<TokenView>, pos: int, level: int)
    ensures
        parse_operand(ts, pos, level) == operand_rule(ts, pos, level),
{
    reveal(parse_operand);
}

/// A chain of binary operators of one level, grouped to the left. The
/// levels are 18 for `or`, 16 for `and`, 14 for equality, 12 for comparison,
/// 10 for sums and 8 for products.
#[verifier::opaque]
pub open spec fn parse_binary(ts: Seq<TokenView>, pos: int, level: int) -> Parsed<ExpressionView>
    decreases ts.len() - pos, level, 1int,
{
    binary_rule(ts, pos, level)
}

/// The definition of `parse_binary`.
pub open spec fn binary_rule(ts: Seq<TokenView>, pos: int, level: int) -> Parsed<ExpressionView>
    decreases ts.len() - pos, level, 0int,
{
    if level < 8 || level > 18 {
        Parsed::Failed { message: stalled() }
    } else {
        progress(
            ts,
            pos,
            match parse_operand(ts, pos, level) {
                Parsed::Failed { message } => Parsed::Failed { message },
                Parsed::Done { value, next } => if pos < next <= ts.len() {
                    parse_binary_rest(ts, next, level, value)
                } else {
                    Parsed::Failed { message: stalled() }
                },
            },
        )
    }
}

/// `parse_binary` is what its definition says.
pub proof fn lemma_binary(ts: Seq<TokenView>, pos: int, level: int)
    ensures
        parse_binary(ts, pos, level) == binary_rule(ts, pos, level),
{
    reveal(parse_binary);
}

/// The rest of a chain of binary operators of one level, behind `left`.
#[verifier::opaque]
pub open spec fn parse_binary_rest(
    ts: Seq<TokenView>,
    pos: int,
    level: int,
    left: ExpressionView,
) -> Parsed<ExpressionView>
    decreases ts.len() - pos, level, 1int,
{
    binary_rest_rule(ts, pos, level, left)
}

/// The definition of `parse_binary_rest`.
pub open spec fn binary_rest_rule(
    ts: Seq<TokenView>,
    pos: int,
    level: int,
    left: ExpressionView,
) -> Parsed<ExpressionView>
    decreases ts.len() - pos, level, 0int,
{
    if level < 8 || level > 18 {
        Parsed::Failed { message: stalled() }
    } else {
        match operator_at(level, peek(ts, pos)) {
            None => Parsed::Done { value: left, next: pos },
            Some(operator) => match parse_operand(ts, pos + 1, level) {
                Parsed::Failed { message } => Parsed::Failed { message },
                Parsed::Done { value: right, next } => if pos < next <= ts.len() {
                    parse_binary_rest(ts, next, level, binary(left, operator, right))
                } else {
                    Parsed::Failed { message: stalled() }
                },
            },
        }
    }
}

/// `parse_binary_rest` is what its definition says.
pub proof fn lemma_binary_rest(
    ts: Seq<TokenView>,
    pos: int,
    level: int,
    left: ExpressionView,
)
    ensures
        parse_binary_rest(ts, pos, level, left) == binary_rest_rule(ts, pos, level, left),
{
    reveal(parse_binary_rest);
}

/// A power: `^` groups to the right.
#[verifier::opaque]
pub open spec fn parse_power(ts: Seq<TokenView>, pos: int) -> Parsed<ExpressionView>
    decreases ts.len() - pos, 6int, 1int,
{
    power_rule(ts, pos)
}

/// The definition of `parse_power`.
pub open spec fn power_rule(ts: Seq<TokenView>, pos: int) -> Parsed<ExpressionView>
    decreases ts.len() - pos, 6int, 0int,
{
    progress(
        ts,
        pos,
        match parse_unary(ts, pos) {
            Parsed::Failed { message } => Parsed::Failed { message },
            Parsed::Done { value: base, next } => if !(peek(ts, next) is Caret) {
                Parsed::Done { value: base, next }
            } else if !(pos <= next <= ts.len()) {
                Parsed::Failed { message: stalled() }
            } else {
                match parse_power(ts, next + 1) {
                    Parsed::Failed { message } => Parsed::Failed { message },
                    Parsed::Done { value: exponent, next: end } => Parsed::Done {
                        value: binary(base, BinaryOperator::Power, exponent),
                        next: end,
                    },
                }
            },
        },
    )
}

/// `parse_power` is what its definition says.
pub proof fn lemma_power(ts: Seq<TokenView>, pos: int)
    ensures
        parse_power(ts, pos) == power_rule(ts, pos),
{
    reveal(parse_power);
}

/// A unary operation: `not` or `-` before a unary operation, or a call.
#[verifier::opaque]
pub open spec fn parse_unary(ts: Seq<TokenView>, pos: int) -> Parsed<ExpressionView>
    decreases ts.len() - pos, 4int, 1int,
{
    unary_rule(ts, pos)
}

/// The definition of `parse_unary`.
pub open spec fn unary_rule(ts: Seq<TokenView>, pos: int) -> Parsed<ExpressionView>
    decreases ts.len() - pos, 4int, 0int,
{
    progress(
        ts,
        pos,
        if peek(ts, pos) is Not || peek(ts, pos) is Minus {
            match parse_unary(ts, pos + 1) {
                Parsed::Failed { message } => Parsed::Failed { message },
                Parsed::Done { value, next } => Parsed::Done {
                    value: ExpressionView::Unary {
                        operator: if peek(ts, pos) is Not {
                            UnaryOperator::Not
                        } else {
                            UnaryOperator::Minus
                        },
                        operand: Box::new(value),
                    },
                    next,
                },
            }
        } else {
            parse_call(ts, pos)
        },
    )
}

/// `parse_unary` is what its definition says.
pub proof fn lemma_unary(ts: Seq<TokenView>, pos: int)
    ensures
        parse_unary(ts, pos) == unary_rule(ts, pos),
{
    reveal(parse_unary);
}

/// A primary followed by any number of argument lists and indices.
#[verifier::opaque]
pub open spec fn parse_call(ts: Seq<TokenView>, pos: int) -> Parsed<ExpressionView>
    decreases ts.len() - pos, 2int, 1int,
{
    call_rule(ts, pos)
}

/// The definition of `parse_call`.
pub open spec fn call_rule(ts: Seq<TokenView>, pos: int) -> Parsed<ExpressionView>
    decreases ts.len() - pos, 2int, 0int,
{
    progress(
        ts,
        pos,
        match parse_primary(ts, pos) {
            Parsed::Failed { message } => Parsed::Failed { message },
            Parsed::Done { value, next } => if pos < next <= ts.len() {
                parse_call_rest(ts, next, value)
            } else {
                Parsed::Failed { message: stalled() }
            },
        },
    )
}

/// `parse_call` is what its definition says.
pub proof fn lemma_call(ts: Seq<TokenView>, pos: int)
    ensures
        parse_call(ts, pos) == call_rule(ts, pos),
{
    reveal(parse_call);
}

/// The argument lists and indices behind `callee`. Only a name can be
/// called.
#[verifier::opaque]
pub open spec fn parse_call_rest(ts: Seq<TokenView>, pos: int, callee: ExpressionView) -> Parsed<
    ExpressionView,
>
    decreases ts.len() - pos, 2int, 1int,
{
    call_rest_rule(ts, pos, callee)
}

/// The definition of `parse_call_rest`.
pub open spec fn call_rest_rule(ts: Seq<TokenView>, pos: int, callee: ExpressionView) -> Parsed<
    ExpressionView,
>
    decreases ts.len() - pos, 2int, 0int,
{
    if peek(ts, pos) is LeftParen {
        match parse_list(ts, skip_newlines(ts, pos + 1), pos + 1, TokenView::RightParen, Seq::empty()) {
            Parsed::Failed { message } => Parsed::Failed { message },
            Parsed::Done { value: args, next } => match expect(ts, next, TokenView::RightParen, "')'"@) {
                Parsed::Failed { message } => Parsed::Failed { message },
                Parsed::Done { value: _, next: after } => match callee {
                    ExpressionView::Identifier(name) => if pos < after <= ts.len() {
                        parse_call_rest(ts, after, ExpressionView::FunctionCall { name, args })
                    } else {
                        Parsed::Failed { message: stalled() }
                    },
                    _ => Parsed::Failed { message: "Can only call functions"@ },
                },
            },
        }
    } else if peek(ts, pos) is LeftBracket {
        match parse_expression(ts, pos + 1) {
            Parsed::Failed { message } => Parsed::Failed { message },
            Parsed::Done { value: index, next } => match expect(ts, next, TokenView::RightBracket, "']'"@) {
                Parsed::Failed { message } => Parsed::Failed { message },
                Parsed::Done { value: _, next: after } => if pos < after <= ts.len() {
                    parse_call_rest(
                        ts,
                        after,
                        ExpressionView::Index { object: Box::new(callee), index: Box::new(index) },
                    )
                } else {
                    Parsed::Failed { message: stalled() }
                },
            },
        }
    } else {
        Parsed::Done { value: callee, next: pos }
    }
}

/// `parse_call_rest` is what its definition says.
pub proof fn lemma_call_rest(ts: Seq<TokenView>, pos: int, callee: ExpressionView)
    ensures
        parse_call_rest(ts, pos, callee) == call_rest_rule(ts, pos, callee),
{
    reveal(parse_call_rest);
}

/// The expressions of a list up to, not including, its closing token.
/// They are separated by commas; line breaks may follow a comma and stand
/// before the closing token, and one comma may stand before it. `pos` is
/// behind the line breaks that follow the position `floor`, at which the
/// list or its last comma ended.
#[verifier::opaque]
pub open spec fn parse_list(
    ts: Seq<TokenView>,
    pos: int,
    floor: int,
    close: TokenView,
    acc: Seq<ExpressionView>,
) -> Parsed<Seq<ExpressionView>>
    decreases ts.len() - floor, 24int, 1int,
{
    list_rule(ts, pos, floor, close, acc)
}

/// The definition of `parse_list`.
pub open spec fn list_rule(
    ts: Seq<TokenView>,
    pos: int,
    floor: int,
    close: TokenView,
    acc: Seq<ExpressionView>,
) -> Parsed<Seq<ExpressionView>>
    decreases ts.len() - floor, 24int, 0int,
{
    if peek(ts, pos) == close {
        Parsed::Done { value: acc, next: pos }
    } else if !(floor <= pos <= ts.len()) {
        Parsed::Failed { message: stalled() }
    } else {
        match parse_expression(ts, pos) {
            Parsed::Failed { message } => Parsed::Failed { message },
            Parsed::Done { value, next } => if peek(ts, next) is Comma {
                if floor <= next < ts.len() {
                    parse_list(ts, skip_newlines(ts, next + 1), next + 1, close, acc.push(value))
                } else {
                    Parsed::Failed { message: stalled() }
                }
            } else {
                Parsed::Done { value: acc.push(value), next: skip_newlines(ts, next) }
            },
        }
    }
}

/// `parse_list` is what its definition says.
pub proof fn lemma_list(
    ts: Seq<TokenView>,
    pos: int,
    floor: int,
    close: TokenView,
    acc: Seq<ExpressionView>,
)
    ensures
        parse_list(ts, pos, floor, close, acc) == list_rule(ts, pos, floor, close, acc),
{
    reveal(parse_list);
}

/// A primary expression: a literal, a name, an expression in parentheses,
/// an array literal or a generator. Line breaks before it are skipped.
#[verifier::opaque]
pub open spec fn parse_primary(ts: Seq<TokenView>, pos: int) -> Parsed<ExpressionView>
    decreases ts.len() - pos, 0int, 1int,
{
    primary_rule(ts, pos)
}

/// The definition of `parse_primary`.
pub open spec fn primary_rule(ts: Seq<TokenView>, pos: int) -> Parsed<ExpressionView>
    decreases ts.len() - pos, 0int, 0int,
{
    progress(
        ts,
        pos,
        match peek(ts, pos) {
            TokenView::Number(s) => Parsed::Done { value: ExpressionView::Number(s), next: pos + 1 },
            TokenView::String(s) => Parsed::Done { value: ExpressionView::String(s), next: pos + 1 },
            TokenView::Identifier(s) => Parsed::Done {
                value: ExpressionView::Identifier(s),
                next: pos + 1,
            },
            TokenView::LeftParen => match parse_expression(ts, pos + 1) {
                Parsed::Failed { message } => Parsed::Failed { message },
                Parsed::Done { value, next } => match expect(ts, next, TokenView::RightParen, "')'"@) {
                    Parsed::Failed { message } => Parsed::Failed { message },
                    Parsed::Done { value: _, next: after } => Parsed::Done { value, next: after },
                },
            },
            TokenView::LeftBracket => match parse_list(
                ts,
                skip_newlines(ts, pos + 1),
                pos + 1,
                TokenView::RightBracket,
                Seq::empty(),
            ) {
                Parsed::Failed { message } => Parsed::Failed { message },
                Parsed::Done { value: elements, next } => match expect(
                    ts,
                    next,
                    TokenView::RightBracket,
                    "']'"@,
                ) {
                    Parsed::Failed { message } => Parsed::Failed { message },
                    Parsed::Done { value: _, next: after } => Parsed::Done {
                        value: ExpressionView::Array(elements),
                        next: after,
                    },
                },
            },
            TokenView::Pattern => parse_generator(ts, pos + 1, TokenView::Pattern),
            TokenView::Animate => parse_generator(ts, pos + 1, TokenView::Animate),
            TokenView::Evolve => parse_generator(ts, pos + 1, TokenView::Evolve),
            TokenView::Newline => if at_end(ts, skip_newlines(ts, pos)) {
                Parsed::Failed { message: "Unexpected end of input"@ }
            } else if pos < skip_newlines(ts, pos) <= ts.len() {
                parse_primary(ts, skip_newlines(ts, pos))
            } else {
                Parsed::Failed { message: stalled() }
            },
            found => Parsed::Failed { message: unexpected(found) },
        },
    )
}

/// `parse_primary` is what its definition says.
pub proof fn lemma_primary(ts: Seq<TokenView>, pos: int)
    ensures
        parse_primary(ts, pos) == primary_rule(ts, pos),
{
    reveal(parse_primary);
}

/// The name that a generator binds, behind its size: none for `pattern`,
/// the name behind `using` for `animate`, the name behind `from` for
/// `evolve`.
pub open spec fn parse_clause(ts: Seq<TokenView>, pos: int, keyword: TokenView) -> Parsed<Seq<char>> {
    if keyword is Pattern {
        Parsed::Done { value: Seq::empty(), next: pos }
    } else {
        match (if keyword is Animate {
            expect(ts, pos, TokenView::Using, "'using'"@)
        } else {
            expect(ts, pos, TokenView::From, "'from'"@)
        }) {
            Parsed::Failed { message } => Parsed::Failed { message },
            Parsed::Done { value: _, next } => expect_identifier(ts, next),
        }
    }
}

/// The generator of the given kind with the given parts.
pub open spec fn generator(
    keyword: TokenView,
    width: ExpressionView,
    height: ExpressionView,
    name: Seq<char>,
    body: Seq<StatementView>,
) -> ExpressionView {
    if keyword is Pattern {
        ExpressionView::PatternGenerator { width: Box::new(width), height: Box::new(height), body }
    } else if keyword is Animate {
        ExpressionView::AnimatedGenerator {
            width: Box::new(width),
            height: Box::new(height),
            time_var: name,
            body,
        }
    } else {
        ExpressionView::CellularGenerator {
            width: Box::new(width),
            height: Box::new(height),
            prev_var: name,
            body,
        }
    }
}

/// A generator behind its keyword: `(width, height)`, the clause that binds
/// a name, and the body between braces.
#[verifier::opaque]
pub open spec fn parse_generator(ts: Seq<TokenView>, pos: int, keyword: TokenView) -> Parsed<
    ExpressionView,
>
    decreases ts.len() - pos, 26int, 1int,
{
    generator_rule(ts, pos, keyword)
}

/// The definition of `parse_generator`.
pub open spec fn generator_rule(ts: Seq<TokenView>, pos: int, keyword: TokenView) -> Parsed<
    ExpressionView,
>
    decreases ts.len() - pos, 26int, 0int,
{
    match expect(ts, pos, TokenView::LeftParen, "'('"@) {
        Parsed::Failed { message } => Parsed::Failed { message },
        Parsed::Done { value: _, next: n1 } => match parse_expression(ts, n1) {
            Parsed::Failed { message } => Parsed::Failed { message },
            Parsed::Done { value: width, next: n2 } => match expect(ts, n2, TokenView::Comma, "','"@) {
                Parsed::Failed { message } => Parsed::Failed { message },
                Parsed::Done { value: _, next: n3 } => if !(pos < n3 <= ts.len()) {
                    Parsed::Failed { message: stalled() }
                } else {
                    match parse_expression(ts, n3) {
                        Parsed::Failed { message } => Parsed::Failed { message },
                        Parsed::Done { value: height, next: n4 } => match expect(
                            ts,
                            n4,
                            TokenView::RightParen,
                            "')'"@,
                        ) {
                            Parsed::Failed { message } => Parsed::Failed { message },
                            Parsed::Done { value: _, next: n5 } => match parse_clause(ts, n5, keyword) {
                                Parsed::Failed { message } => Parsed::Failed { message },
                                Parsed::Done { value: name, next: n6 } => match expect(
                                    ts,
                                    n6,
                                    TokenView::LeftBrace,
                                    "'{'"@,
                                ) {
                                    Parsed::Failed { message } => Parsed::Failed { message },
                                    Parsed::Done { value: _, next: n7 } => if !(pos < skip_newlines(ts, n7)
                                        <= ts.len()) {
                                        Parsed::Failed { message: stalled() }
                                    } else {
                                        match parse_block(
                                            ts,
                                            skip_newlines(ts, n7),
                                            Stop::Brace,
                                            Seq::empty(),
                                        ) {
                                            Parsed::Failed { message } => Parsed::Failed { message },
                                            Parsed::Done { value: body, next: n8 } => match expect(
                                                ts,
                                                n8,
                                                TokenView::RightBrace,
                                                "'}'"@,
                                            ) {
                                                Parsed::Failed { message } => Parsed::Failed { message },
                                                Parsed::Done { value: _, next: n9 } => Parsed::Done {
                                                    value: generator(
                                                        keyword,
                                                        width,
                                                        height,
                                                        name,
                                                        body,
                                                    ),
                                                    next: n9,
                                                },
                                            },
                                        }
                                    },
                                },
                            },
                        },
                    }
                },
            },
        },
    }
}

/// `parse_generator` is what its definition says.
pub proof fn lemma_generator(ts: Seq<TokenView>, pos: int, keyword: TokenView)
    ensures
        parse_generator(ts, pos, keyword) == generator_rule(ts, pos, keyword),
{
    reveal(parse_generator);
}

/// The statements of a block up to, not including, the token that ends it,
/// behind those in `acc`. Line breaks between statements are skipped.
#[verifier::opaque]
pub open spec fn parse_block(ts: Seq<TokenView>, pos: int, stop: Stop, acc: Seq<StatementView>) -> Parsed<
    Seq<StatementView>,
>
    decreases ts.len() - pos, 30int, 1int,
{
    block_rule(ts, pos, stop, acc)
}

/// The definition of `parse_block`.
pub open spec fn block_rule(ts: Seq<TokenView>, pos: int, stop: Stop, acc: Seq<StatementView>) -> Parsed<
    Seq<StatementView>,
>
    decreases ts.len() - pos, 30int, 0int,
{
    if at_end(ts, pos) || stops(stop, peek(ts, pos)) {
        Parsed::Done { value: acc, next: pos }
    } else if peek(ts, pos) is Newline {
        parse_block(ts, pos + 1, stop, acc)
    } else {
        match parse_statement(ts, pos) {
            Parsed::Failed { message } => Parsed::Failed { message },
            Parsed::Done { value, next } => if pos < next <= ts.len() {
                parse_block(ts, next, stop, acc.push(value))
            } else {
                Parsed::Failed { message: stalled() }
            },
        }
    }
}

/// `parse_block` is what its definition says.
pub proof fn lemma_block(ts: Seq<TokenView>, pos: int, stop: Stop, acc: Seq<StatementView>)
    ensures
        parse_block(ts, pos, stop, acc) == block_rule(ts, pos, stop, acc),
{
    reveal(parse_block);
}

/// A block behind the keyword that opens it and the line breaks behind
/// that, up to and including the `end` that closes it. `floor` is the
/// position of the statement that the block belongs to.
#[verifier::opaque]
pub open spec fn parse_body(ts: Seq<TokenView>, pos: int, floor: int) -> Parsed<Seq<StatementView>>
    decreases ts.len() - floor, 25int, 1int,
{
    body_rule(ts, pos, floor)
}

/// The definition of `parse_body`.
pub open spec fn body_rule(ts: Seq<TokenView>, pos: int, floor: int) -> Parsed<Seq<StatementView>>
    decreases ts.len() - floor, 25int, 0int,
{
    if !(floor < skip_newlines(ts, pos) <= ts.len()) {
        Parsed::Failed { message: stalled() }
    } else {
        match parse_block(ts, skip_newlines(ts, pos), Stop::End, Seq::empty()) {
            Parsed::Failed { message } => Parsed::Failed { message },
            Parsed::Done { value: body, next } => match expect(ts, next, TokenView::End, "'end'"@) {
                Parsed::Failed { message } => Parsed::Failed { message },
                Parsed::Done { value: _, next: after } => Parsed::Done {
                    value: body,
                    next: statement_end(ts, after),
                },
            },
        }
    }
}

/// `parse_body` is what its definition says.
pub proof fn lemma_body(ts: Seq<TokenView>, pos: int, floor: int)
    ensures
        parse_body(ts, pos, floor) == body_rule(ts, pos, floor),
{
    reveal(parse_body);
}

/// A branch of an `if` behind its `if` or `elsif`: the condition, `then`,
/// and the statements up to the next `elsif`, `else` or `end`.
#[verifier::opaque]
pub open spec fn parse_branch(ts: Seq<TokenView>, pos: int, floor: int) -> Parsed<
    (ExpressionView, Seq<StatementView>),
>
    decreases ts.len() - floor, 25int, 1int,
{
    branch_rule(ts, pos, floor)
}

/// The definition of `parse_branch`.
pub open spec fn branch_rule(ts: Seq<TokenView>, pos: int, floor: int) -> Parsed<
    (ExpressionView, Seq<StatementView>),
>
    decreases ts.len() - floor, 25int, 0int,
{
    if !(floor < pos <= ts.len()) {
        Parsed::Failed { message: stalled() }
    } else {
        match parse_expression(ts, pos) {
            Parsed::Failed { message } => Parsed::Failed { message },
            Parsed::Done { value: condition, next } => match expect(ts, next, TokenView::Then, "'then'"@) {
                Parsed::Failed { message } => Parsed::Failed { message },
                Parsed::Done { value: _, next: after } => if !(floor < skip_newlines(ts, after) <= ts.len()) {
                    Parsed::Failed { message: stalled() }
                } else {
                    match parse_block(ts, skip_newlines(ts, after), Stop::Branch, Seq::empty()) {
                        Parsed::Failed { message } => Parsed::Failed { message },
                        Parsed::Done { value: block, next: end } => Parsed::Done {
                            value: (condition, block),
                            next: end,
                        },
                    }
                },
            },
        }
    }
}

/// `parse_branch` is what its definition says.
pub proof fn lemma_branch(ts: Seq<TokenView>, pos: int, floor: int)
    ensures
        parse_branch(ts, pos, floor) == branch_rule(ts, pos, floor),
{
    reveal(parse_branch);
}

/// The `elsif` branches of an `if`, behind those in `acc`.
#[verifier::opaque]
pub open spec fn parse_elsifs(
    ts: Seq<TokenView>,
    pos: int,
    acc: Seq<(ExpressionView, Seq<StatementView>)>,
) -> Parsed<Seq<(ExpressionView, Seq<StatementView>)>>
    decreases ts.len() - pos, 27int, 1int,
{
    elsifs_rule(ts, pos, acc)
}

/// The definition of `parse_elsifs`.
pub open spec fn elsifs_rule(
    ts: Seq<TokenView>,
    pos: int,
    acc: Seq<(ExpressionView, Seq<StatementView>)>,
) -> Parsed<Seq<(ExpressionView, Seq<StatementView>)>>
    decreases ts.len() - pos, 27int, 0int,
{
    if peek(ts, pos) is Elsif {
        match parse_branch(ts, pos + 1, pos) {
            Parsed::Failed { message } => Parsed::Failed { message },
            Parsed::Done { value, next } => if pos < next <= ts.len() {
                parse_elsifs(ts, next, acc.push(value))
            } else {
                Parsed::Failed { message: stalled() }
            },
        }
    } else {
        Parsed::Done { value: acc, next: pos }
    }
}

/// `parse_elsifs` is what its definition says.
pub proof fn lemma_elsifs(
    ts: Seq<TokenView>,
    pos: int,
    acc: Seq<(ExpressionView, Seq<StatementView>)>,
)
    ensures
        parse_elsifs(ts, pos, acc) == elsifs_rule(ts, pos, acc),
{
    reveal(parse_elsifs);
}

/// What follows the branches of an `if` that started at `floor`: an
/// optional `else` with its statements, and the closing `end`.
#[verifier::opaque]
pub open spec fn parse_else(ts: Seq<TokenView>, pos: int, floor: int) -> Parsed<
    Option<Seq<StatementView>>,
>
    decreases ts.len() - floor, 26int, 1int,
{
    else_rule(ts, pos, floor)
}

/// The definition of `parse_else`.
pub open spec fn else_rule(ts: Seq<TokenView>, pos: int, floor: int) -> Parsed<
    Option<Seq<StatementView>>,
>
    decreases ts.len() - floor, 26int, 0int,
{
    if peek(ts, pos) is Else {
        match parse_body(ts, pos + 1, floor) {
            Parsed::Failed { message } => Parsed::Failed { message },
            Parsed::Done { value, next } => Parsed::Done { value: Some(value), next },
        }
    } else {
        match expect(ts, pos, TokenView::End, "'end'"@) {
            Parsed::Failed { message } => Parsed::Failed { message },
            Parsed::Done { value: _, next } => Parsed::Done { value: None, next: statement_end(ts, next) },
        }
    }
}

/// `parse_else` is what its definition says.
pub proof fn lemma_else(ts: Seq<TokenView>, pos: int, floor: int)
    ensures
        parse_else(ts, pos, floor) == else_rule(ts, pos, floor),
{
    reveal(parse_else);
}

/// The event of a `when` statement: `clicked`, or `idle >` and a limit.
#[verifier::opaque]
pub open spec fn parse_event(ts: Seq<TokenView>, pos: int, floor: int) -> Parsed<EventView>
    decreases ts.len() - floor, 25int, 1int,
{
    event_rule(ts, pos, floor)
}

/// The definition of `parse_event`.
pub open spec fn event_rule(ts: Seq<TokenView>, pos: int, floor: int) -> Parsed<EventView>
    decreases ts.len() - floor, 25int, 0int,
{
    match peek(ts, pos) {
        TokenView::Clicked => Parsed::Done { value: EventView::Clicked, next: pos + 1 },
        TokenView::Idle => match expect(ts, pos + 1, TokenView::Greater, "'>' after 'idle'"@) {
            Parsed::Failed { message } => Parsed::Failed { message },
            Parsed::Done { value: _, next } => if !(floor < next <= ts.len()) {
                Parsed::Failed { message: stalled() }
            } else {
                match parse_expression(ts, next) {
                    Parsed::Failed { message } => Parsed::Failed { message },
                    Parsed::Done { value, next: end } => Parsed::Done {
                        value: EventView::Idle(value),
                        next: end,
                    },
                }
            },
        },
        found => Parsed::Failed { message: expected("event type"@, found) },
    }
}

/// `parse_event` is what its definition says.
pub proof fn lemma_event(ts: Seq<TokenView>, pos: int, floor: int)
    ensures
        parse_event(ts, pos, floor) == event_rule(ts, pos, floor),
{
    reveal(parse_event);
}

/// A declaration: a type keyword, a name, `=` and an expression.
#[verifier::opaque]
pub open spec fn parse_declaration(ts: Seq<TokenView>, pos: int) -> Parsed<StatementView>
    decreases ts.len() - pos, 27int, 1int,
{
    declaration_rule(ts, pos)
}

/// The definition of `parse_declaration`.
pub open spec fn declaration_rule(ts: Seq<TokenView>, pos: int) -> Parsed<StatementView>
    decreases ts.len() - pos, 27int, 0int,
{
    match type_of(peek(ts, pos)) {
        None => Parsed::Failed { message: expected("variable type"@, peek(ts, pos)) },
        Some(var_type) => match expect_identifier(ts, pos + 1) {
            Parsed::Failed { message } => Parsed::Failed { message },
            Parsed::Done { value: name, next: n1 } => match expect(ts, n1, TokenView::Equal, "'='"@) {
                Parsed::Failed { message } => Parsed::Failed { message },
                Parsed::Done { value: _, next: n2 } => match parse_expression(ts, n2) {
                    Parsed::Failed { message } => Parsed::Failed { message },
                    Parsed::Done { value, next: n3 } => Parsed::Done {
                        value: StatementView::VariableDeclaration { var_type, name, value },
                        next: statement_end(ts, n3),
                    },
                },
            },
        },
    }
}

/// `parse_declaration` is what its definition says.
pub proof fn lemma_declaration(ts: Seq<TokenView>, pos: int)
    ensures
        parse_declaration(ts, pos) == declaration_rule(ts, pos),
{
    reveal(parse_declaration);
}

/// An assignment: a name, `=` and an expression.
#[verifier::opaque]
pub open spec fn parse_assignment(ts: Seq<TokenView>, pos: int) -> Parsed<StatementView>
    decreases ts.len() - pos, 27int, 1int,
{
    assignment_rule(ts, pos)
}

/// The definition of `parse_assignment`.
pub open spec fn assignment_rule(ts: Seq<TokenView>, pos: int) -> Parsed<StatementView>
    decreases ts.len() - pos, 27int, 0int,
{
    match expect_identifier(ts, pos) {
        Parsed::Failed { message } => Parsed::Failed { message },
        Parsed::Done { value: name, next: n1 } => match expect(ts, n1, TokenView::Equal, "'='"@) {
            Parsed::Failed { message } => Parsed::Failed { message },
            Parsed::Done { value: _, next: n2 } => if !(pos < n2 <= ts.len()) {
                Parsed::Failed { message: stalled() }
            } else {
                match parse_expression(ts, n2) {
                    Parsed::Failed { message } => Parsed::Failed { message },
                    Parsed::Done { value, next: n3 } => Parsed::Done {
                        value: StatementView::Assignment { name, value },
                        next: statement_end(ts, n3),
                    },
                }
            },
        },
    }
}

/// `parse_assignment` is what its definition says.
pub proof fn lemma_assignment(ts: Seq<TokenView>, pos: int)
    ensures
        parse_assignment(ts, pos) == assignment_rule(ts, pos),
{
    reveal(parse_assignment);
}

/// An expression statement.
#[verifier::opaque]
pub open spec fn parse_expression_statement(ts: Seq<TokenView>, pos: int) -> Parsed<StatementView>
    decreases ts.len() - pos, 27int, 1int,
{
    expression_statement_rule(ts, pos)
}

/// The definition of `parse_expression_statement`.
pub open spec fn expression_statement_rule(ts: Seq<TokenView>, pos: int) -> Parsed<StatementView>
    decreases ts.len() - pos, 27int, 0int,
{
    match parse_expression(ts, pos) {
        Parsed::Failed { message } => Parsed::Failed { message },
        Parsed::Done { value, next } => Parsed::Done {
            value: StatementView::ExpressionStatement(value),
            next: statement_end(ts, next),
        },
    }
}

/// `parse_expression_statement` is what its definition says.
pub proof fn lemma_expression_statement(ts: Seq<TokenView>, pos: int)
    ensures
        parse_expression_statement(ts, pos) == expression_statement_rule(ts, pos),
{
    reveal(parse_expression_statement);
}

/// A `return` statement, at its keyword.
#[verifier::opaque]
pub open spec fn parse_return(ts: Seq<TokenView>, pos: int) -> Parsed<StatementView>
    decreases ts.len() - pos, 27int, 1int,
{
    return_rule(ts, pos)
}

/// The definition of `parse_return`.
pub open spec fn return_rule(ts: Seq<TokenView>, pos: int) -> Parsed<StatementView>
    decreases ts.len() - pos, 27int, 0int,
{
    if !(peek(ts, pos) is Return) {
        Parsed::Failed { message: expected("'return'"@, peek(ts, pos)) }
    } else {
        match parse_expression(ts, pos + 1) {
            Parsed::Failed { message } => Parsed::Failed { message },
            Parsed::Done { value, next } => Parsed::Done {
                value: StatementView::ReturnStatement(value),
                next: statement_end(ts, next),
            },
        }
    }
}

/// `parse_return` is what its definition says.
pub proof fn lemma_return(ts: Seq<TokenView>, pos: int)
    ensures
        parse_return(ts, pos) == return_rule(ts, pos),
{
    reveal(parse_return);
}

/// An `if` statement, at its keyword: the first branch, any number of
/// `elsif` branches, an optional `else` with its statements, and `end`.
#[verifier::opaque]
pub open spec fn parse_if(ts: Seq<TokenView>, pos: int) -> Parsed<StatementView>
    decreases ts.len() - pos, 27int, 1int,
{
    if_rule(ts, pos)
}

/// The definition of `parse_if`.
pub open spec fn if_rule(ts: Seq<TokenView>, pos: int) -> Parsed<StatementView>
    decreases ts.len() - pos, 27int, 0int,
{
    if !(peek(ts, pos) is If) {
        Parsed::Failed { message: expected("'if'"@, peek(ts, pos)) }
    } else {
        match parse_branch(ts, pos + 1, pos) {
            Parsed::Failed { message } => Parsed::Failed { message },
            Parsed::Done { value: first, next: n1 } => if !(pos < n1 <= ts.len()) {
                Parsed::Failed { message: stalled() }
            } else {
                match parse_elsifs(ts, n1, Seq::empty()) {
                    Parsed::Failed { message } => Parsed::Failed { message },
                    Parsed::Done { value: elsif_blocks, next: n2 } => match parse_else(ts, n2, pos) {
                        Parsed::Failed { message } => Parsed::Failed { message },
                        Parsed::Done { value: else_block, next: n3 } => Parsed::Done {
                            value: StatementView::IfStatement {
                                condition: first.0,
                                then_block: first.1,
                                elsif_blocks,
                                else_block,
                            },
                            next: n3,
                        },
                    },
                }
            },
        }
    }
}

/// `parse_if` is what its definition says.
pub proof fn lemma_if(ts: Seq<TokenView>, pos: int)
    ensures
        parse_if(ts, pos) == if_rule(ts, pos),
{
    reveal(parse_if);
}

/// A `repeat` statement, at its keyword: the count, `times`, `do`, the
/// body and `end`.
#[verifier::opaque]
pub open spec fn parse_repeat(ts: Seq<TokenView>, pos: int) -> Parsed<StatementView>
    decreases ts.len() - pos, 27int, 1int,
{
    repeat_rule(ts, pos)
}

/// The definition of `parse_repeat`.
pub open spec fn repeat_rule(ts: Seq<TokenView>, pos: int) -> Parsed<StatementView>
    decreases ts.len() - pos, 27int, 0int,
{
    if !(peek(ts, pos) is Repeat) {
        Parsed::Failed { message: expected("'repeat'"@, peek(ts, pos)) }
    } else {
        match parse_expression(ts, pos + 1) {
            Parsed::Failed { message } => Parsed::Failed { message },
            Parsed::Done { value: times, next: n1 } => match expect(ts, n1, TokenView::Times, "'times'"@) {
                Parsed::Failed { message } => Parsed::Failed { message },
                Parsed::Done { value: _, next: n2 } => match expect(ts, n2, TokenView::Do, "'do'"@) {
                    Parsed::Failed { message } => Parsed::Failed { message },
                    Parsed::Done { value: _, next: n3 } => match parse_body(ts, n3, pos) {
                        Parsed::Failed { message } => Parsed::Failed { message },
                        Parsed::Done { value: body, next: n4 } => Parsed::Done {
                            value: StatementView::RepeatStatement { times, body },
                            next: n4,
                        },
                    },
                },
            },
        }
    }
}

/// `parse_repeat` is what its definition says.
pub proof fn lemma_repeat(ts: Seq<TokenView>, pos: int)
    ensures
        parse_repeat(ts, pos) == repeat_rule(ts, pos),
{
    reveal(parse_repeat);
}

/// A `when` statement, at its keyword: the event, `do`, the body and
/// `end`. Nothing of the body runs when the statement is read.
#[verifier::opaque]
pub open spec fn parse_when(ts: Seq<TokenView>, pos: int) -> Parsed<StatementView>
    decreases ts.len() - pos, 27int, 1int,
{
    when_rule(ts, pos)
}

/// The definition of `parse_when`.
pub open spec fn when_rule(ts: Seq<TokenView>, pos: int) -> Parsed<StatementView>
    decreases ts.len() - pos, 27int, 0int,
{
    if !(peek(ts, pos) is When) {
        Parsed::Failed { message: expected("'when'"@, peek(ts, pos)) }
    } else {
        match parse_event(ts, pos + 1, pos) {
            Parsed::Failed { message } => Parsed::Failed { message },
            Parsed::Done { value: event, next: n1 } => match expect(ts, n1, TokenView::Do, "'do'"@) {
                Parsed::Failed { message } => Parsed::Failed { message },
                Parsed::Done { value: _, next: n2 } => match parse_body(ts, n2, pos) {
                    Parsed::Failed { message } => Parsed::Failed { message },
                    Parsed::Done { value: body, next: n3 } => Parsed::Done {
                        value: StatementView::WhenStatement { event, body },
                        next: n3,
                    },
                },
            },
        }
    }
}

/// `parse_when` is what its definition says.
pub proof fn lemma_when(ts: Seq<TokenView>, pos: int)
    ensures
        parse_when(ts, pos) == when_rule(ts, pos),
{
    reveal(parse_when);
}

/// A statement.
///
/// A type keyword starts a declaration, `if`, `repeat`, `when` and `return`
/// their statements, a name followed by `=` an assignment; anything else is
/// an expression statement. A statement ends behind one optional semicolon
/// and the line breaks that follow it.
#[verifier::opaque]
pub open spec fn parse_statement(ts: Seq<TokenView>, pos: int) -> Parsed<StatementView>
    decreases ts.len() - pos, 28int, 1int,
{
    statement_rule(ts, pos)
}

/// The definition of `parse_statement`.
pub open spec fn statement_rule(ts: Seq<TokenView>, pos: int) -> Parsed<StatementView>
    decreases ts.len() - pos, 28int, 0int,
{
    progress(
        ts,
        pos,
        match peek(ts, pos) {
            TokenView::Frame | TokenView::Frames | TokenView::Num | TokenView::Text => parse_declaration(
                ts,
                pos,
            ),
            TokenView::If => parse_if(ts, pos),
            TokenView::Repeat => parse_repeat(ts, pos),
            TokenView::When => parse_when(ts, pos),
            TokenView::Return => parse_return(ts, pos),
            TokenView::Identifier(_) => if peek(ts, pos + 1) is Equal {
                parse_assignment(ts, pos)
            } else {
                parse_expression_statement(ts, pos)
            },
            _ => parse_expression_statement(ts, pos),
        },
    )
}

/// `parse_statement` is what its definition says.
pub proof fn lemma_statement(ts: Seq<TokenView>, pos: int)
    ensures
        parse_statement(ts, pos) == statement_rule(ts, pos),
{
    reveal(parse_statement);
}

/// The program that a token sequence is.
pub open spec fn parse_program(ts: Seq<TokenView>) -> Parsed<Seq<StatementView>> {
    parse_block(ts, 0, Stop::Program, Seq::empty())
}

} // verus!

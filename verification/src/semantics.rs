//! What the interpreter computes, as relations between the state before,
//! the state after and the result.
//!
//! The arithmetic that rounds is done by an engine, and every relation
//! here takes the engine and speaks of its answers by their names. A
//! relation says which results an evaluation can have: it fixes the order
//! of evaluation, what every operator and builtin is applied to and what
//! comes of it, how failures travel, and what becomes of the state. Only
//! `random` leaves something open: which number of the unit interval it
//! gives.
//!
//! The relations call one another, so each comes in three parts: the
//! relation itself, which the prover does not look into; its definition;
//! and a lemma that says the two are the same. A proof unfolds a relation
//! where it calls the lemma, and nowhere else.

use vstd::prelude::*;
use crate::ast::{BinaryOperator, EventView, ExpressionView, StatementView, UnaryOperator};
use crate::builtin::{gives, outcome, values_view, Builtin};
use crate::environment::{resolve, ScopeView};
use crate::error::{ErrorKind, GizmoError};
use crate::frame::FrameView;
use crate::interpreter::{
    click_key, control_effect, idle_key, invalid_number_message, is_control, Flow,
    InterpreterView,
};
use crate::number::{Number, NumberEngine};
use crate::operators::{array_outcome, binary_outcome, index_outcome, unary_outcome};
use crate::value::{not_a_number_message, Value, ValueView};

verus! {

/// The state with `name` bound to `v` in the innermost scope.
pub open spec fn bound(s: InterpreterView, name: Seq<char>, v: ValueView) -> InterpreterView {
    InterpreterView {
        scopes: s.scopes.update(s.scopes.len() - 1, s.scopes.last().insert(name, v)),
        ..s
    }
}

/// The state with `body` registered for the event with the given key.
pub open spec fn registered(s: InterpreterView, key: Seq<char>, body: Seq<StatementView>) -> InterpreterView {
    InterpreterView { handlers: s.handlers.insert(key, body), ..s }
}

/// The bindings of the scope of one pixel.
pub open spec fn pixel_bindings(extra: Option<(Seq<char>, ValueView)>, row: Number, col: Number) -> ScopeView {
    let coordinates = Map::<Seq<char>, ValueView>::empty().insert(
        "row"@,
        ValueView::Number(row),
    ).insert("col"@, ValueView::Number(col));
    match extra {
        Some((name, value)) => coordinates.insert(name, value),
        None => coordinates,
    }
}

/// The state with the scope of one pixel opened as the innermost.
pub open spec fn pixel_scope(
    s: InterpreterView,
    extra: Option<(Seq<char>, ValueView)>,
    row: Number,
    col: Number,
) -> InterpreterView {
    InterpreterView { scopes: s.scopes.push(pixel_bindings(extra, row, col)), ..s }
}

/// The number of round `k` of a `repeat`, as a value.
pub open spec fn round_number(k: int) -> ValueView {
    ValueView::Number(Number::of_integer(k as nat))
}

/// The state with the innermost scope closed.
pub open spec fn left_scope(s: InterpreterView) -> InterpreterView {
    InterpreterView { scopes: s.scopes.drop_last(), ..s }
}

/// What a name evaluates to: the value of the innermost scope that binds
/// it. The name `time`, where no scope binds it, is the clock as a number.
/// Any other unbound name is an undefined-variable error that carries the
/// name.
pub open spec fn named(s: InterpreterView, name: Seq<char>, r: Result<Value, GizmoError>) -> bool {
    match resolve(s.scopes, name) {
        Some(v) => r is Ok && r->Ok_0@ == v,
        None => if name == "time"@ {
            r is Ok && r->Ok_0@ == ValueView::Number(Number::of_integer(s.clock as nat))
        } else {
            r is Err && r->Err_0.kind() == ErrorKind::UndefinedVariable && r->Err_0.detail() == name
        },
    }
}

/// What a value is as a number: a number is itself and a boolean is 1 or
/// 0; a string is the number that the engine reads in it, or a type error;
/// a frame or a frame sequence is a type error.
pub open spec fn coerced<E: NumberEngine>(engine: E, v: ValueView, r: Result<Number, GizmoError>) -> bool {
    match v.as_number(engine) {
        Some(n) => r == Ok::<Number, GizmoError>(n),
        None => r is Err && r->Err_0.kind() == ErrorKind::Type && r->Err_0.detail()
            == not_a_number_message(v),
    }
}

/// What `add_frame` does with the values of its two arguments: it appends
/// the frame to the sequence and gives the longer sequence. Where the first
/// argument is a name, the longer sequence is also bound to that name in the
/// innermost scope, and a name that held no sequence starts an empty one.
pub open spec fn frame_added(
    args: Seq<ExpressionView>,
    vs: Seq<ValueView>,
    s0: InterpreterView,
    s1: InterpreterView,
    r: Result<Value, GizmoError>,
) -> bool {
    if vs.len() != 2 {
        r is Err && r->Err_0.kind() == ErrorKind::Argument && s1 == s0
    } else if !(vs[1] is Frame) {
        r is Err && r->Err_0.kind() == ErrorKind::Type && s1 == s0
    } else if !(vs[0] is Frames) && !(args[0] is Identifier) {
        r is Err && r->Err_0.kind() == ErrorKind::Type && s1 == s0
    } else {
        let longer = if vs[0] is Frames {
            vs[0]->Frames_0.push(vs[1]->Frame_0)
        } else {
            seq![vs[1]->Frame_0]
        };
        r is Ok && r->Ok_0@ == ValueView::Frames(longer) && s1 == (if args[0] is Identifier {
            bound(s0, args[0]->Identifier_0, ValueView::Frames(longer))
        } else {
            s0
        })
    }
}

/// What applying the function called `name` to the values `vs` of its
/// arguments does. A name that is no builtin is an undefined-function error
/// that carries the name.
pub open spec fn applied<E: NumberEngine>(
    engine: E,
    name: Seq<char>,
    args: Seq<ExpressionView>,
    vs: Seq<ValueView>,
    s0: InterpreterView,
    s1: InterpreterView,
    r: Result<Value, GizmoError>,
) -> bool {
    match Builtin::named(name) {
        None => s1 == s0 && r is Err && r->Err_0.kind() == ErrorKind::UndefinedFunction
            && r->Err_0.detail() == name,
        Some(Builtin::AddFrame) => frame_added(args, vs, s0, s1, r),
        Some(b) => outcome(engine, b, vs, r) && if is_control(b) && r is Ok {
            s1 == control_effect(s0, b, vs)
        } else {
            s1 == s0
        },
    }
}

/// Whether evaluating `e` in state `s0` can end in state `s1` with result
/// `r`.
///
/// Literals and names leave the state alone. Operands, elements and
/// arguments are evaluated from left to right, each in the state that the
/// one before left behind; the first failure ends the evaluation and is the
/// result. `and` and `or` evaluate their right operand only where the left
/// one does not decide, and the conditional evaluates one branch only.
#[verifier::opaque]
pub open spec fn evaluates<E: NumberEngine>(
    engine: E, e: ExpressionView, s0: InterpreterView, s1: InterpreterView, r: Result<Value,
    GizmoError>,
) -> bool
    decreases e, 10int, 0int, 1int,
{
    evaluates_rule(engine, e, s0, s1, r)
}

/// The definition of `evaluates`.
pub open spec fn evaluates_rule<E: NumberEngine>(
    engine: E, e: ExpressionView, s0: InterpreterView, s1: InterpreterView, r: Result<Value,
    GizmoError>,
) -> bool
    decreases e, 10int, 0int, 0int,
{
    match e {
        ExpressionView::Number(t) => s1 == s0 && match engine.parsed(t) {
            Some(n) => gives(r, ValueView::Number(n)),
            None => r is Err && r->Err_0.kind() == ErrorKind::Lex && r->Err_0.detail()
                == invalid_number_message(t),
        },
        ExpressionView::String(t) => s1 == s0 && r is Ok && r->Ok_0@ == ValueView::String(t),
        ExpressionView::Boolean(b) => s1 == s0 && r is Ok && r->Ok_0@ == ValueView::Boolean(b),
        ExpressionView::Identifier(name) => s1 == s0 && named(s0, name, r),
        ExpressionView::Array(elements) => exists|ra: Result<Vec<Value>, GizmoError>|
            #[trigger] array_via(engine, e, s0, s1, ra, r),
        ExpressionView::FunctionCall { name, args } => exists|sm: InterpreterView, ra: Result<Vec<Value>, GizmoError>|
            #[trigger] call_via(engine, e, s0, sm, ra, s1, r),
        ExpressionView::Binary { left, operator, right } => exists|sm: InterpreterView, rl: Result<Value, GizmoError>, rr: Result<Value, GizmoError>|
            #[trigger] binary_via(engine, e, s0, sm, rl, rr, s1, r),
        ExpressionView::Unary { operator, operand } => exists|ro: Result<Value, GizmoError>|
            #[trigger] unary_via(engine, operator, *operand, s0, s1, ro, r),
        ExpressionView::Index { object, index } => exists|sm: InterpreterView, ro: Result<Value, GizmoError>, ri: Result<Value, GizmoError>|
            #[trigger] index_via(engine, e, s0, sm, ro, ri, s1, r),
        ExpressionView::PatternGenerator { width, height, body } => exists|sa: InterpreterView, sb: InterpreterView, w: Result<Number, GizmoError>, h: Result<Number, GizmoError>|
            #[trigger] generator_via(engine, e, s0, sa, sb, w, h, s1, r),
        ExpressionView::AnimatedGenerator { width, height, time_var, body } => exists|sa: InterpreterView, sb: InterpreterView, w: Result<Number, GizmoError>, h: Result<Number, GizmoError>|
            #[trigger] generator_via(engine, e, s0, sa, sb, w, h, s1, r),
        ExpressionView::CellularGenerator { width, height, prev_var, body } => exists|sa: InterpreterView, sb: InterpreterView, w: Result<Number, GizmoError>, h: Result<Number, GizmoError>|
            #[trigger] cellular_via(engine, e, s0, sa, sb, w, h, s1, r),
        ExpressionView::Conditional { condition, then_expr, else_expr } => exists|sm: InterpreterView, rc: Result<Value, GizmoError>|
            #[trigger] conditional_via(engine, e, s0, sm, rc, s1, r),
    }
}

/// `evaluates` is what its definition says.
pub proof fn lemma_evaluates<E: NumberEngine>(
    engine: E, e: ExpressionView, s0: InterpreterView, s1: InterpreterView, r: Result<Value,
    GizmoError>,
)
    ensures
        evaluates(engine, e, s0, s1, r) == evaluates_rule(engine, e, s0, s1, r),
{
    reveal(evaluates);
}

/// An array literal: its elements are evaluated, and their values decide
/// what the array is.
#[verifier::opaque]
pub open spec fn array_via<E: NumberEngine>(
    engine: E, e: ExpressionView, s0: InterpreterView, s1: InterpreterView, ra: Result<Vec<Value>,
    GizmoError>, r: Result<Value, GizmoError>,
) -> bool
    decreases e, 5int, 0int, 1int,
{
    array_via_rule(engine, e, s0, s1, ra, r)
}

/// The definition of `array_via`.
pub open spec fn array_via_rule<E: NumberEngine>(
    engine: E, e: ExpressionView, s0: InterpreterView, s1: InterpreterView, ra: Result<Vec<Value>,
    GizmoError>, r: Result<Value, GizmoError>,
) -> bool
    decreases e, 5int, 0int, 0int,
{
    match e {
        ExpressionView::Array(es) => evaluates_all(engine, es, s0, s1, ra) && match ra {
            Err(x) => r is Err && r->Err_0 == x,
            Ok(vs) => array_outcome(values_view(vs@), r),
        },
        _ => false,
    }
}

/// `array_via` is what its definition says.
pub proof fn lemma_array_via<E: NumberEngine>(
    engine: E, e: ExpressionView, s0: InterpreterView, s1: InterpreterView, ra: Result<Vec<Value>,
    GizmoError>, r: Result<Value, GizmoError>,
)
    ensures
        array_via(engine, e, s0, s1, ra, r) == array_via_rule(engine, e, s0, s1, ra, r),
{
    reveal(array_via);
}

/// A call: the arguments are evaluated, then the function is applied to
/// their values. An animation control changes the interpreter, `add_frame`
/// may bind a name, and every other builtin only computes.
#[verifier::opaque]
pub open spec fn call_via<E: NumberEngine>(
    engine: E, e: ExpressionView, s0: InterpreterView, sm: InterpreterView, ra: Result<Vec<Value>,
    GizmoError>, s1: InterpreterView, r: Result<Value, GizmoError>,
) -> bool
    decreases e, 5int, 0int, 1int,
{
    call_via_rule(engine, e, s0, sm, ra, s1, r)
}

/// The definition of `call_via`.
pub open spec fn call_via_rule<E: NumberEngine>(
    engine: E, e: ExpressionView, s0: InterpreterView, sm: InterpreterView, ra: Result<Vec<Value>,
    GizmoError>, s1: InterpreterView, r: Result<Value, GizmoError>,
) -> bool
    decreases e, 5int, 0int, 0int,
{
    match e {
        ExpressionView::FunctionCall { name, args } => evaluates_all(engine, args, s0, sm, ra) && match ra {
            Err(x) => s1 == sm && r is Err && r->Err_0 == x,
            Ok(vs) => applied(engine, name, args, values_view(vs@), sm, s1, r),
        },
        _ => false,
    }
}

/// `call_via` is what its definition says.
pub proof fn lemma_call_via<E: NumberEngine>(
    engine: E, e: ExpressionView, s0: InterpreterView, sm: InterpreterView, ra: Result<Vec<Value>,
    GizmoError>, s1: InterpreterView, r: Result<Value, GizmoError>,
)
    ensures
        call_via(engine, e, s0, sm, ra, s1, r) == call_via_rule(engine, e, s0, sm, ra, s1, r),
{
    reveal(call_via);
}

/// A binary operation.
#[verifier::opaque]
pub open spec fn binary_via<E: NumberEngine>(
    engine: E, e: ExpressionView, s0: InterpreterView, sm: InterpreterView, rl: Result<Value,
    GizmoError>, rr: Result<Value, GizmoError>, s1: InterpreterView, r: Result<Value, GizmoError>,
) -> bool
    decreases e, 5int, 0int, 1int,
{
    binary_via_rule(engine, e, s0, sm, rl, rr, s1, r)
}

/// The definition of `binary_via`.
pub open spec fn binary_via_rule<E: NumberEngine>(
    engine: E, e: ExpressionView, s0: InterpreterView, sm: InterpreterView, rl: Result<Value,
    GizmoError>, rr: Result<Value, GizmoError>, s1: InterpreterView, r: Result<Value, GizmoError>,
) -> bool
    decreases e, 5int, 0int, 0int,
{
    match e {
        ExpressionView::Binary { left, operator, right } => evaluates(engine, *left, s0, sm, rl) && match rl {
            Err(x) => s1 == sm && r is Err && r->Err_0 == x,
            Ok(a) => if operator == BinaryOperator::And && !a@.truthy() {
                s1 == sm && r is Ok && r->Ok_0@ == ValueView::Boolean(false)
            } else if operator == BinaryOperator::Or && a@.truthy() {
                s1 == sm && r is Ok && r->Ok_0@ == ValueView::Boolean(true)
            } else {
                evaluates(engine, *right, sm, s1, rr) && match rr {
                    Err(x) => r is Err && r->Err_0 == x,
                    Ok(b) => if operator == BinaryOperator::And || operator == BinaryOperator::Or {
                        r is Ok && r->Ok_0@ == ValueView::Boolean(b@.truthy())
                    } else {
                        binary_outcome(engine, a@, operator, b@, r)
                    },
                }
            },
        },
        _ => false,
    }
}

/// `binary_via` is what its definition says.
pub proof fn lemma_binary_via<E: NumberEngine>(
    engine: E, e: ExpressionView, s0: InterpreterView, sm: InterpreterView, rl: Result<Value,
    GizmoError>, rr: Result<Value, GizmoError>, s1: InterpreterView, r: Result<Value, GizmoError>,
)
    ensures
        binary_via(engine, e, s0, sm, rl, rr, s1, r) == binary_via_rule(engine, e, s0, sm, rl, rr, s1, r),
{
    reveal(binary_via);
}

/// A unary operation.
#[verifier::opaque]
pub open spec fn unary_via<E: NumberEngine>(
    engine: E, operator: UnaryOperator, operand: ExpressionView, s0: InterpreterView, s1:
    InterpreterView, ro: Result<Value, GizmoError>, r: Result<Value, GizmoError>,
) -> bool
    decreases operand, 15int, 0int, 1int,
{
    unary_via_rule(engine, operator, operand, s0, s1, ro, r)
}

/// The definition of `unary_via`.
pub open spec fn unary_via_rule<E: NumberEngine>(
    engine: E, operator: UnaryOperator, operand: ExpressionView, s0: InterpreterView, s1:
    InterpreterView, ro: Result<Value, GizmoError>, r: Result<Value, GizmoError>,
) -> bool
    decreases operand, 15int, 0int, 0int,
{
    evaluates(engine, operand, s0, s1, ro) && match ro {
        Err(x) => r is Err && r->Err_0 == x,
        Ok(v) => unary_outcome(engine, operator, v@, r),
    }
}

/// `unary_via` is what its definition says.
pub proof fn lemma_unary_via<E: NumberEngine>(
    engine: E, operator: UnaryOperator, operand: ExpressionView, s0: InterpreterView, s1:
    InterpreterView, ro: Result<Value, GizmoError>, r: Result<Value, GizmoError>,
)
    ensures
        unary_via(engine, operator, operand, s0, s1, ro, r) == unary_via_rule(engine, operator, operand, s0, s1, ro, r),
{
    reveal(unary_via);
}

/// An index operation: the object is evaluated before the index.
#[verifier::opaque]
pub open spec fn index_via<E: NumberEngine>(
    engine: E, e: ExpressionView, s0: InterpreterView, sm: InterpreterView, ro: Result<Value,
    GizmoError>, ri: Result<Value, GizmoError>, s1: InterpreterView, r: Result<Value, GizmoError>,
) -> bool
    decreases e, 5int, 0int, 1int,
{
    index_via_rule(engine, e, s0, sm, ro, ri, s1, r)
}

/// The definition of `index_via`.
pub open spec fn index_via_rule<E: NumberEngine>(
    engine: E, e: ExpressionView, s0: InterpreterView, sm: InterpreterView, ro: Result<Value,
    GizmoError>, ri: Result<Value, GizmoError>, s1: InterpreterView, r: Result<Value, GizmoError>,
) -> bool
    decreases e, 5int, 0int, 0int,
{
    match e {
        ExpressionView::Index { object, index } => evaluates(engine, *object, s0, sm, ro) && match ro {
            Err(x) => s1 == sm && r is Err && r->Err_0 == x,
            Ok(o) => evaluates(engine, *index, sm, s1, ri) && match ri {
                Err(x) => r is Err && r->Err_0 == x,
                Ok(i) => index_outcome(o@, i@, r),
            },
        },
        _ => false,
    }
}

/// `index_via` is what its definition says.
pub proof fn lemma_index_via<E: NumberEngine>(
    engine: E, e: ExpressionView, s0: InterpreterView, sm: InterpreterView, ro: Result<Value,
    GizmoError>, ri: Result<Value, GizmoError>, s1: InterpreterView, r: Result<Value, GizmoError>,
)
    ensures
        index_via(engine, e, s0, sm, ro, ri, s1, r) == index_via_rule(engine, e, s0, sm, ro, ri, s1, r),
{
    reveal(index_via);
}

/// A conditional: the branch that the truth of the condition picks.
#[verifier::opaque]
pub open spec fn conditional_via<E: NumberEngine>(
    engine: E, e: ExpressionView, s0: InterpreterView, sm: InterpreterView, rc: Result<Value,
    GizmoError>, s1: InterpreterView, r: Result<Value, GizmoError>,
) -> bool
    decreases e, 5int, 0int, 1int,
{
    conditional_via_rule(engine, e, s0, sm, rc, s1, r)
}

/// The definition of `conditional_via`.
pub open spec fn conditional_via_rule<E: NumberEngine>(
    engine: E, e: ExpressionView, s0: InterpreterView, sm: InterpreterView, rc: Result<Value,
    GizmoError>, s1: InterpreterView, r: Result<Value, GizmoError>,
) -> bool
    decreases e, 5int, 0int, 0int,
{
    match e {
        ExpressionView::Conditional { condition, then_expr, else_expr } => evaluates(engine,
            *condition,
            s0,
            sm,
            rc,
        ) && match rc {
            Err(x) => s1 == sm && r is Err && r->Err_0 == x,
            Ok(c) => if c@.truthy() {
                evaluates(engine, *then_expr, sm, s1, r)
            } else {
                evaluates(engine, *else_expr, sm, s1, r)
            },
        },
        _ => false,
    }
}

/// `conditional_via` is what its definition says.
pub proof fn lemma_conditional_via<E: NumberEngine>(
    engine: E, e: ExpressionView, s0: InterpreterView, sm: InterpreterView, rc: Result<Value,
    GizmoError>, s1: InterpreterView, r: Result<Value, GizmoError>,
)
    ensures
        conditional_via(engine, e, s0, sm, rc, s1, r) == conditional_via_rule(engine, e, s0, sm, rc, s1, r),
{
    reveal(conditional_via);
}

/// Whether evaluating `e` as a number in state `s0` can end in state `s1`
/// with result `r`: the value of `e`, coerced to a number.
#[verifier::opaque]
pub open spec fn quantifies<E: NumberEngine>(
    engine: E, e: ExpressionView, s0: InterpreterView, s1: InterpreterView, r: Result<Number,
    GizmoError>,
) -> bool
    decreases e, 12int, 0int, 1int,
{
    quantifies_rule(engine, e, s0, s1, r)
}

/// The definition of `quantifies`.
pub open spec fn quantifies_rule<E: NumberEngine>(
    engine: E, e: ExpressionView, s0: InterpreterView, s1: InterpreterView, r: Result<Number,
    GizmoError>,
) -> bool
    decreases e, 12int, 0int, 0int,
{
    exists|rv: Result<Value, GizmoError>| #[trigger] quantity_via(engine, e, s0, s1, rv, r)
}

/// `quantifies` is what its definition says.
pub proof fn lemma_quantifies<E: NumberEngine>(
    engine: E, e: ExpressionView, s0: InterpreterView, s1: InterpreterView, r: Result<Number,
    GizmoError>,
)
    ensures
        quantifies(engine, e, s0, s1, r) == quantifies_rule(engine, e, s0, s1, r),
{
    reveal(quantifies);
}

/// The number that an expression stands for.
#[verifier::opaque]
pub open spec fn quantity_via<E: NumberEngine>(
    engine: E, e: ExpressionView, s0: InterpreterView, s1: InterpreterView, rv: Result<Value,
    GizmoError>, r: Result<Number, GizmoError>,
) -> bool
    decreases e, 11int, 0int, 1int,
{
    quantity_via_rule(engine, e, s0, s1, rv, r)
}

/// The definition of `quantity_via`.
pub open spec fn quantity_via_rule<E: NumberEngine>(
    engine: E, e: ExpressionView, s0: InterpreterView, s1: InterpreterView, rv: Result<Value,
    GizmoError>, r: Result<Number, GizmoError>,
) -> bool
    decreases e, 11int, 0int, 0int,
{
    evaluates(engine, e, s0, s1, rv) && match rv {
        Err(x) => r is Err && r->Err_0 == x,
        Ok(v) => coerced(engine, v@, r),
    }
}

/// `quantity_via` is what its definition says.
pub proof fn lemma_quantity_via<E: NumberEngine>(
    engine: E, e: ExpressionView, s0: InterpreterView, s1: InterpreterView, rv: Result<Value,
    GizmoError>, r: Result<Number, GizmoError>,
)
    ensures
        quantity_via(engine, e, s0, s1, rv, r) == quantity_via_rule(engine, e, s0, s1, rv, r),
{
    reveal(quantity_via);
}

/// A `pattern` or `animate` generator: the width is evaluated before the
/// height, both as numbers rounded toward zero, and then the frame is
/// built. An `animate` generator binds its name to the clock as a
/// number.
#[verifier::opaque]
pub open spec fn generator_via<E: NumberEngine>(
    engine: E, e: ExpressionView, s0: InterpreterView, sa: InterpreterView, sb: InterpreterView, w:
    Result<Number, GizmoError>, h: Result<Number, GizmoError>, s1: InterpreterView, r: Result<Value,
    GizmoError>,
) -> bool
    decreases e, 5int, 0int, 1int,
{
    generator_via_rule(engine, e, s0, sa, sb, w, h, s1, r)
}

/// The definition of `generator_via`.
pub open spec fn generator_via_rule<E: NumberEngine>(
    engine: E, e: ExpressionView, s0: InterpreterView, sa: InterpreterView, sb: InterpreterView, w:
    Result<Number, GizmoError>, h: Result<Number, GizmoError>, s1: InterpreterView, r: Result<Value,
    GizmoError>,
) -> bool
    decreases e, 5int, 0int, 0int,
{
    match e {
        ExpressionView::PatternGenerator { width, height, body } => quantifies(engine, *width, s0, sa, w) && match w {
            Err(x) => s1 == sa && r is Err && r->Err_0 == x,
            Ok(wide) => quantifies(engine, *height, sa, sb, h) && match h {
                Err(x) => s1 == sb && r is Err && r->Err_0 == x,
                Ok(high) => generates(engine,
                    body,
                    None,
                    wide.as_index() as int,
                    high.as_index() as int,
                    sb,
                    s1,
                    r,
                ),
            },
        },
        ExpressionView::AnimatedGenerator { width, height, time_var, body } => quantifies(engine, *width, s0, sa, w) && match w {
            Err(x) => s1 == sa && r is Err && r->Err_0 == x,
            Ok(wide) => quantifies(engine, *height, sa, sb, h) && match h {
                Err(x) => s1 == sb && r is Err && r->Err_0 == x,
                Ok(high) => generates(engine,
                    body,
                    Some((time_var, ValueView::Number(Number::of_integer(s0.clock as nat)))),
                    wide.as_index() as int,
                    high.as_index() as int,
                    sb,
                    s1,
                    r,
                ),
            },
        },
        _ => false,
    }
}

/// `generator_via` is what its definition says.
pub proof fn lemma_generator_via<E: NumberEngine>(
    engine: E, e: ExpressionView, s0: InterpreterView, sa: InterpreterView, sb: InterpreterView, w:
    Result<Number, GizmoError>, h: Result<Number, GizmoError>, s1: InterpreterView, r: Result<Value,
    GizmoError>,
)
    ensures
        generator_via(engine, e, s0, sa, sb, w, h, s1, r) == generator_via_rule(engine, e, s0, sa, sb, w, h, s1, r),
{
    reveal(generator_via);
}

/// An `evolve` generator: as any generator, with a copy of the frame
/// that its name holds, where the generator stands behind its size, bound
/// to that name. A name that holds no frame there is a runtime error.
#[verifier::opaque]
pub open spec fn cellular_via<E: NumberEngine>(
    engine: E, e: ExpressionView, s0: InterpreterView, sa: InterpreterView, sb: InterpreterView, w:
    Result<Number, GizmoError>, h: Result<Number, GizmoError>, s1: InterpreterView, r: Result<Value,
    GizmoError>,
) -> bool
    decreases e, 5int, 0int, 1int,
{
    cellular_via_rule(engine, e, s0, sa, sb, w, h, s1, r)
}

/// The definition of `cellular_via`.
pub open spec fn cellular_via_rule<E: NumberEngine>(
    engine: E, e: ExpressionView, s0: InterpreterView, sa: InterpreterView, sb: InterpreterView, w:
    Result<Number, GizmoError>, h: Result<Number, GizmoError>, s1: InterpreterView, r: Result<Value,
    GizmoError>,
) -> bool
    decreases e, 5int, 0int, 0int,
{
    match e {
        ExpressionView::CellularGenerator { width, height, prev_var, body } => quantifies(engine, *width, s0, sa, w) && match w {
            Err(x) => s1 == sa && r is Err && r->Err_0 == x,
            Ok(wide) => quantifies(engine, *height, sa, sb, h) && match h {
                Err(x) => s1 == sb && r is Err && r->Err_0 == x,
                Ok(high) => match resolve(sb.scopes, prev_var) {
                    Some(ValueView::Frame(f)) => generates(engine,
                        body,
                        Some((prev_var, ValueView::Frame(f))),
                        wide.as_index() as int,
                        high.as_index() as int,
                        sb,
                        s1,
                        r,
                    ),
                    _ => s1 == sb && r is Err && r->Err_0.kind() == ErrorKind::Runtime,
                },
            },
        },
        _ => false,
    }
}

/// `cellular_via` is what its definition says.
pub proof fn lemma_cellular_via<E: NumberEngine>(
    engine: E, e: ExpressionView, s0: InterpreterView, sa: InterpreterView, sb: InterpreterView, w:
    Result<Number, GizmoError>, h: Result<Number, GizmoError>, s1: InterpreterView, r: Result<Value,
    GizmoError>,
)
    ensures
        cellular_via(engine, e, s0, sa, sb, w, h, s1, r) == cellular_via_rule(engine, e, s0, sa, sb, w, h, s1, r),
{
    reveal(cellular_via);
}

/// Whether evaluating the first `n` expressions of `es` from state `s0`,
/// all without failure, can end in state `s1` with the values `vs`.
#[verifier::opaque]
pub open spec fn evaluated<E: NumberEngine>(
    engine: E, es: Seq<ExpressionView>, n: int, s0: InterpreterView, s1: InterpreterView, vs:
    Seq<Value>,
) -> bool
    decreases es, 0int, 2 * n, 1int,
{
    evaluated_rule(engine, es, n, s0, s1, vs)
}

/// The definition of `evaluated`.
pub open spec fn evaluated_rule<E: NumberEngine>(
    engine: E, es: Seq<ExpressionView>, n: int, s0: InterpreterView, s1: InterpreterView, vs:
    Seq<Value>,
) -> bool
    decreases es, 0int, 2 * n, 0int,
{
    if n <= 0 || n > es.len() {
        n == 0 && s1 == s0 && vs.len() == 0
    } else {
        exists|sm: InterpreterView| #[trigger] evaluated_via(engine, es, n, s0, sm, s1, vs)
    }
}

/// `evaluated` is what its definition says.
pub proof fn lemma_evaluated<E: NumberEngine>(
    engine: E, es: Seq<ExpressionView>, n: int, s0: InterpreterView, s1: InterpreterView, vs:
    Seq<Value>,
)
    ensures
        evaluated(engine, es, n, s0, s1, vs) == evaluated_rule(engine, es, n, s0, s1, vs),
{
    reveal(evaluated);
}

/// One more expression evaluated.
#[verifier::opaque]
pub open spec fn evaluated_via<E: NumberEngine>(
    engine: E, es: Seq<ExpressionView>, n: int, s0: InterpreterView, sm: InterpreterView, s1:
    InterpreterView, vs: Seq<Value>,
) -> bool
    decreases es, 0int, 2 * n - 1, 1int,
{
    evaluated_via_rule(engine, es, n, s0, sm, s1, vs)
}

/// The definition of `evaluated_via`.
pub open spec fn evaluated_via_rule<E: NumberEngine>(
    engine: E, es: Seq<ExpressionView>, n: int, s0: InterpreterView, sm: InterpreterView, s1:
    InterpreterView, vs: Seq<Value>,
) -> bool
    decreases es, 0int, 2 * n - 1, 0int,
{
    if 0 < n <= es.len() {
        vs.len() == n && evaluated(engine, es, n - 1, s0, sm, vs.drop_last()) && evaluates(engine,
            es[n - 1],
            sm,
            s1,
            Ok(vs.last()),
        )
    } else {
        false
    }
}

/// `evaluated_via` is what its definition says.
pub proof fn lemma_evaluated_via<E: NumberEngine>(
    engine: E, es: Seq<ExpressionView>, n: int, s0: InterpreterView, sm: InterpreterView, s1:
    InterpreterView, vs: Seq<Value>,
)
    ensures
        evaluated_via(engine, es, n, s0, sm, s1, vs) == evaluated_via_rule(engine, es, n, s0, sm, s1, vs),
{
    reveal(evaluated_via);
}

/// Whether evaluating all of `es` from left to right can end in state
/// `s1` with result `r`: the values of all, or the failure of the first
/// that fails.
#[verifier::opaque]
pub open spec fn evaluates_all<E: NumberEngine>(
    engine: E, es: Seq<ExpressionView>, s0: InterpreterView, s1: InterpreterView, r:
    Result<Vec<Value>, GizmoError>,
) -> bool
    decreases es, 2int, 0int, 1int,
{
    evaluates_all_rule(engine, es, s0, s1, r)
}

/// The definition of `evaluates_all`.
pub open spec fn evaluates_all_rule<E: NumberEngine>(
    engine: E, es: Seq<ExpressionView>, s0: InterpreterView, s1: InterpreterView, r:
    Result<Vec<Value>, GizmoError>,
) -> bool
    decreases es, 2int, 0int, 0int,
{
    match r {
        Ok(vs) => evaluated(engine, es, es.len() as int, s0, s1, vs@),
        Err(x) => exists|k: int, sm: InterpreterView, vs: Seq<Value>|
            #[trigger] fails_at(engine, es, k, s0, sm, vs, s1, x),
    }
}

/// `evaluates_all` is what its definition says.
pub proof fn lemma_evaluates_all<E: NumberEngine>(
    engine: E, es: Seq<ExpressionView>, s0: InterpreterView, s1: InterpreterView, r:
    Result<Vec<Value>, GizmoError>,
)
    ensures
        evaluates_all(engine, es, s0, s1, r) == evaluates_all_rule(engine, es, s0, s1, r),
{
    reveal(evaluates_all);
}

/// The expression at `k` fails, behind `k` that did not.
#[verifier::opaque]
pub open spec fn fails_at<E: NumberEngine>(
    engine: E, es: Seq<ExpressionView>, k: int, s0: InterpreterView, sm: InterpreterView, vs:
    Seq<Value>, s1: InterpreterView, x: GizmoError,
) -> bool
    decreases es, 1int, 0int, 1int,
{
    fails_at_rule(engine, es, k, s0, sm, vs, s1, x)
}

/// The definition of `fails_at`.
pub open spec fn fails_at_rule<E: NumberEngine>(
    engine: E, es: Seq<ExpressionView>, k: int, s0: InterpreterView, sm: InterpreterView, vs:
    Seq<Value>, s1: InterpreterView, x: GizmoError,
) -> bool
    decreases es, 1int, 0int, 0int,
{
    if 0 <= k < es.len() {
        evaluated(engine, es, k, s0, sm, vs) && evaluates(engine, es[k], sm, s1, Err(x))
    } else {
        false
    }
}

/// `fails_at` is what its definition says.
pub proof fn lemma_fails_at<E: NumberEngine>(
    engine: E, es: Seq<ExpressionView>, k: int, s0: InterpreterView, sm: InterpreterView, vs:
    Seq<Value>, s1: InterpreterView, x: GizmoError,
)
    ensures
        fails_at(engine, es, k, s0, sm, vs, s1, x) == fails_at_rule(engine, es, k, s0, sm, vs, s1, x),
{
    reveal(fails_at);
}

/// Whether running statement `st` in state `s0` can end in state `s1`
/// with result `r`.
///
/// A declaration or an assignment binds the name in the innermost scope.
/// An `if` runs the block of the first condition that is true, or else its
/// `else` block. A `repeat` runs its body as often as its count says,
/// rounded toward zero, with `time` bound to the number of the round. A
/// `when` registers its body under the key of its event and runs nothing.
/// A `return` ends the enclosing blocks with its value.
#[verifier::opaque]
pub open spec fn executes<E: NumberEngine>(
    engine: E, st: StatementView, s0: InterpreterView, s1: InterpreterView, r: Result<Flow,
    GizmoError>,
) -> bool
    decreases st, 10int, 0int, 1int,
{
    executes_rule(engine, st, s0, s1, r)
}

/// The definition of `executes`.
pub open spec fn executes_rule<E: NumberEngine>(
    engine: E, st: StatementView, s0: InterpreterView, s1: InterpreterView, r: Result<Flow,
    GizmoError>,
) -> bool
    decreases st, 10int, 0int, 0int,
{
    match st {
        StatementView::VariableDeclaration { var_type, name, value } => exists|sm: InterpreterView, rv: Result<Value, GizmoError>|
            #[trigger] binding_via(engine, name, value, s0, sm, rv, s1, r),
        StatementView::Assignment { name, value } => exists|sm: InterpreterView, rv: Result<Value, GizmoError>|
            #[trigger] binding_via(engine, name, value, s0, sm, rv, s1, r),
        StatementView::ExpressionStatement(e) => exists|rv: Result<Value, GizmoError>|
            #[trigger] expression_via(engine, e, s0, s1, rv, r),
        StatementView::IfStatement { condition, then_block, elsif_blocks, else_block } => exists|sm: InterpreterView, rc: Result<Value, GizmoError>|
            #[trigger] if_via(engine, st, s0, sm, rc, s1, r),
        StatementView::RepeatStatement { times, body } => exists|sm: InterpreterView, rn: Result<Number, GizmoError>|
            #[trigger] repeat_via(engine, st, s0, sm, rn, s1, r),
        StatementView::WhenStatement { event, body } => match event {
            EventView::Clicked => r == Ok::<Flow, GizmoError>(Flow::Normal) && s1 == registered(
                s0,
                click_key(),
                body,
            ),
            EventView::Idle(limit) => exists|sm: InterpreterView, rn: Result<Number, GizmoError>|
                #[trigger] idle_via(engine, limit, body, s0, sm, rn, s1, r),
        },
        StatementView::ReturnStatement(e) => exists|rv: Result<Value, GizmoError>|
            #[trigger] return_via(engine, e, s0, s1, rv, r),
    }
}

/// `executes` is what its definition says.
pub proof fn lemma_executes<E: NumberEngine>(
    engine: E, st: StatementView, s0: InterpreterView, s1: InterpreterView, r: Result<Flow,
    GizmoError>,
)
    ensures
        executes(engine, st, s0, s1, r) == executes_rule(engine, st, s0, s1, r),
{
    reveal(executes);
}

/// A declaration or an assignment.
#[verifier::opaque]
pub open spec fn binding_via<E: NumberEngine>(
    engine: E, name: Seq<char>, value: ExpressionView, s0: InterpreterView, sm: InterpreterView, rv:
    Result<Value, GizmoError>, s1: InterpreterView, r: Result<Flow, GizmoError>,
) -> bool
    decreases value, 15int, 0int, 1int,
{
    binding_via_rule(engine, name, value, s0, sm, rv, s1, r)
}

/// The definition of `binding_via`.
pub open spec fn binding_via_rule<E: NumberEngine>(
    engine: E, name: Seq<char>, value: ExpressionView, s0: InterpreterView, sm: InterpreterView, rv:
    Result<Value, GizmoError>, s1: InterpreterView, r: Result<Flow, GizmoError>,
) -> bool
    decreases value, 15int, 0int, 0int,
{
    evaluates(engine, value, s0, sm, rv) && match rv {
        Err(x) => s1 == sm && r is Err && r->Err_0 == x,
        Ok(v) => s1 == bound(sm, name, v@) && r == Ok::<Flow, GizmoError>(Flow::Normal),
    }
}

/// `binding_via` is what its definition says.
pub proof fn lemma_binding_via<E: NumberEngine>(
    engine: E, name: Seq<char>, value: ExpressionView, s0: InterpreterView, sm: InterpreterView, rv:
    Result<Value, GizmoError>, s1: InterpreterView, r: Result<Flow, GizmoError>,
)
    ensures
        binding_via(engine, name, value, s0, sm, rv, s1, r) == binding_via_rule(engine, name, value, s0, sm, rv, s1, r),
{
    reveal(binding_via);
}

/// An expression statement: the value is dropped.
#[verifier::opaque]
pub open spec fn expression_via<E: NumberEngine>(
    engine: E, e: ExpressionView, s0: InterpreterView, s1: InterpreterView, rv: Result<Value,
    GizmoError>, r: Result<Flow, GizmoError>,
) -> bool
    decreases e, 15int, 0int, 1int,
{
    expression_via_rule(engine, e, s0, s1, rv, r)
}

/// The definition of `expression_via`.
pub open spec fn expression_via_rule<E: NumberEngine>(
    engine: E, e: ExpressionView, s0: InterpreterView, s1: InterpreterView, rv: Result<Value,
    GizmoError>, r: Result<Flow, GizmoError>,
) -> bool
    decreases e, 15int, 0int, 0int,
{
    evaluates(engine, e, s0, s1, rv) && match rv {
        Err(x) => r is Err && r->Err_0 == x,
        Ok(v) => r == Ok::<Flow, GizmoError>(Flow::Normal),
    }
}

/// `expression_via` is what its definition says.
pub proof fn lemma_expression_via<E: NumberEngine>(
    engine: E, e: ExpressionView, s0: InterpreterView, s1: InterpreterView, rv: Result<Value,
    GizmoError>, r: Result<Flow, GizmoError>,
)
    ensures
        expression_via(engine, e, s0, s1, rv, r) == expression_via_rule(engine, e, s0, s1, rv, r),
{
    reveal(expression_via);
}

/// A `return` statement.
#[verifier::opaque]
pub open spec fn return_via<E: NumberEngine>(
    engine: E, e: ExpressionView, s0: InterpreterView, s1: InterpreterView, rv: Result<Value,
    GizmoError>, r: Result<Flow, GizmoError>,
) -> bool
    decreases e, 15int, 0int, 1int,
{
    return_via_rule(engine, e, s0, s1, rv, r)
}

/// The definition of `return_via`.
pub open spec fn return_via_rule<E: NumberEngine>(
    engine: E, e: ExpressionView, s0: InterpreterView, s1: InterpreterView, rv: Result<Value,
    GizmoError>, r: Result<Flow, GizmoError>,
) -> bool
    decreases e, 15int, 0int, 0int,
{
    evaluates(engine, e, s0, s1, rv) && match rv {
        Err(x) => r is Err && r->Err_0 == x,
        Ok(v) => r == Ok::<Flow, GizmoError>(Flow::Returned(v)),
    }
}

/// `return_via` is what its definition says.
pub proof fn lemma_return_via<E: NumberEngine>(
    engine: E, e: ExpressionView, s0: InterpreterView, s1: InterpreterView, rv: Result<Value,
    GizmoError>, r: Result<Flow, GizmoError>,
)
    ensures
        return_via(engine, e, s0, s1, rv, r) == return_via_rule(engine, e, s0, s1, rv, r),
{
    reveal(return_via);
}

/// A `when idle` statement: the limit is evaluated as a number of
/// milliseconds, rounded toward zero.
#[verifier::opaque]
pub open spec fn idle_via<E: NumberEngine>(
    engine: E, limit: ExpressionView, body: Seq<StatementView>, s0: InterpreterView, sm:
    InterpreterView, rn: Result<Number, GizmoError>, s1: InterpreterView, r: Result<Flow,
    GizmoError>,
) -> bool
    decreases limit, 15int, 0int, 1int,
{
    idle_via_rule(engine, limit, body, s0, sm, rn, s1, r)
}

/// The definition of `idle_via`.
pub open spec fn idle_via_rule<E: NumberEngine>(
    engine: E, limit: ExpressionView, body: Seq<StatementView>, s0: InterpreterView, sm:
    InterpreterView, rn: Result<Number, GizmoError>, s1: InterpreterView, r: Result<Flow,
    GizmoError>,
) -> bool
    decreases limit, 15int, 0int, 0int,
{
    quantifies(engine, limit, s0, sm, rn) && match rn {
        Err(x) => s1 == sm && r is Err && r->Err_0 == x,
        Ok(ms) => r == Ok::<Flow, GizmoError>(Flow::Normal) && s1 == registered(
            sm,
            idle_key(ms.as_u64()),
            body,
        ),
    }
}

/// `idle_via` is what its definition says.
pub proof fn lemma_idle_via<E: NumberEngine>(
    engine: E, limit: ExpressionView, body: Seq<StatementView>, s0: InterpreterView, sm:
    InterpreterView, rn: Result<Number, GizmoError>, s1: InterpreterView, r: Result<Flow,
    GizmoError>,
)
    ensures
        idle_via(engine, limit, body, s0, sm, rn, s1, r) == idle_via_rule(engine, limit, body, s0, sm, rn, s1, r),
{
    reveal(idle_via);
}

/// An `if` statement.
#[verifier::opaque]
pub open spec fn if_via<E: NumberEngine>(
    engine: E, st: StatementView, s0: InterpreterView, sm: InterpreterView, rc: Result<Value,
    GizmoError>, s1: InterpreterView, r: Result<Flow, GizmoError>,
) -> bool
    decreases st, 5int, 0int, 1int,
{
    if_via_rule(engine, st, s0, sm, rc, s1, r)
}

/// The definition of `if_via`.
pub open spec fn if_via_rule<E: NumberEngine>(
    engine: E, st: StatementView, s0: InterpreterView, sm: InterpreterView, rc: Result<Value,
    GizmoError>, s1: InterpreterView, r: Result<Flow, GizmoError>,
) -> bool
    decreases st, 5int, 0int, 0int,
{
    match st {
        StatementView::IfStatement { condition, then_block, elsif_blocks, else_block } => evaluates(engine,
            condition,
            s0,
            sm,
            rc,
        ) && match rc {
            Err(x) => s1 == sm && r is Err && r->Err_0 == x,
            Ok(c) => if c@.truthy() {
                runs(engine, then_block, sm, s1, r)
            } else {
                exists|k: int, sa: InterpreterView, sb: InterpreterView, rk: Result<Value, GizmoError>|
                    #[trigger] elsif_via(engine, st, k, sm, sa, sb, rk, s1, r)
            },
        },
        _ => false,
    }
}

/// `if_via` is what its definition says.
pub proof fn lemma_if_via<E: NumberEngine>(
    engine: E, st: StatementView, s0: InterpreterView, sm: InterpreterView, rc: Result<Value,
    GizmoError>, s1: InterpreterView, r: Result<Flow, GizmoError>,
)
    ensures
        if_via(engine, st, s0, sm, rc, s1, r) == if_via_rule(engine, st, s0, sm, rc, s1, r),
{
    reveal(if_via);
}

/// The `elsif` branches: the first `k` conditions are false; then either
/// all were tried and the `else` block runs, if there is one, or the
/// condition at `k` fails, or it is true and its block runs.
#[verifier::opaque]
pub open spec fn elsif_via<E: NumberEngine>(
    engine: E, st: StatementView, k: int, s0: InterpreterView, sa: InterpreterView, sb:
    InterpreterView, rk: Result<Value, GizmoError>, s1: InterpreterView, r: Result<Flow,
    GizmoError>,
) -> bool
    decreases st, 3int, 0int, 1int,
{
    elsif_via_rule(engine, st, k, s0, sa, sb, rk, s1, r)
}

/// The definition of `elsif_via`.
pub open spec fn elsif_via_rule<E: NumberEngine>(
    engine: E, st: StatementView, k: int, s0: InterpreterView, sa: InterpreterView, sb:
    InterpreterView, rk: Result<Value, GizmoError>, s1: InterpreterView, r: Result<Flow,
    GizmoError>,
) -> bool
    decreases st, 3int, 0int, 0int,
{
    match st {
        StatementView::IfStatement { condition, then_block, elsif_blocks, else_block } => if 0 <= k
            <= elsif_blocks.len() {
            declined(engine, elsif_blocks, k, s0, sa) && if k == elsif_blocks.len() {
                match else_block {
                    Some(block) => runs(engine, block, sa, s1, r),
                    None => s1 == sa && r == Ok::<Flow, GizmoError>(Flow::Normal),
                }
            } else {
                evaluates(engine, elsif_blocks[k].0, sa, sb, rk) && match rk {
                    Err(x) => s1 == sb && r is Err && r->Err_0 == x,
                    Ok(c) => c@.truthy() && runs(engine, elsif_blocks[k].1, sb, s1, r),
                }
            }
        } else {
            false
        },
        _ => false,
    }
}

/// `elsif_via` is what its definition says.
pub proof fn lemma_elsif_via<E: NumberEngine>(
    engine: E, st: StatementView, k: int, s0: InterpreterView, sa: InterpreterView, sb:
    InterpreterView, rk: Result<Value, GizmoError>, s1: InterpreterView, r: Result<Flow,
    GizmoError>,
)
    ensures
        elsif_via(engine, st, k, s0, sa, sb, rk, s1, r) == elsif_via_rule(engine, st, k, s0, sa, sb, rk, s1, r),
{
    reveal(elsif_via);
}

/// Whether evaluating the first `n` conditions of `bs` from state `s0`
/// can end in state `s1` with all of them false.
#[verifier::opaque]
pub open spec fn declined<E: NumberEngine>(
    engine: E, bs: Seq<(ExpressionView, Seq<StatementView>)>, n: int, s0: InterpreterView, s1:
    InterpreterView,
) -> bool
    decreases bs, 0int, 2 * n, 1int,
{
    declined_rule(engine, bs, n, s0, s1)
}

/// The definition of `declined`.
pub open spec fn declined_rule<E: NumberEngine>(
    engine: E, bs: Seq<(ExpressionView, Seq<StatementView>)>, n: int, s0: InterpreterView, s1:
    InterpreterView,
) -> bool
    decreases bs, 0int, 2 * n, 0int,
{
    if n <= 0 || n > bs.len() {
        n == 0 && s1 == s0
    } else {
        exists|sm: InterpreterView, rc: Result<Value, GizmoError>|
            #[trigger] declined_via(engine, bs, n, s0, sm, rc, s1)
    }
}

/// `declined` is what its definition says.
pub proof fn lemma_declined<E: NumberEngine>(
    engine: E, bs: Seq<(ExpressionView, Seq<StatementView>)>, n: int, s0: InterpreterView, s1:
    InterpreterView,
)
    ensures
        declined(engine, bs, n, s0, s1) == declined_rule(engine, bs, n, s0, s1),
{
    reveal(declined);
}

/// One more condition that is false.
#[verifier::opaque]
pub open spec fn declined_via<E: NumberEngine>(
    engine: E, bs: Seq<(ExpressionView, Seq<StatementView>)>, n: int, s0: InterpreterView, sm:
    InterpreterView, rc: Result<Value, GizmoError>, s1: InterpreterView,
) -> bool
    decreases bs, 0int, 2 * n - 1, 1int,
{
    declined_via_rule(engine, bs, n, s0, sm, rc, s1)
}

/// The definition of `declined_via`.
pub open spec fn declined_via_rule<E: NumberEngine>(
    engine: E, bs: Seq<(ExpressionView, Seq<StatementView>)>, n: int, s0: InterpreterView, sm:
    InterpreterView, rc: Result<Value, GizmoError>, s1: InterpreterView,
) -> bool
    decreases bs, 0int, 2 * n - 1, 0int,
{
    if 0 < n <= bs.len() {
        declined(engine, bs, n - 1, s0, sm) && evaluates(engine, bs[n - 1].0, sm, s1, rc) && rc is Ok
            && !rc->Ok_0@.truthy()
    } else {
        false
    }
}

/// `declined_via` is what its definition says.
pub proof fn lemma_declined_via<E: NumberEngine>(
    engine: E, bs: Seq<(ExpressionView, Seq<StatementView>)>, n: int, s0: InterpreterView, sm:
    InterpreterView, rc: Result<Value, GizmoError>, s1: InterpreterView,
)
    ensures
        declined_via(engine, bs, n, s0, sm, rc, s1) == declined_via_rule(engine, bs, n, s0, sm, rc, s1),
{
    reveal(declined_via);
}

/// A `repeat` statement.
#[verifier::opaque]
pub open spec fn repeat_via<E: NumberEngine>(
    engine: E, st: StatementView, s0: InterpreterView, sm: InterpreterView, rn: Result<Number,
    GizmoError>, s1: InterpreterView, r: Result<Flow, GizmoError>,
) -> bool
    decreases st, 5int, 0int, 1int,
{
    repeat_via_rule(engine, st, s0, sm, rn, s1, r)
}

/// The definition of `repeat_via`.
pub open spec fn repeat_via_rule<E: NumberEngine>(
    engine: E, st: StatementView, s0: InterpreterView, sm: InterpreterView, rn: Result<Number,
    GizmoError>, s1: InterpreterView, r: Result<Flow, GizmoError>,
) -> bool
    decreases st, 5int, 0int, 0int,
{
    match st {
        StatementView::RepeatStatement { times, body } => quantifies(engine, times, s0, sm, rn) && match rn {
            Err(x) => s1 == sm && r is Err && r->Err_0 == x,
            Ok(count) => exists|k: int, sa: InterpreterView|
                #[trigger] rounds_via(engine, st, count, k, sm, sa, s1, r),
        },
        _ => false,
    }
}

/// `repeat_via` is what its definition says.
pub proof fn lemma_repeat_via<E: NumberEngine>(
    engine: E, st: StatementView, s0: InterpreterView, sm: InterpreterView, rn: Result<Number,
    GizmoError>, s1: InterpreterView, r: Result<Flow, GizmoError>,
)
    ensures
        repeat_via(engine, st, s0, sm, rn, s1, r) == repeat_via_rule(engine, st, s0, sm, rn, s1, r),
{
    reveal(repeat_via);
}

/// The rounds of a `repeat`, of which there are as many as `count` says,
/// rounded toward zero: `k` rounds run to their end; then either all
/// rounds are done, or round `k` ends the loop by returning or failing.
#[verifier::opaque]
pub open spec fn rounds_via<E: NumberEngine>(
    engine: E, st: StatementView, count: Number, k: int, s0: InterpreterView, sa: InterpreterView,
    s1: InterpreterView, r: Result<Flow, GizmoError>,
) -> bool
    decreases st, 3int, 0int, 1int,
{
    rounds_via_rule(engine, st, count, k, s0, sa, s1, r)
}

/// The definition of `rounds_via`.
pub open spec fn rounds_via_rule<E: NumberEngine>(
    engine: E, st: StatementView, count: Number, k: int, s0: InterpreterView, sa: InterpreterView,
    s1: InterpreterView, r: Result<Flow, GizmoError>,
) -> bool
    decreases st, 3int, 0int, 0int,
{
    match st {
        StatementView::RepeatStatement { times, body } => if !(0 <= k) {
            false
        } else if k >= count.as_i32() {
            repeated(engine, body, k, s0, sa) && (k == count.as_i32() || k == 0) && s1 == sa && r == Ok::<
                Flow,
                GizmoError,
            >(Flow::Normal)
        } else {
            repeated(engine, body, k, s0, sa) && runs(engine, body, bound(sa, "time"@, round_number(k)), s1, r) && r
                != Ok::<Flow, GizmoError>(Flow::Normal)
        },
        _ => false,
    }
}

/// `rounds_via` is what its definition says.
pub proof fn lemma_rounds_via<E: NumberEngine>(
    engine: E, st: StatementView, count: Number, k: int, s0: InterpreterView, sa: InterpreterView,
    s1: InterpreterView, r: Result<Flow, GizmoError>,
)
    ensures
        rounds_via(engine, st, count, k, s0, sa, s1, r) == rounds_via_rule(engine, st, count, k, s0, sa, s1, r),
{
    reveal(rounds_via);
}

/// Whether running `body` for `n` rounds from state `s0`, each to its
/// end, can end in state `s1`. At the start of each round `time` is bound
/// to the number of the round, counted from 0.
#[verifier::opaque]
pub open spec fn repeated<E: NumberEngine>(
    engine: E, body: Seq<StatementView>, n: int, s0: InterpreterView, s1: InterpreterView,
) -> bool
    decreases body, 4int, 2 * n, 1int,
{
    repeated_rule(engine, body, n, s0, s1)
}

/// The definition of `repeated`.
pub open spec fn repeated_rule<E: NumberEngine>(
    engine: E, body: Seq<StatementView>, n: int, s0: InterpreterView, s1: InterpreterView,
) -> bool
    decreases body, 4int, 2 * n, 0int,
{
    if n <= 0 {
        s1 == s0
    } else {
        exists|sm: InterpreterView| #[trigger] repeated_via(engine, body, n, s0, sm, s1)
    }
}

/// `repeated` is what its definition says.
pub proof fn lemma_repeated<E: NumberEngine>(
    engine: E, body: Seq<StatementView>, n: int, s0: InterpreterView, s1: InterpreterView,
)
    ensures
        repeated(engine, body, n, s0, s1) == repeated_rule(engine, body, n, s0, s1),
{
    reveal(repeated);
}

/// One more round.
#[verifier::opaque]
pub open spec fn repeated_via<E: NumberEngine>(
    engine: E, body: Seq<StatementView>, n: int, s0: InterpreterView, sm: InterpreterView, s1:
    InterpreterView,
) -> bool
    decreases body, 4int, 2 * n - 1, 1int,
{
    repeated_via_rule(engine, body, n, s0, sm, s1)
}

/// The definition of `repeated_via`.
pub open spec fn repeated_via_rule<E: NumberEngine>(
    engine: E, body: Seq<StatementView>, n: int, s0: InterpreterView, sm: InterpreterView, s1:
    InterpreterView,
) -> bool
    decreases body, 4int, 2 * n - 1, 0int,
{
    if 0 < n {
        repeated(engine, body, n - 1, s0, sm) && runs(engine,
            body,
            bound(sm, "time"@, round_number(n - 1)),
            s1,
            Ok(Flow::Normal),
        )
    } else {
        false
    }
}

/// `repeated_via` is what its definition says.
pub proof fn lemma_repeated_via<E: NumberEngine>(
    engine: E, body: Seq<StatementView>, n: int, s0: InterpreterView, sm: InterpreterView, s1:
    InterpreterView,
)
    ensures
        repeated_via(engine, body, n, s0, sm, s1) == repeated_via_rule(engine, body, n, s0, sm, s1),
{
    reveal(repeated_via);
}

/// Whether running the first `n` statements of `ss` from state `s0`,
/// each to its end, can end in state `s1`.
#[verifier::opaque]
pub open spec fn ran<E: NumberEngine>(
    engine: E, ss: Seq<StatementView>, n: int, s0: InterpreterView, s1: InterpreterView,
) -> bool
    decreases ss, 0int, 2 * n, 1int,
{
    ran_rule(engine, ss, n, s0, s1)
}

/// The definition of `ran`.
pub open spec fn ran_rule<E: NumberEngine>(
    engine: E, ss: Seq<StatementView>, n: int, s0: InterpreterView, s1: InterpreterView,
) -> bool
    decreases ss, 0int, 2 * n, 0int,
{
    if n <= 0 || n > ss.len() {
        n == 0 && s1 == s0
    } else {
        exists|sm: InterpreterView| #[trigger] ran_via(engine, ss, n, s0, sm, s1)
    }
}

/// `ran` is what its definition says.
pub proof fn lemma_ran<E: NumberEngine>(
    engine: E, ss: Seq<StatementView>, n: int, s0: InterpreterView, s1: InterpreterView,
)
    ensures
        ran(engine, ss, n, s0, s1) == ran_rule(engine, ss, n, s0, s1),
{
    reveal(ran);
}

/// One more statement run to its end.
#[verifier::opaque]
pub open spec fn ran_via<E: NumberEngine>(
    engine: E, ss: Seq<StatementView>, n: int, s0: InterpreterView, sm: InterpreterView, s1:
    InterpreterView,
) -> bool
    decreases ss, 0int, 2 * n - 1, 1int,
{
    ran_via_rule(engine, ss, n, s0, sm, s1)
}

/// The definition of `ran_via`.
pub open spec fn ran_via_rule<E: NumberEngine>(
    engine: E, ss: Seq<StatementView>, n: int, s0: InterpreterView, sm: InterpreterView, s1:
    InterpreterView,
) -> bool
    decreases ss, 0int, 2 * n - 1, 0int,
{
    if 0 < n <= ss.len() {
        ran(engine, ss, n - 1, s0, sm) && executes(engine, ss[n - 1], sm, s1, Ok(Flow::Normal))
    } else {
        false
    }
}

/// `ran_via` is what its definition says.
pub proof fn lemma_ran_via<E: NumberEngine>(
    engine: E, ss: Seq<StatementView>, n: int, s0: InterpreterView, sm: InterpreterView, s1:
    InterpreterView,
)
    ensures
        ran_via(engine, ss, n, s0, sm, s1) == ran_via_rule(engine, ss, n, s0, sm, s1),
{
    reveal(ran_via);
}

/// Whether running the block `ss` from state `s0` can end in state `s1`
/// with result `r`: all statements run to their end, or the first that
/// returns or fails ends the block with its result.
#[verifier::opaque]
pub open spec fn runs<E: NumberEngine>(
    engine: E, ss: Seq<StatementView>, s0: InterpreterView, s1: InterpreterView, r: Result<Flow,
    GizmoError>,
) -> bool
    decreases ss, 2int, 0int, 1int,
{
    runs_rule(engine, ss, s0, s1, r)
}

/// The definition of `runs`.
pub open spec fn runs_rule<E: NumberEngine>(
    engine: E, ss: Seq<StatementView>, s0: InterpreterView, s1: InterpreterView, r: Result<Flow,
    GizmoError>,
) -> bool
    decreases ss, 2int, 0int, 0int,
{
    exists|k: int, sm: InterpreterView| #[trigger] runs_via(engine, ss, k, s0, sm, s1, r)
}

/// `runs` is what its definition says.
pub proof fn lemma_runs<E: NumberEngine>(
    engine: E, ss: Seq<StatementView>, s0: InterpreterView, s1: InterpreterView, r: Result<Flow,
    GizmoError>,
)
    ensures
        runs(engine, ss, s0, s1, r) == runs_rule(engine, ss, s0, s1, r),
{
    reveal(runs);
}

/// `k` statements run to their end; then the block is done, or the
/// statement at `k` ends it.
#[verifier::opaque]
pub open spec fn runs_via<E: NumberEngine>(
    engine: E, ss: Seq<StatementView>, k: int, s0: InterpreterView, sm: InterpreterView, s1:
    InterpreterView, r: Result<Flow, GizmoError>,
) -> bool
    decreases ss, 1int, 0int, 1int,
{
    runs_via_rule(engine, ss, k, s0, sm, s1, r)
}

/// The definition of `runs_via`.
pub open spec fn runs_via_rule<E: NumberEngine>(
    engine: E, ss: Seq<StatementView>, k: int, s0: InterpreterView, sm: InterpreterView, s1:
    InterpreterView, r: Result<Flow, GizmoError>,
) -> bool
    decreases ss, 1int, 0int, 0int,
{
    if !(0 <= k <= ss.len()) {
        false
    } else if k == ss.len() {
        ran(engine, ss, k, s0, sm) && s1 == sm && r == Ok::<Flow, GizmoError>(Flow::Normal)
    } else {
        ran(engine, ss, k, s0, sm) && executes(engine, ss[k], sm, s1, r) && r != Ok::<Flow, GizmoError>(Flow::Normal)
    }
}

/// `runs_via` is what its definition says.
pub proof fn lemma_runs_via<E: NumberEngine>(
    engine: E, ss: Seq<StatementView>, k: int, s0: InterpreterView, sm: InterpreterView, s1:
    InterpreterView, r: Result<Flow, GizmoError>,
)
    ensures
        runs_via(engine, ss, k, s0, sm, s1, r) == runs_via_rule(engine, ss, k, s0, sm, s1, r),
{
    reveal(runs_via);
}

/// Whether running the first `n` statements of `ss` from state `s0` at
/// the top level, none of them failing, can end in state `s1`. A `return`
/// at the top level ends only its own statement.
#[verifier::opaque]
pub open spec fn performed<E: NumberEngine>(
    engine: E, ss: Seq<StatementView>, n: int, s0: InterpreterView, s1: InterpreterView,
) -> bool
    decreases ss, 0int, 2 * n, 1int,
{
    performed_rule(engine, ss, n, s0, s1)
}

/// The definition of `performed`.
pub open spec fn performed_rule<E: NumberEngine>(
    engine: E, ss: Seq<StatementView>, n: int, s0: InterpreterView, s1: InterpreterView,
) -> bool
    decreases ss, 0int, 2 * n, 0int,
{
    if n <= 0 || n > ss.len() {
        n == 0 && s1 == s0
    } else {
        exists|sm: InterpreterView, flow: Flow| #[trigger] performed_via(engine, ss, n, s0, sm, flow, s1)
    }
}

/// `performed` is what its definition says.
pub proof fn lemma_performed<E: NumberEngine>(
    engine: E, ss: Seq<StatementView>, n: int, s0: InterpreterView, s1: InterpreterView,
)
    ensures
        performed(engine, ss, n, s0, s1) == performed_rule(engine, ss, n, s0, s1),
{
    reveal(performed);
}

/// One more statement run without failure.
#[verifier::opaque]
pub open spec fn performed_via<E: NumberEngine>(
    engine: E, ss: Seq<StatementView>, n: int, s0: InterpreterView, sm: InterpreterView, flow: Flow,
    s1: InterpreterView,
) -> bool
    decreases ss, 0int, 2 * n - 1, 1int,
{
    performed_via_rule(engine, ss, n, s0, sm, flow, s1)
}

/// The definition of `performed_via`.
pub open spec fn performed_via_rule<E: NumberEngine>(
    engine: E, ss: Seq<StatementView>, n: int, s0: InterpreterView, sm: InterpreterView, flow: Flow,
    s1: InterpreterView,
) -> bool
    decreases ss, 0int, 2 * n - 1, 0int,
{
    if 0 < n <= ss.len() {
        performed(engine, ss, n - 1, s0, sm) && executes(engine, ss[n - 1], sm, s1, Ok(flow))
    } else {
        false
    }
}

/// `performed_via` is what its definition says.
pub proof fn lemma_performed_via<E: NumberEngine>(
    engine: E, ss: Seq<StatementView>, n: int, s0: InterpreterView, sm: InterpreterView, flow: Flow,
    s1: InterpreterView,
)
    ensures
        performed_via(engine, ss, n, s0, sm, flow, s1) == performed_via_rule(engine, ss, n, s0, sm, flow, s1),
{
    reveal(performed_via);
}

/// Whether running the statements `ss` at the top level from state `s0`
/// can end in state `s1` with result `r`: all run, or the first failure
/// ends the run and what ran before it stays done.
#[verifier::opaque]
pub open spec fn performs<E: NumberEngine>(
    engine: E, ss: Seq<StatementView>, s0: InterpreterView, s1: InterpreterView, r: Result<(),
    GizmoError>,
) -> bool
    decreases ss, 2int, 0int, 1int,
{
    performs_rule(engine, ss, s0, s1, r)
}

/// The definition of `performs`.
pub open spec fn performs_rule<E: NumberEngine>(
    engine: E, ss: Seq<StatementView>, s0: InterpreterView, s1: InterpreterView, r: Result<(),
    GizmoError>,
) -> bool
    decreases ss, 2int, 0int, 0int,
{
    match r {
        Ok(_) => performed(engine, ss, ss.len() as int, s0, s1),
        Err(x) => exists|k: int, sm: InterpreterView| #[trigger] stops_at(engine, ss, k, s0, sm, s1, x),
    }
}

/// `performs` is what its definition says.
pub proof fn lemma_performs<E: NumberEngine>(
    engine: E, ss: Seq<StatementView>, s0: InterpreterView, s1: InterpreterView, r: Result<(),
    GizmoError>,
)
    ensures
        performs(engine, ss, s0, s1, r) == performs_rule(engine, ss, s0, s1, r),
{
    reveal(performs);
}

/// The statement at `k` fails, behind `k` that did not.
#[verifier::opaque]
pub open spec fn stops_at<E: NumberEngine>(
    engine: E, ss: Seq<StatementView>, k: int, s0: InterpreterView, sm: InterpreterView, s1:
    InterpreterView, x: GizmoError,
) -> bool
    decreases ss, 1int, 0int, 1int,
{
    stops_at_rule(engine, ss, k, s0, sm, s1, x)
}

/// The definition of `stops_at`.
pub open spec fn stops_at_rule<E: NumberEngine>(
    engine: E, ss: Seq<StatementView>, k: int, s0: InterpreterView, sm: InterpreterView, s1:
    InterpreterView, x: GizmoError,
) -> bool
    decreases ss, 1int, 0int, 0int,
{
    if 0 <= k < ss.len() {
        performed(engine, ss, k, s0, sm) && executes(engine, ss[k], sm, s1, Err(x))
    } else {
        false
    }
}

/// `stops_at` is what its definition says.
pub proof fn lemma_stops_at<E: NumberEngine>(
    engine: E, ss: Seq<StatementView>, k: int, s0: InterpreterView, sm: InterpreterView, s1:
    InterpreterView, x: GizmoError,
)
    ensures
        stops_at(engine, ss, k, s0, sm, s1, x) == stops_at_rule(engine, ss, k, s0, sm, s1, x),
{
    reveal(stops_at);
}

/// Whether running the body of a generator for one pixel from state `s0`
/// can end in state `s1` with result `r`: the truth of the value that the
/// body returns; or, where the body ends in an expression statement
/// without having returned, the truth of that expression; or else off.
#[verifier::opaque]
pub open spec fn decides<E: NumberEngine>(
    engine: E, body: Seq<StatementView>, s0: InterpreterView, s1: InterpreterView, r: Result<bool,
    GizmoError>,
) -> bool
    decreases body, 3int, 0int, 1int,
{
    decides_rule(engine, body, s0, s1, r)
}

/// The definition of `decides`.
pub open spec fn decides_rule<E: NumberEngine>(
    engine: E, body: Seq<StatementView>, s0: InterpreterView, s1: InterpreterView, r: Result<bool,
    GizmoError>,
) -> bool
    decreases body, 3int, 0int, 0int,
{
    exists|k: int, sm: InterpreterView, rf: Result<Flow, GizmoError>, rv: Result<Value, GizmoError>|
        #[trigger] decides_via(engine, body, k, s0, sm, rf, rv, s1, r)
}

/// `decides` is what its definition says.
pub proof fn lemma_decides<E: NumberEngine>(
    engine: E, body: Seq<StatementView>, s0: InterpreterView, s1: InterpreterView, r: Result<bool,
    GizmoError>,
)
    ensures
        decides(engine, body, s0, s1, r) == decides_rule(engine, body, s0, s1, r),
{
    reveal(decides);
}

/// `k` statements run to their end; then the body is done, or the
/// statement at `k` decides the pixel.
#[verifier::opaque]
pub open spec fn decides_via<E: NumberEngine>(
    engine: E, body: Seq<StatementView>, k: int, s0: InterpreterView, sm: InterpreterView, rf:
    Result<Flow, GizmoError>, rv: Result<Value, GizmoError>, s1: InterpreterView, r: Result<bool,
    GizmoError>,
) -> bool
    decreases body, 2int, 0int, 1int,
{
    decides_via_rule(engine, body, k, s0, sm, rf, rv, s1, r)
}

/// The definition of `decides_via`.
pub open spec fn decides_via_rule<E: NumberEngine>(
    engine: E, body: Seq<StatementView>, k: int, s0: InterpreterView, sm: InterpreterView, rf:
    Result<Flow, GizmoError>, rv: Result<Value, GizmoError>, s1: InterpreterView, r: Result<bool,
    GizmoError>,
) -> bool
    decreases body, 2int, 0int, 0int,
{
    if !(0 <= k <= body.len()) {
        false
    } else if k == body.len() {
        ran(engine, body, k, s0, sm) && s1 == sm && r == Ok::<bool, GizmoError>(false)
    } else {
        ran(engine, body, k, s0, sm) && match body[k] {
            StatementView::ExpressionStatement(e) => if k == body.len() - 1 {
                evaluates(engine, e, sm, s1, rv) && match rv {
                    Err(x) => r is Err && r->Err_0 == x,
                    Ok(v) => r == Ok::<bool, GizmoError>(v@.truthy()),
                }
            } else {
                executes(engine, body[k], sm, s1, rf) && rf is Err && r is Err && r->Err_0 == rf->Err_0
            },
            _ => executes(engine, body[k], sm, s1, rf) && match rf {
                Err(x) => r is Err && r->Err_0 == x,
                Ok(Flow::Returned(v)) => r == Ok::<bool, GizmoError>(v@.truthy()),
                Ok(Flow::Normal) => false,
            },
        }
    }
}

/// `decides_via` is what its definition says.
pub proof fn lemma_decides_via<E: NumberEngine>(
    engine: E, body: Seq<StatementView>, k: int, s0: InterpreterView, sm: InterpreterView, rf:
    Result<Flow, GizmoError>, rv: Result<Value, GizmoError>, s1: InterpreterView, r: Result<bool,
    GizmoError>,
)
    ensures
        decides_via(engine, body, k, s0, sm, rf, rv, s1, r) == decides_via_rule(engine, body, k, s0, sm, rf, rv, s1, r),
{
    reveal(decides_via);
}

/// Whether computing the pixel in row `y`, column `x` of a generator from
/// state `s0` can end in state `s1` with result `r`. The body runs in a
/// scope of its own that binds `row` to `y`, `col` to `x` and the extra name
/// to its value, and that is closed again before the pixel is done: what
/// the body binds is gone with it.
#[verifier::opaque]
pub open spec fn paints<E: NumberEngine>(
    engine: E, body: Seq<StatementView>, extra: Option<(Seq<char>, ValueView)>, y: int, x: int, s0:
    InterpreterView, s1: InterpreterView, r: Result<bool, GizmoError>,
) -> bool
    decreases body, 5int, 0int, 1int,
{
    paints_rule(engine, body, extra, y, x, s0, s1, r)
}

/// The definition of `paints`.
pub open spec fn paints_rule<E: NumberEngine>(
    engine: E, body: Seq<StatementView>, extra: Option<(Seq<char>, ValueView)>, y: int, x: int, s0:
    InterpreterView, s1: InterpreterView, r: Result<bool, GizmoError>,
) -> bool
    decreases body, 5int, 0int, 0int,
{
    exists|sm: InterpreterView| #[trigger] paints_via(engine, body, extra, y, x, s0, sm, s1, r)
}

/// `paints` is what its definition says.
pub proof fn lemma_paints<E: NumberEngine>(
    engine: E, body: Seq<StatementView>, extra: Option<(Seq<char>, ValueView)>, y: int, x: int, s0:
    InterpreterView, s1: InterpreterView, r: Result<bool, GizmoError>,
)
    ensures
        paints(engine, body, extra, y, x, s0, s1, r) == paints_rule(engine, body, extra, y, x, s0, s1, r),
{
    reveal(paints);
}

/// One pixel, with the state in which its body ends.
#[verifier::opaque]
pub open spec fn paints_via<E: NumberEngine>(
    engine: E, body: Seq<StatementView>, extra: Option<(Seq<char>, ValueView)>, y: int, x: int, s0:
    InterpreterView, sm: InterpreterView, s1: InterpreterView, r: Result<bool, GizmoError>,
) -> bool
    decreases body, 4int, 0int, 1int,
{
    paints_via_rule(engine, body, extra, y, x, s0, sm, s1, r)
}

/// The definition of `paints_via`.
pub open spec fn paints_via_rule<E: NumberEngine>(
    engine: E, body: Seq<StatementView>, extra: Option<(Seq<char>, ValueView)>, y: int, x: int, s0:
    InterpreterView, sm: InterpreterView, s1: InterpreterView, r: Result<bool, GizmoError>,
) -> bool
    decreases body, 4int, 0int, 0int,
{
    decides(engine,
        body,
        pixel_scope(s0, extra, Number::of_integer(y as nat), Number::of_integer(x as nat)),
        sm,
        r,
    ) && sm.scopes.len() > 0 && s1 == left_scope(sm)
}

/// `paints_via` is what its definition says.
pub proof fn lemma_paints_via<E: NumberEngine>(
    engine: E, body: Seq<StatementView>, extra: Option<(Seq<char>, ValueView)>, y: int, x: int, s0:
    InterpreterView, sm: InterpreterView, s1: InterpreterView, r: Result<bool, GizmoError>,
)
    ensures
        paints_via(engine, body, extra, y, x, s0, sm, s1, r) == paints_via_rule(engine, body, extra, y, x, s0, sm, s1, r),
{
    reveal(paints_via);
}

/// Whether computing the first `n` pixels of row `y` from state `s0`,
/// none of them failing, can end in state `s1` with the pixels `bits`.
#[verifier::opaque]
pub open spec fn painted_row<E: NumberEngine>(
    engine: E, body: Seq<StatementView>, extra: Option<(Seq<char>, ValueView)>, y: int, n: int, s0:
    InterpreterView, s1: InterpreterView, bits: Seq<bool>,
) -> bool
    decreases body, 6int, 2 * n, 1int,
{
    painted_row_rule(engine, body, extra, y, n, s0, s1, bits)
}

/// The definition of `painted_row`.
pub open spec fn painted_row_rule<E: NumberEngine>(
    engine: E, body: Seq<StatementView>, extra: Option<(Seq<char>, ValueView)>, y: int, n: int, s0:
    InterpreterView, s1: InterpreterView, bits: Seq<bool>,
) -> bool
    decreases body, 6int, 2 * n, 0int,
{
    if n <= 0 {
        s1 == s0 && bits.len() == 0
    } else {
        exists|sm: InterpreterView| #[trigger] painted_row_via(engine, body, extra, y, n, s0, sm, s1, bits)
    }
}

/// `painted_row` is what its definition says.
pub proof fn lemma_painted_row<E: NumberEngine>(
    engine: E, body: Seq<StatementView>, extra: Option<(Seq<char>, ValueView)>, y: int, n: int, s0:
    InterpreterView, s1: InterpreterView, bits: Seq<bool>,
)
    ensures
        painted_row(engine, body, extra, y, n, s0, s1, bits) == painted_row_rule(engine, body, extra, y, n, s0, s1, bits),
{
    reveal(painted_row);
}

/// One more pixel of the row.
#[verifier::opaque]
pub open spec fn painted_row_via<E: NumberEngine>(
    engine: E, body: Seq<StatementView>, extra: Option<(Seq<char>, ValueView)>, y: int, n: int, s0:
    InterpreterView, sm: InterpreterView, s1: InterpreterView, bits: Seq<bool>,
) -> bool
    decreases body, 6int, 2 * n - 1, 1int,
{
    painted_row_via_rule(engine, body, extra, y, n, s0, sm, s1, bits)
}

/// The definition of `painted_row_via`.
pub open spec fn painted_row_via_rule<E: NumberEngine>(
    engine: E, body: Seq<StatementView>, extra: Option<(Seq<char>, ValueView)>, y: int, n: int, s0:
    InterpreterView, sm: InterpreterView, s1: InterpreterView, bits: Seq<bool>,
) -> bool
    decreases body, 6int, 2 * n - 1, 0int,
{
    if 0 < n {
        bits.len() == n && painted_row(engine, body, extra, y, n - 1, s0, sm, bits.drop_last()) && paints(engine,
            body,
            extra,
            y,
            n - 1,
            sm,
            s1,
            Ok(bits.last()),
        )
    } else {
        false
    }
}

/// `painted_row_via` is what its definition says.
pub proof fn lemma_painted_row_via<E: NumberEngine>(
    engine: E, body: Seq<StatementView>, extra: Option<(Seq<char>, ValueView)>, y: int, n: int, s0:
    InterpreterView, sm: InterpreterView, s1: InterpreterView, bits: Seq<bool>,
)
    ensures
        painted_row_via(engine, body, extra, y, n, s0, sm, s1, bits) == painted_row_via_rule(engine, body, extra, y, n, s0, sm, s1, bits),
{
    reveal(painted_row_via);
}

/// Whether computing the first `n` rows of a frame of the given width
/// from state `s0`, no pixel failing, can end in state `s1` with the rows
/// `rows`.
#[verifier::opaque]
pub open spec fn painted<E: NumberEngine>(
    engine: E, body: Seq<StatementView>, extra: Option<(Seq<char>, ValueView)>, width: int, n: int,
    s0: InterpreterView, s1: InterpreterView, rows: Seq<Seq<bool>>,
) -> bool
    decreases body, 7int, 2 * n, 1int,
{
    painted_rule(engine, body, extra, width, n, s0, s1, rows)
}

/// The definition of `painted`.
pub open spec fn painted_rule<E: NumberEngine>(
    engine: E, body: Seq<StatementView>, extra: Option<(Seq<char>, ValueView)>, width: int, n: int,
    s0: InterpreterView, s1: InterpreterView, rows: Seq<Seq<bool>>,
) -> bool
    decreases body, 7int, 2 * n, 0int,
{
    if n <= 0 {
        s1 == s0 && rows.len() == 0
    } else {
        exists|sm: InterpreterView| #[trigger] painted_via(engine, body, extra, width, n, s0, sm, s1, rows)
    }
}

/// `painted` is what its definition says.
pub proof fn lemma_painted<E: NumberEngine>(
    engine: E, body: Seq<StatementView>, extra: Option<(Seq<char>, ValueView)>, width: int, n: int,
    s0: InterpreterView, s1: InterpreterView, rows: Seq<Seq<bool>>,
)
    ensures
        painted(engine, body, extra, width, n, s0, s1, rows) == painted_rule(engine, body, extra, width, n, s0, s1, rows),
{
    reveal(painted);
}

/// One more row.
#[verifier::opaque]
pub open spec fn painted_via<E: NumberEngine>(
    engine: E, body: Seq<StatementView>, extra: Option<(Seq<char>, ValueView)>, width: int, n: int,
    s0: InterpreterView, sm: InterpreterView, s1: InterpreterView, rows: Seq<Seq<bool>>,
) -> bool
    decreases body, 7int, 2 * n - 1, 1int,
{
    painted_via_rule(engine, body, extra, width, n, s0, sm, s1, rows)
}

/// The definition of `painted_via`.
pub open spec fn painted_via_rule<E: NumberEngine>(
    engine: E, body: Seq<StatementView>, extra: Option<(Seq<char>, ValueView)>, width: int, n: int,
    s0: InterpreterView, sm: InterpreterView, s1: InterpreterView, rows: Seq<Seq<bool>>,
) -> bool
    decreases body, 7int, 2 * n - 1, 0int,
{
    if 0 < n {
        rows.len() == n && painted(engine, body, extra, width, n - 1, s0, sm, rows.drop_last())
            && painted_row(engine, body, extra, n - 1, width, sm, s1, rows.last())
    } else {
        false
    }
}

/// `painted_via` is what its definition says.
pub proof fn lemma_painted_via<E: NumberEngine>(
    engine: E, body: Seq<StatementView>, extra: Option<(Seq<char>, ValueView)>, width: int, n: int,
    s0: InterpreterView, sm: InterpreterView, s1: InterpreterView, rows: Seq<Seq<bool>>,
)
    ensures
        painted_via(engine, body, extra, width, n, s0, sm, s1, rows) == painted_via_rule(engine, body, extra, width, n, s0, sm, s1, rows),
{
    reveal(painted_via);
}

/// Whether building a frame of `width` by `height` pixels from state
/// `s0` can end in state `s1` with result `r`. The pixels are computed row
/// by row, and in each row from left to right; the first pixel that fails
/// ends the generator with its failure.
#[verifier::opaque]
pub open spec fn generates<E: NumberEngine>(
    engine: E, body: Seq<StatementView>, extra: Option<(Seq<char>, ValueView)>, width: int, height:
    int, s0: InterpreterView, s1: InterpreterView, r: Result<Value, GizmoError>,
) -> bool
    decreases body, 9int, 0int, 1int,
{
    generates_rule(engine, body, extra, width, height, s0, s1, r)
}

/// The definition of `generates`.
pub open spec fn generates_rule<E: NumberEngine>(
    engine: E, body: Seq<StatementView>, extra: Option<(Seq<char>, ValueView)>, width: int, height:
    int, s0: InterpreterView, s1: InterpreterView, r: Result<Value, GizmoError>,
) -> bool
    decreases body, 9int, 0int, 0int,
{
    match r {
        Ok(v) => exists|rows: Seq<Seq<bool>>| #[trigger] frame_via(engine, body, extra, width, height, s0, s1, rows, v),
        Err(x) => exists|y: int, column: int, sa: InterpreterView, sb: InterpreterView, rows: Seq<Seq<bool>>, bits: Seq<bool>|
            #[trigger] pixel_fails(engine, body, extra, width, height, y, column, s0, sa, sb, rows, bits, s1, x),
    }
}

/// `generates` is what its definition says.
pub proof fn lemma_generates<E: NumberEngine>(
    engine: E, body: Seq<StatementView>, extra: Option<(Seq<char>, ValueView)>, width: int, height:
    int, s0: InterpreterView, s1: InterpreterView, r: Result<Value, GizmoError>,
)
    ensures
        generates(engine, body, extra, width, height, s0, s1, r) == generates_rule(engine, body, extra, width, height, s0, s1, r),
{
    reveal(generates);
}

/// The frame of all rows.
#[verifier::opaque]
pub open spec fn frame_via<E: NumberEngine>(
    engine: E, body: Seq<StatementView>, extra: Option<(Seq<char>, ValueView)>, width: int, height:
    int, s0: InterpreterView, s1: InterpreterView, rows: Seq<Seq<bool>>, v: Value,
) -> bool
    decreases body, 8int, 0int, 1int,
{
    frame_via_rule(engine, body, extra, width, height, s0, s1, rows, v)
}

/// The definition of `frame_via`.
pub open spec fn frame_via_rule<E: NumberEngine>(
    engine: E, body: Seq<StatementView>, extra: Option<(Seq<char>, ValueView)>, width: int, height:
    int, s0: InterpreterView, s1: InterpreterView, rows: Seq<Seq<bool>>, v: Value,
) -> bool
    decreases body, 8int, 0int, 0int,
{
    0 <= width && 0 <= height && painted(engine, body, extra, width, height, s0, s1, rows) && v@
        == ValueView::Frame(FrameView { width, height, rows })
}

/// `frame_via` is what its definition says.
pub proof fn lemma_frame_via<E: NumberEngine>(
    engine: E, body: Seq<StatementView>, extra: Option<(Seq<char>, ValueView)>, width: int, height:
    int, s0: InterpreterView, s1: InterpreterView, rows: Seq<Seq<bool>>, v: Value,
)
    ensures
        frame_via(engine, body, extra, width, height, s0, s1, rows, v) == frame_via_rule(engine, body, extra, width, height, s0, s1, rows, v),
{
    reveal(frame_via);
}

/// The pixel in row `y` and the given column fails, behind those that did
/// not.
#[verifier::opaque]
pub open spec fn pixel_fails<E: NumberEngine>(
    engine: E, body: Seq<StatementView>, extra: Option<(Seq<char>, ValueView)>, width: int, height:
    int, y: int, column: int, s0: InterpreterView, sa: InterpreterView, sb: InterpreterView, rows:
    Seq<Seq<bool>>, bits: Seq<bool>, s1: InterpreterView, x: GizmoError,
) -> bool
    decreases body, 8int, 0int, 1int,
{
    pixel_fails_rule(engine, body, extra, width, height, y, column, s0, sa, sb, rows, bits, s1, x)
}

/// The definition of `pixel_fails`.
pub open spec fn pixel_fails_rule<E: NumberEngine>(
    engine: E, body: Seq<StatementView>, extra: Option<(Seq<char>, ValueView)>, width: int, height:
    int, y: int, column: int, s0: InterpreterView, sa: InterpreterView, sb: InterpreterView, rows:
    Seq<Seq<bool>>, bits: Seq<bool>, s1: InterpreterView, x: GizmoError,
) -> bool
    decreases body, 8int, 0int, 0int,
{
    0 <= y < height && 0 <= column < width && painted(engine, body, extra, width, y, s0, sa, rows) && painted_row(engine,
        body,
        extra,
        y,
        column,
        sa,
        sb,
        bits,
    ) && paints(engine, body, extra, y, column, sb, s1, Err(x))
}

/// `pixel_fails` is what its definition says.
pub proof fn lemma_pixel_fails<E: NumberEngine>(
    engine: E, body: Seq<StatementView>, extra: Option<(Seq<char>, ValueView)>, width: int, height:
    int, y: int, column: int, s0: InterpreterView, sa: InterpreterView, sb: InterpreterView, rows:
    Seq<Seq<bool>>, bits: Seq<bool>, s1: InterpreterView, x: GizmoError,
)
    ensures
        pixel_fails(engine, body, extra, width, height, y, column, s0, sa, sb, rows, bits, s1, x) == pixel_fails_rule(engine, body, extra, width, height, y, column, s0, sa, sb, rows, bits, s1, x),
{
    reveal(pixel_fails);
}

} // verus!

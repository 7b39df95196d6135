//! What the operators of the language compute on values, and how array
//! literals become frames and frame sequences.

use vstd::prelude::*;
use vstd::string::StringExecFns;
use crate::ast::{BinaryOperator, UnaryOperator};
use crate::builtin::{fails, gives, values_view, values_wf};
use crate::error::{ErrorKind, GizmoError};
use crate::frame::{copy_row, rectangular, Frame, FrameView};
use crate::number::{ArithmeticOp, Number, NumberEngine, EPSILON_BITS};
use crate::text::{decimal_text, same_text};
use crate::value::{frames_view, not_a_number_message, same_frames, Value, ValueView};

verus! {

/// Whether two values that are not both numbers are equal: they are of the
/// same variant and hold the same thing. Values of different variants are
/// never equal.
pub open spec fn structurally_equal(left: ValueView, right: ValueView) -> bool {
    match (left, right) {
        (ValueView::String(a), ValueView::String(b)) => a == b,
        (ValueView::Boolean(a), ValueView::Boolean(b)) => a == b,
        (ValueView::Frame(a), ValueView::Frame(b)) => a == b,
        (ValueView::Frames(a), ValueView::Frames(b)) => a == b,
        _ => false,
    }
}

/// Whether two numbers are plainly the same: finite and of the same rank.
pub open spec fn same_finite_number(a: Number, b: Number) -> bool {
    !a.is_nan() && !b.is_nan() && !a.is_infinite() && !b.is_infinite() && a.rank() == b.rank()
}

/// Whether two numbers are equal: they differ by less than the machine
/// epsilon, the difference being what `engine` answers for it, or they are
/// plainly the same finite number.
pub open spec fn numbers_equal<E: NumberEngine>(engine: E, a: Number, b: Number) -> bool {
    same_finite_number(a, b) || engine.arithmetic_result(
        ArithmeticOp::Subtract,
        a,
        b,
    ).positive().less(Number { bits: EPSILON_BITS })
}

/// Whether two values are equal. Values of different variants never are.
/// Strings, booleans, frames and frame sequences are compared by what they
/// hold, and numbers as `numbers_equal` says.
pub open spec fn equal<E: NumberEngine>(engine: E, left: ValueView, right: ValueView) -> bool {
    match (left, right) {
        (ValueView::Number(a), ValueView::Number(b)) => numbers_equal(engine, a, b),
        _ => structurally_equal(left, right),
    }
}

/// Whether two values are equal.
pub fn values_equal<E: NumberEngine>(engine: &E, left: &Value, right: &Value) -> (b: bool)
    ensures
        b == equal(*engine, left@, right@),
{
    match (left, right) {
        (Value::Number(a), Value::Number(b)) => {
            let plain = !a.nan() && !b.nan() && a.bits % crate::number::SIGN_BIT
                != crate::number::INFINITY_BITS && b.bits % crate::number::SIGN_BIT
                != crate::number::INFINITY_BITS && a.at_most(*b) && b.at_most(*a);
            if plain {
                true
            } else {
                let difference = engine.arithmetic(ArithmeticOp::Subtract, *a, *b);
                difference.absolute().less_than(Number { bits: EPSILON_BITS })
            }
        },
        (Value::String(a), Value::String(b)) => same_text(a.as_str(), b.as_str()),
        (Value::Boolean(a), Value::Boolean(b)) => *a == *b,
        (Value::Frame(a), Value::Frame(b)) => a.same_as(b),
        (Value::Frames(a), Value::Frames(b)) => same_frames(a, b),
        _ => false,
    }
}

/// Every value is equal to itself, but a number that is not finite.
pub proof fn law_equality_reflexive<E: NumberEngine>(engine: E, v: ValueView)
    requires
        v matches ValueView::Number(n) ==> !n.is_nan() && !n.is_infinite(),
    ensures
        equal(engine, v, v),
{
}

/// Equality does not depend on the order of the two values: always where
/// they are not both numbers, and for two numbers wherever the differences
/// that the engine answers for the two orders have the same magnitude.
pub proof fn law_equality_symmetric<E: NumberEngine>(engine: E, a: ValueView, b: ValueView)
    requires
        a is Number && b is Number ==> engine.arithmetic_result(
            ArithmeticOp::Subtract,
            a->Number_0,
            b->Number_0,
        ).positive() == engine.arithmetic_result(
            ArithmeticOp::Subtract,
            b->Number_0,
            a->Number_0,
        ).positive(),
    ensures
        equal(engine, a, b) == equal(engine, b, a),
{
}

/// Values of different variants are never equal.
pub proof fn law_equality_across_variants<E: NumberEngine>(engine: E, a: ValueView, b: ValueView)
    requires
        (a is Number) != (b is Number) || (a is String) != (b is String) || (a is Boolean) != (
        b is Boolean) || (a is Frame) != (b is Frame) || (a is Frames) != (b is Frames),
    ensures
        !equal(engine, a, b),
{
}

/// A finite number is the same finite number as itself, and being the same
/// finite number does not depend on the order of the two.
pub proof fn law_same_finite_number(a: Number, b: Number)
    ensures
        !a.is_nan() && !a.is_infinite() ==> same_finite_number(a, a),
        same_finite_number(a, b) == same_finite_number(b, a),
{
}

/// What a relational operator says of two numbers.
pub open spec fn relation(op: BinaryOperator, a: Number, b: Number) -> bool {
    match op {
        BinaryOperator::Less => a.less(b),
        BinaryOperator::Greater => b.less(a),
        BinaryOperator::LessEqual => a.less_or_equal(b),
        BinaryOperator::GreaterEqual => b.less_or_equal(a),
        _ => false,
    }
}

/// What an operator that works on numbers gives for two numbers: the
/// arithmetic operators what `engine` answers, division and remainder by
/// zero a failure, and the relations a boolean.
pub open spec fn numeric_outcome<E: NumberEngine>(
    engine: E,
    a: Number,
    op: BinaryOperator,
    b: Number,
    r: Result<Value, GizmoError>,
) -> bool {
    match op {
        BinaryOperator::Add => gives(
            r,
            ValueView::Number(engine.arithmetic_result(ArithmeticOp::Add, a, b)),
        ),
        BinaryOperator::Subtract => gives(
            r,
            ValueView::Number(engine.arithmetic_result(ArithmeticOp::Subtract, a, b)),
        ),
        BinaryOperator::Multiply => gives(
            r,
            ValueView::Number(engine.arithmetic_result(ArithmeticOp::Multiply, a, b)),
        ),
        BinaryOperator::Power => gives(
            r,
            ValueView::Number(engine.arithmetic_result(ArithmeticOp::Power, a, b)),
        ),
        BinaryOperator::Divide => if b.is_zero() {
            r == Err::<Value, GizmoError>(GizmoError::DivisionByZero)
        } else {
            gives(r, ValueView::Number(engine.arithmetic_result(ArithmeticOp::Divide, a, b)))
        },
        BinaryOperator::Modulo => if b.is_zero() {
            r == Err::<Value, GizmoError>(GizmoError::DivisionByZero)
        } else {
            gives(r, ValueView::Number(engine.arithmetic_result(ArithmeticOp::Remainder, a, b)))
        },
        _ => gives(r, ValueView::Boolean(relation(op, a, b))),
    }
}

/// What a failed coercion of two operands reports: the left operand where
/// it is no number, else the right one.
pub open spec fn operand_message<E: NumberEngine>(engine: E, left: ValueView, right: ValueView) -> Seq<
    char,
> {
    if left.as_number(engine) is None {
        not_a_number_message(left)
    } else {
        not_a_number_message(right)
    }
}

/// What a binary operator gives for two values.
///
/// Equality and the logical operators take any two values. Every other
/// operator needs both operands to coerce to numbers, and is a type error
/// where one does not.
pub open spec fn binary_outcome<E: NumberEngine>(
    engine: E,
    left: ValueView,
    op: BinaryOperator,
    right: ValueView,
    r: Result<Value, GizmoError>,
) -> bool {
    match op {
        BinaryOperator::Equal => gives(r, ValueView::Boolean(equal(engine, left, right))),
        BinaryOperator::NotEqual => gives(r, ValueView::Boolean(!equal(engine, left, right))),
        BinaryOperator::And => gives(r, ValueView::Boolean(left.truthy() && right.truthy())),
        BinaryOperator::Or => gives(r, ValueView::Boolean(left.truthy() || right.truthy())),
        _ => match (left.as_number(engine), right.as_number(engine)) {
            (Some(a), Some(b)) => numeric_outcome(engine, a, op, b, r),
            _ => fails(r, ErrorKind::Type) && r->Err_0.detail() == operand_message(
                engine,
                left,
                right,
            ),
        },
    }
}

/// Division and remainder fail with division by zero exactly where both
/// operands coerce to numbers and the divisor is zero, of either sign. With
/// any other divisor the result is what the engine answers.
pub proof fn law_division_by_zero<E: NumberEngine>(
    engine: E,
    left: ValueView,
    op: BinaryOperator,
    right: ValueView,
    r: Result<Value, GizmoError>,
)
    requires
        op == BinaryOperator::Divide || op == BinaryOperator::Modulo,
        binary_outcome(engine, left, op, right, r),
    ensures
        r == Err::<Value, GizmoError>(GizmoError::DivisionByZero) <==> left.as_number(engine) is Some
            && right.as_number(engine) is Some && right.as_number(engine)->0.is_zero(),
        left.as_number(engine) is Some && right.as_number(engine) is Some && !right.as_number(
            engine,
        )->0.is_zero() ==> gives(
            r,
            ValueView::Number(
                engine.arithmetic_result(
                    if op == BinaryOperator::Divide {
                        ArithmeticOp::Divide
                    } else {
                        ArithmeticOp::Remainder
                    },
                    left.as_number(engine)->0,
                    right.as_number(engine)->0,
                ),
            ),
        ),
{
}

/// Both operands as numbers, the left one coerced first.
fn operands<E: NumberEngine>(engine: &E, left: &Value, right: &Value) -> (r: Result<
    (Number, Number),
    GizmoError,
>)
    ensures
        match (left@.as_number(*engine), right@.as_number(*engine)) {
            (Some(a), Some(b)) => r == Ok::<(Number, Number), GizmoError>((a, b)),
            _ => r is Err && r->Err_0.kind() == ErrorKind::Type && r->Err_0.detail()
                == operand_message(*engine, left@, right@),
        },
{
    let a = left.to_number(engine)?;
    let b = right.to_number(engine)?;
    Ok((a, b))
}

/// Applies a binary operator to two values.
pub fn apply_binary_operator<E: NumberEngine>(
    engine: &E,
    left: &Value,
    op: BinaryOperator,
    right: &Value,
) -> (r: Result<Value, GizmoError>)
    ensures
        binary_outcome(*engine, left@, op, right@, r),
        r matches Ok(v) ==> v.wf(),
{
    match op {
        BinaryOperator::Equal => Ok(Value::Boolean(values_equal(engine, left, right))),
        BinaryOperator::NotEqual => Ok(Value::Boolean(!values_equal(engine, left, right))),
        BinaryOperator::And => Ok(Value::Boolean(left.is_truthy() && right.is_truthy())),
        BinaryOperator::Or => Ok(Value::Boolean(left.is_truthy() || right.is_truthy())),
        BinaryOperator::Less => {
            let (a, b) = operands(engine, left, right)?;
            Ok(Value::Boolean(a.less_than(b)))
        },
        BinaryOperator::Greater => {
            let (a, b) = operands(engine, left, right)?;
            Ok(Value::Boolean(b.less_than(a)))
        },
        BinaryOperator::LessEqual => {
            let (a, b) = operands(engine, left, right)?;
            Ok(Value::Boolean(a.at_most(b)))
        },
        BinaryOperator::GreaterEqual => {
            let (a, b) = operands(engine, left, right)?;
            Ok(Value::Boolean(b.at_most(a)))
        },
        BinaryOperator::Add => {
            let (a, b) = operands(engine, left, right)?;
            Ok(Value::Number(engine.arithmetic(ArithmeticOp::Add, a, b)))
        },
        BinaryOperator::Subtract => {
            let (a, b) = operands(engine, left, right)?;
            Ok(Value::Number(engine.arithmetic(ArithmeticOp::Subtract, a, b)))
        },
        BinaryOperator::Multiply => {
            let (a, b) = operands(engine, left, right)?;
            Ok(Value::Number(engine.arithmetic(ArithmeticOp::Multiply, a, b)))
        },
        BinaryOperator::Power => {
            let (a, b) = operands(engine, left, right)?;
            Ok(Value::Number(engine.arithmetic(ArithmeticOp::Power, a, b)))
        },
        BinaryOperator::Divide => {
            let (a, b) = operands(engine, left, right)?;
            if b.zero() {
                return Err(GizmoError::DivisionByZero);
            }
            Ok(Value::Number(engine.arithmetic(ArithmeticOp::Divide, a, b)))
        },
        BinaryOperator::Modulo => {
            let (a, b) = operands(engine, left, right)?;
            if b.zero() {
                return Err(GizmoError::DivisionByZero);
            }
            Ok(Value::Number(engine.arithmetic(ArithmeticOp::Remainder, a, b)))
        },
    }
}

/// What a unary operator gives: `not` the boolean opposite of the value's
/// truth, `-` the number with the other sign, and a type error for a value
/// that is no number.
pub open spec fn unary_outcome<E: NumberEngine>(
    engine: E,
    op: UnaryOperator,
    operand: ValueView,
    r: Result<Value, GizmoError>,
) -> bool {
    match op {
        UnaryOperator::Not => gives(r, ValueView::Boolean(!operand.truthy())),
        UnaryOperator::Minus => match operand.as_number(engine) {
            Some(n) => gives(r, ValueView::Number(n.opposite())),
            None => fails(r, ErrorKind::Type),
        },
    }
}

/// Applies a unary operator to a value.
pub fn apply_unary_operator<E: NumberEngine>(engine: &E, op: UnaryOperator, operand: &Value) -> (r:
    Result<Value, GizmoError>)
    ensures
        unary_outcome(*engine, op, operand@, r),
        r matches Ok(v) ==> v.wf(),
{
    match op {
        UnaryOperator::Not => Ok(Value::Boolean(!operand.is_truthy())),
        UnaryOperator::Minus => {
            let n = operand.to_number(engine)?;
            Ok(Value::Number(n.negated()))
        },
    }
}

/// Row `i` of a frame as a frame of one row.
pub open spec fn row_frame(f: FrameView, i: int) -> FrameView {
    FrameView { width: f.width, height: 1, rows: seq![f.rows[i]] }
}

/// What indexing gives: row `i` of a frame as a one-row frame, or frame `i`
/// of a frame sequence, where `i` is the index number rounded toward zero.
/// An index that is NaN, below zero or past the end is an index error;
/// indexing anything else, or by anything but a number, is a type error.
pub open spec fn index_outcome(object: ValueView, index: ValueView, r: Result<Value, GizmoError>) -> bool {
    match (object, index) {
        (ValueView::Frame(f), ValueView::Number(n)) => if n.is_position() && n.as_index()
            < f.height {
            gives(r, ValueView::Frame(row_frame(f, n.as_index() as int)))
        } else {
            fails(r, ErrorKind::Index)
        },
        (ValueView::Frames(fs), ValueView::Number(n)) => if n.is_position() && n.as_index()
            < fs.len() {
            gives(r, ValueView::Frame(fs[n.as_index() as int]))
        } else {
            fails(r, ErrorKind::Index)
        },
        _ => fails(r, ErrorKind::Type),
    }
}

/// Only a frame and a sequence of frames can be indexed, and only by a
/// number: anything else is a type error. An index that names no position,
/// or one at or past the end of what is indexed, is an index error, and any
/// other index succeeds.
pub proof fn law_indexing(object: ValueView, index: ValueView, r: Result<Value, GizmoError>)
    requires
        index_outcome(object, index, r),
    ensures
        !(object is Frame || object is Frames) || !(index is Number) ==> fails(r, ErrorKind::Type),
        object is Frames && index is Number ==> (r is Ok <==> index->Number_0.is_position()
            && index->Number_0.as_index() < object->Frames_0.len()),
        object is Frame && index is Number ==> (r is Ok <==> index->Number_0.is_position()
            && index->Number_0.as_index() < object->Frame_0.height),
        (object is Frame || object is Frames) && index is Number && r is Err ==> fails(
            r,
            ErrorKind::Index,
        ),
{
}

/// Applies the index operator.
pub fn apply_index_operator(object: &Value, index: &Value) -> (r: Result<Value, GizmoError>)
    requires
        object.wf(),
    ensures
        index_outcome(object@, index@, r),
        r matches Ok(v) ==> v.wf(),
{
    match (object, index) {
        (Value::Frame(frame), Value::Number(n)) => {
            let i = match n.position() {
                Some(i) => i,
                None => {
                    return Err(
                        GizmoError::IndexError(
                            String::from_str("Row index is negative or not a number"),
                        ),
                    );
                },
            };
            if i >= frame.height {
                let mut msg = String::from_str("Row index ");
                msg.append(decimal_text(i as u64).as_str());
                msg.append(" out of bounds");
                return Err(GizmoError::IndexError(msg));
            }
            proof {
                frame.lemma_row(i as int);
            }
            let mut rows: Vec<Vec<bool>> = Vec::new();
            rows.push(copy_row(&frame.pixels[i]));
            let f = Frame { width: frame.width, height: 1, pixels: rows };
            assert(f@.rows =~= row_frame(frame@, i as int).rows);
            Ok(Value::Frame(f))
        },
        (Value::Frames(frames), Value::Number(n)) => {
            let i = match n.position() {
                Some(i) => i,
                None => {
                    return Err(
                        GizmoError::IndexError(
                            String::from_str("Frame index is negative or not a number"),
                        ),
                    );
                },
            };
            if i >= frames.len() {
                let mut msg = String::from_str("Frame index ");
                msg.append(decimal_text(i as u64).as_str());
                msg.append(" out of bounds");
                return Err(GizmoError::IndexError(msg));
            }
            assert(frames_view(frames@)[i as int] == frames@[i as int]@);
            Ok(Value::Frame(frames[i].duplicate()))
        },
        _ => Err(GizmoError::TypeError(String::from_str("Invalid index operation"))),
    }
}

/// Whether every value is a frame.
pub open spec fn all_frames(vs: Seq<ValueView>) -> bool {
    forall|i: int| 0 <= i < vs.len() ==> (#[trigger] vs[i]) is Frame
}

/// Whether every value is a number.
pub open spec fn all_numbers(vs: Seq<ValueView>) -> bool {
    forall|i: int| 0 <= i < vs.len() ==> (#[trigger] vs[i]) is Number
}

/// Whether every value is a frame of exactly one row.
pub open spec fn all_single_rows(vs: Seq<ValueView>) -> bool {
    forall|i: int| 0 <= i < vs.len() ==> (#[trigger] vs[i]) is Frame && vs[i]->Frame_0.height == 1
}

/// The frames that a list of frame values holds.
pub open spec fn frames_of(vs: Seq<ValueView>) -> Seq<FrameView> {
    Seq::new(vs.len(), |i: int| vs[i]->Frame_0)
}

/// The row of pixels that a list of numbers stands for: on where the number
/// is not zero.
pub open spec fn pixels_of(vs: Seq<ValueView>) -> Seq<bool> {
    Seq::new(vs.len(), |i: int| !vs[i]->Number_0.is_zero())
}

/// The first rows of a list of frame values.
pub open spec fn first_rows(vs: Seq<ValueView>) -> Seq<Seq<bool>> {
    Seq::new(vs.len(), |i: int| vs[i]->Frame_0.rows[0])
}

/// What stacking one-row frames gives: a frame of as many rows as there are
/// values. Anything but a one-row frame among the values is a type error,
/// as is an empty list; rows of different lengths are an invalid-frame error.
pub open spec fn stack_outcome(vs: Seq<ValueView>, r: Result<Value, GizmoError>) -> bool {
    if !all_single_rows(vs) || vs.len() == 0 {
        r is Err && r->Err_0.kind() == ErrorKind::Type
    } else if rectangular(first_rows(vs)) {
        r is Ok && r->Ok_0@ == ValueView::Frame(
            FrameView {
                width: first_rows(vs)[0].len() as int,
                height: vs.len() as int,
                rows: first_rows(vs),
            },
        )
    } else {
        r is Err && r->Err_0.kind() == ErrorKind::InvalidFrameSize
    }
}

/// Stacks one-row frames into one frame, the first value on top.
pub fn try_create_2d_frame(values: &Vec<Value>) -> (r: Result<Value, GizmoError>)
    requires
        values_wf(values@),
    ensures
        stack_outcome(values_view(values@), r),
        r matches Ok(v) ==> v.wf(),
{
    let ghost vs = values_view(values@);
    let mut rows: Vec<Vec<bool>> = Vec::new();
    let mut i: usize = 0;
    while i < values.len()
        invariant
            values_wf(values@),
            vs == values_view(values@),
            i <= values@.len(),
            rows@.len() == i,
            forall|j: int| 0 <= j < i ==> (#[trigger] vs[j]) is Frame && vs[j]->Frame_0.height == 1,
            forall|j: int| 0 <= j < i ==> (#[trigger] rows@[j])@ == vs[j]->Frame_0.rows[0],
        decreases values@.len() - i,
    {
        assert(vs[i as int] == values@[i as int]@);
        match &values[i] {
            Value::Frame(frame) => {
                if frame.height == 1 {
                    proof {
                        assert(values@[i as int].wf());
                        frame.lemma_row(0);
                    }
                    rows.push(copy_row(&frame.pixels[0]));
                } else {
                    return Err(
                        GizmoError::TypeError(
                            String::from_str("Cannot combine multi-row frames in array"),
                        ),
                    );
                }
            },
            _ => {
                return Err(
                    GizmoError::TypeError(String::from_str("Mixed array types in frame definition")),
                );
            },
        }
        i = i + 1;
    }
    if rows.len() == 0 {
        return Err(GizmoError::TypeError(String::from_str("Cannot create frame from empty array")));
    }
    assert(crate::frame::rows_view(rows@) =~= first_rows(vs));
    match Frame::from_array(rows) {
        Ok(f) => {
            proof {
                assert(f@.rows[0].len() == f@.width);
            }
            Ok(Value::Frame(f))
        },
        Err(e) => Err(e),
    }
}

/// What an array literal is, given the values of its elements: a frame
/// sequence when every element is a frame (and when there are none); a frame
/// of one row when every element is a number, each pixel on where the number
/// is not zero; in every other case a type error.
pub open spec fn array_outcome(vs: Seq<ValueView>, r: Result<Value, GizmoError>) -> bool {
    if all_frames(vs) {
        r is Ok && r->Ok_0@ == ValueView::Frames(frames_of(vs))
    } else if all_numbers(vs) {
        r is Ok && r->Ok_0@ == ValueView::Frame(
            FrameView { width: vs.len() as int, height: 1, rows: seq![pixels_of(vs)] },
        )
    } else {
        r is Err && r->Err_0.kind() == ErrorKind::Type
    }
}

/// Whether every value of the list is a frame.
fn only_frames(values: &Vec<Value>) -> (b: bool)
    ensures
        b == all_frames(values_view(values@)),
{
    let ghost vs = values_view(values@);
    let mut i: usize = 0;
    while i < values.len()
        invariant
            vs == values_view(values@),
            i <= values@.len(),
            forall|j: int| 0 <= j < i ==> (#[trigger] vs[j]) is Frame,
        decreases values@.len() - i,
    {
        assert(vs[i as int] == values@[i as int]@);
        match &values[i] {
            Value::Frame(_) => {},
            _ => {
                return false;
            },
        }
        i = i + 1;
    }
    true
}

/// Whether every value of the list is a number.
fn only_numbers(values: &Vec<Value>) -> (b: bool)
    ensures
        b == all_numbers(values_view(values@)),
{
    let ghost vs = values_view(values@);
    let mut i: usize = 0;
    while i < values.len()
        invariant
            vs == values_view(values@),
            i <= values@.len(),
            forall|j: int| 0 <= j < i ==> (#[trigger] vs[j]) is Number,
        decreases values@.len() - i,
    {
        assert(vs[i as int] == values@[i as int]@);
        match &values[i] {
            Value::Number(_) => {},
            _ => {
                return false;
            },
        }
        i = i + 1;
    }
    true
}

/// The value of an array literal whose elements have the given values.
pub fn array_value(values: &Vec<Value>) -> (r: Result<Value, GizmoError>)
    requires
        values_wf(values@),
    ensures
        array_outcome(values_view(values@), r),
        r matches Ok(v) ==> v.wf(),
{
    let ghost vs = values_view(values@);
    if only_frames(values) {
        let mut frames: Vec<Frame> = Vec::new();
        let mut i: usize = 0;
        while i < values.len()
            invariant
                values_wf(values@),
                vs == values_view(values@),
                all_frames(vs),
                i <= values@.len(),
                frames@.len() == i,
                forall|j: int| 0 <= j < i ==> (#[trigger] frames@[j])@ == vs[j]->Frame_0,
                forall|j: int| 0 <= j < i ==> (#[trigger] frames@[j])@.wf(),
            decreases values@.len() - i,
        {
            assert(vs[i as int] == values@[i as int]@);
            assert(values@[i as int].wf());
            match &values[i] {
                Value::Frame(f) => {
                    frames.push(f.duplicate());
                },
                _ => {},
            }
            i = i + 1;
        }
        assert(frames_view(frames@) =~= frames_of(vs));
        Ok(Value::Frames(frames))
    } else if only_numbers(values) {
        let mut row: Vec<bool> = Vec::new();
        let mut i: usize = 0;
        while i < values.len()
            invariant
                vs == values_view(values@),
                all_numbers(vs),
                i <= values@.len(),
                row@.len() == i,
                forall|j: int| 0 <= j < i ==> (#[trigger] row@[j]) == !vs[j]->Number_0.is_zero(),
            decreases values@.len() - i,
        {
            assert(vs[i as int] == values@[i as int]@);
            match &values[i] {
                Value::Number(n) => {
                    row.push(!n.zero());
                },
                _ => {},
            }
            i = i + 1;
        }
        assert(row@ =~= pixels_of(vs));
        let width = row.len();
        let mut rows: Vec<Vec<bool>> = Vec::new();
        rows.push(row);
        let f = Frame { width, height: 1, pixels: rows };
        assert(f@.rows =~= seq![pixels_of(vs)]);
        Ok(Value::Frame(f))
    } else {
        let r = try_create_2d_frame(values);
        proof {
            if all_single_rows(vs) {
                assert forall|i: int| 0 <= i < vs.len() implies (#[trigger] vs[i]) is Frame by {}
            }
        }
        r
    }
}

} // verus!

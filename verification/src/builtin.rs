//! The registry of builtin functions: mathematics, frame operations and
//! frame-sequence assembly.
//!
//! Every builtin checks the number and the kinds of its arguments before it
//! computes. The animation controls listed here only validate their
//! arguments: what they do to an interpreter is the interpreter's business.

use vstd::prelude::*;
use vstd::string::StringExecFns;
use crate::error::{ErrorKind, GizmoError};
use crate::frame::{Frame, FrameView};
use crate::number::{ArithmeticOp, MathFunction, Number, NumberEngine};
use crate::text::{decimal, decimal_text, same_text};
use crate::value::{duplicate_frames, frames_view, frames_wf, Value, ValueView};

verus! {

/// The builtin functions.
#[derive(Clone, Copy, Debug, PartialEq, Eq, Structural)]
pub enum Builtin {
    Sin,
    Cos,
    Tan,
    Sqrt,
    Floor,
    Ceil,
    Abs,
    Random,
    Atan2,
    CountNeighbors,
    GetPixel,
    SetPixel,
    Flip,
    Rotate,
    PlaceSprite,
    CreateFrame,
    AddFrame,
    LastFrame,
    EvolveFrom,
    Play,
    Loop,
    PlaySpeed,
    LoopSpeed,
    Stop,
}

/// The side of the square canvas on which `place_sprite` lays a sprite.
pub const CANVAS_SIZE: usize = 128;

impl Builtin {
    /// The builtin that a name stands for.
    pub open spec fn named(name: Seq<char>) -> Option<Builtin> {
        if name == "sin"@ {
            Some(Builtin::Sin)
        } else if name == "cos"@ {
            Some(Builtin::Cos)
        } else if name == "tan"@ {
            Some(Builtin::Tan)
        } else if name == "sqrt"@ {
            Some(Builtin::Sqrt)
        } else if name == "floor"@ {
            Some(Builtin::Floor)
        } else if name == "ceil"@ {
            Some(Builtin::Ceil)
        } else if name == "abs"@ {
            Some(Builtin::Abs)
        } else if name == "random"@ {
            Some(Builtin::Random)
        } else if name == "atan2"@ {
            Some(Builtin::Atan2)
        } else if name == "count_neighbors"@ {
            Some(Builtin::CountNeighbors)
        } else if name == "get_pixel"@ {
            Some(Builtin::GetPixel)
        } else if name == "set_pixel"@ {
            Some(Builtin::SetPixel)
        } else if name == "flip"@ {
            Some(Builtin::Flip)
        } else if name == "rotate"@ {
            Some(Builtin::Rotate)
        } else if name == "place_sprite"@ {
            Some(Builtin::PlaceSprite)
        } else if name == "create_frame"@ {
            Some(Builtin::CreateFrame)
        } else if name == "add_frame"@ {
            Some(Builtin::AddFrame)
        } else if name == "last_frame"@ {
            Some(Builtin::LastFrame)
        } else if name == "evolve_from"@ {
            Some(Builtin::EvolveFrom)
        } else if name == "play"@ {
            Some(Builtin::Play)
        } else if name == "loop"@ {
            Some(Builtin::Loop)
        } else if name == "play_speed"@ {
            Some(Builtin::PlaySpeed)
        } else if name == "loop_speed"@ {
            Some(Builtin::LoopSpeed)
        } else if name == "stop"@ {
            Some(Builtin::Stop)
        } else {
            None
        }
    }

    /// The name under which the builtin is called.
    pub open spec fn name(self) -> Seq<char> {
        match self {
            Builtin::Sin => "sin"@,
            Builtin::Cos => "cos"@,
            Builtin::Tan => "tan"@,
            Builtin::Sqrt => "sqrt"@,
            Builtin::Floor => "floor"@,
            Builtin::Ceil => "ceil"@,
            Builtin::Abs => "abs"@,
            Builtin::Random => "random"@,
            Builtin::Atan2 => "atan2"@,
            Builtin::CountNeighbors => "count_neighbors"@,
            Builtin::GetPixel => "get_pixel"@,
            Builtin::SetPixel => "set_pixel"@,
            Builtin::Flip => "flip"@,
            Builtin::Rotate => "rotate"@,
            Builtin::PlaceSprite => "place_sprite"@,
            Builtin::CreateFrame => "create_frame"@,
            Builtin::AddFrame => "add_frame"@,
            Builtin::LastFrame => "last_frame"@,
            Builtin::EvolveFrom => "evolve_from"@,
            Builtin::Play => "play"@,
            Builtin::Loop => "loop"@,
            Builtin::PlaySpeed => "play_speed"@,
            Builtin::LoopSpeed => "loop_speed"@,
            Builtin::Stop => "stop"@,
        }
    }

    /// How many arguments the builtin takes; `stop` takes any number.
    pub open spec fn arity(self) -> Option<nat> {
        match self {
            Builtin::Random => Some(0),
            Builtin::Sin | Builtin::Cos | Builtin::Tan | Builtin::Sqrt | Builtin::Floor
            | Builtin::Ceil | Builtin::Abs | Builtin::Flip | Builtin::Rotate | Builtin::LastFrame
            | Builtin::Play | Builtin::Loop => Some(1),
            Builtin::Atan2 | Builtin::CreateFrame | Builtin::AddFrame | Builtin::EvolveFrom
            | Builtin::PlaySpeed | Builtin::LoopSpeed => Some(2),
            Builtin::CountNeighbors | Builtin::GetPixel | Builtin::PlaceSprite => Some(3),
            Builtin::SetPixel => Some(4),
            Builtin::Stop => None,
        }
    }

    /// Whether the builtin accepts `n` arguments.
    pub open spec fn accepts(self, n: nat) -> bool {
        self.arity() matches Some(k) ==> k == n
    }

    /// The name under which the builtin is called.
    pub fn name_text(self) -> (s: &'static str)
        ensures
            s@ == self.name(),
    {
        match self {
            Builtin::Sin => "sin",
            Builtin::Cos => "cos",
            Builtin::Tan => "tan",
            Builtin::Sqrt => "sqrt",
            Builtin::Floor => "floor",
            Builtin::Ceil => "ceil",
            Builtin::Abs => "abs",
            Builtin::Random => "random",
            Builtin::Atan2 => "atan2",
            Builtin::CountNeighbors => "count_neighbors",
            Builtin::GetPixel => "get_pixel",
            Builtin::SetPixel => "set_pixel",
            Builtin::Flip => "flip",
            Builtin::Rotate => "rotate",
            Builtin::PlaceSprite => "place_sprite",
            Builtin::CreateFrame => "create_frame",
            Builtin::AddFrame => "add_frame",
            Builtin::LastFrame => "last_frame",
            Builtin::EvolveFrom => "evolve_from",
            Builtin::Play => "play",
            Builtin::Loop => "loop",
            Builtin::PlaySpeed => "play_speed",
            Builtin::LoopSpeed => "loop_speed",
            Builtin::Stop => "stop",
        }
    }

    /// How many arguments the builtin takes, if that is fixed.
    pub fn arity_of(self) -> (n: Option<usize>)
        ensures
            n is Some <==> self.arity() is Some,
            n matches Some(k) ==> self.arity() == Some(k as nat),
    {
        match self {
            Builtin::Random => Some(0),
            Builtin::Sin | Builtin::Cos | Builtin::Tan | Builtin::Sqrt | Builtin::Floor
            | Builtin::Ceil | Builtin::Abs | Builtin::Flip | Builtin::Rotate | Builtin::LastFrame
            | Builtin::Play | Builtin::Loop => Some(1),
            Builtin::Atan2 | Builtin::CreateFrame | Builtin::AddFrame | Builtin::EvolveFrom
            | Builtin::PlaySpeed | Builtin::LoopSpeed => Some(2),
            Builtin::CountNeighbors | Builtin::GetPixel | Builtin::PlaceSprite => Some(3),
            Builtin::SetPixel => Some(4),
            Builtin::Stop => None,
        }
    }
}

/// What a builtin reports when called with the wrong number of arguments.
pub open spec fn arity_message(b: Builtin, got: nat) -> Seq<char> {
    b.name() + " expects "@ + decimal(b.arity()->0) + (if b.arity() == Some(1nat) {
        " argument, got "@
    } else {
        " arguments, got "@
    }) + decimal(got)
}

/// Whether every value of the list is well formed.
pub open spec fn values_wf(vs: Seq<Value>) -> bool {
    forall|i: int| 0 <= i < vs.len() ==> (#[trigger] vs[i]).wf()
}

/// Whether `r` is a success with a value whose view is `v`.
pub open spec fn gives(r: Result<Value, GizmoError>, v: ValueView) -> bool {
    r is Ok && r->Ok_0@ == v
}

/// Whether `r` is a failure of kind `kind`.
pub open spec fn fails(r: Result<Value, GizmoError>, kind: ErrorKind) -> bool {
    r is Err && r->Err_0.kind() == kind
}

/// What a function of one number gives: a type error for an argument that
/// is no number, else what `engine` answers for `function` at the argument.
pub open spec fn function_outcome<E: NumberEngine>(
    engine: E,
    function: MathFunction,
    arg: ValueView,
    r: Result<Value, GizmoError>,
) -> bool {
    match arg.as_number(engine) {
        Some(x) => gives(r, ValueView::Number(engine.function_result(function, x))),
        None => fails(r, ErrorKind::Type),
    }
}

/// The position in frame `f` that two values name as row and column, if
/// they do: both coerce to numbers that name positions inside the frame.
pub open spec fn place_in<E: NumberEngine>(engine: E, f: FrameView, row: ValueView, col: ValueView) -> Option<
    (int, int),
> {
    match (row.as_number(engine), col.as_number(engine)) {
        (Some(rn), Some(cn)) => if rn.is_position() && cn.is_position() && f.in_bounds(
            rn.as_index() as int,
            cn.as_index() as int,
        ) {
            Some((rn.as_index() as int, cn.as_index() as int))
        } else {
            None
        },
        _ => None,
    }
}

/// The kind of failure where two values name no position in a frame: a type
/// error where one of them is no number, else an index error.
pub open spec fn misplaced<E: NumberEngine>(engine: E, row: ValueView, col: ValueView) -> ErrorKind {
    if row.as_number(engine) is Some && col.as_number(engine) is Some {
        ErrorKind::Index
    } else {
        ErrorKind::Type
    }
}

/// What holds of the result of calling builtin `b` on `args`, with `engine`
/// for the arithmetic. But for `random`, this fixes the result; `random`
/// gives a number of the half-open interval from 0 to 1.
pub open spec fn outcome<E: NumberEngine>(
    engine: E,
    b: Builtin,
    args: Seq<ValueView>,
    r: Result<Value, GizmoError>,
) -> bool {
    &&& r matches Ok(v) ==> v.wf()
    &&& !b.accepts(args.len()) ==> r is Err && r->Err_0.kind() == ErrorKind::Argument
        && r->Err_0.detail() == arity_message(b, args.len())
    &&& b.accepts(args.len()) ==> match b {
        Builtin::Sin => function_outcome(engine, MathFunction::Sin, args[0], r),
        Builtin::Cos => function_outcome(engine, MathFunction::Cos, args[0], r),
        Builtin::Tan => function_outcome(engine, MathFunction::Tan, args[0], r),
        Builtin::Floor => function_outcome(engine, MathFunction::Floor, args[0], r),
        Builtin::Ceil => function_outcome(engine, MathFunction::Ceil, args[0], r),
        Builtin::Sqrt => match args[0].as_number(engine) {
            Some(x) => if x.less(Number { bits: 0 }) {
                fails(r, ErrorKind::Runtime) && r->Err_0.detail() == "sqrt of negative number"@
            } else {
                gives(r, ValueView::Number(engine.function_result(MathFunction::Sqrt, x)))
            },
            None => fails(r, ErrorKind::Type),
        },
        Builtin::Abs => match args[0].as_number(engine) {
            Some(x) => gives(r, ValueView::Number(x.positive())),
            None => fails(r, ErrorKind::Type),
        },
        Builtin::Random => r is Ok && r->Ok_0 is Number && r->Ok_0->Number_0.in_unit_interval(),
        Builtin::Atan2 => match (args[0].as_number(engine), args[1].as_number(engine)) {
            (Some(y), Some(x)) => gives(
                r,
                ValueView::Number(engine.arithmetic_result(ArithmeticOp::Atan2, y, x)),
            ),
            _ => fails(r, ErrorKind::Type),
        },
        Builtin::CountNeighbors => match args[0] {
            ValueView::Frame(f) => match place_in(engine, f, args[1], args[2]) {
                Some((row, col)) => gives(
                    r,
                    ValueView::Number(Number::of_integer(f.neighbors(row, col) as nat)),
                ),
                None => fails(r, misplaced(engine, args[1], args[2])),
            },
            _ => fails(r, ErrorKind::Type),
        },
        Builtin::GetPixel => match args[0] {
            ValueView::Frame(f) => match place_in(engine, f, args[1], args[2]) {
                Some((row, col)) => gives(r, ValueView::Number(Number::of_bool(f.rows[row][col]))),
                None => fails(r, misplaced(engine, args[1], args[2])),
            },
            _ => fails(r, ErrorKind::Type),
        },
        Builtin::SetPixel => match args[0] {
            ValueView::Frame(f) => match place_in(engine, f, args[1], args[2]) {
                Some((row, col)) => gives(
                    r,
                    ValueView::Frame(f.with_pixel(row, col, args[3].truthy())),
                ),
                None => fails(r, misplaced(engine, args[1], args[2])),
            },
            _ => fails(r, ErrorKind::Type),
        },
        Builtin::Flip => match args[0] {
            ValueView::Frame(f) => gives(r, ValueView::Frame(f.flipped())),
            _ => fails(r, ErrorKind::Type),
        },
        Builtin::Rotate => match args[0] {
            ValueView::Frame(f) => gives(r, ValueView::Frame(f.rotated())),
            _ => fails(r, ErrorKind::Type),
        },
        Builtin::PlaceSprite => match args[0] {
            ValueView::Frame(f) => match (args[1].as_number(engine), args[2].as_number(engine)) {
                (Some(x), Some(y)) => gives(
                    r,
                    ValueView::Frame(
                        FrameView::blank(CANVAS_SIZE as int, CANVAS_SIZE as int).with_sprite(
                            f,
                            x.as_i32() as int,
                            y.as_i32() as int,
                        ),
                    ),
                ),
                _ => fails(r, ErrorKind::Type),
            },
            _ => fails(r, ErrorKind::Type),
        },
        Builtin::CreateFrame => match (args[0].as_number(engine), args[1].as_number(engine)) {
            (Some(w), Some(h)) => gives(
                r,
                ValueView::Frame(FrameView::blank(w.as_index() as int, h.as_index() as int)),
            ),
            _ => fails(r, ErrorKind::Type),
        },
        Builtin::AddFrame => match (args[0], args[1]) {
            (ValueView::Frames(fs), ValueView::Frame(f)) => gives(r, ValueView::Frames(fs.push(f))),
            _ => fails(r, ErrorKind::Type),
        },
        Builtin::LastFrame => match args[0] {
            ValueView::Frames(fs) => if fs.len() > 0 {
                gives(r, ValueView::Frame(fs.last()))
            } else {
                fails(r, ErrorKind::Runtime)
            },
            _ => fails(r, ErrorKind::Type),
        },
        Builtin::EvolveFrom => match args[0] {
            ValueView::Frame(f) => gives(r, args[0]),
            _ => fails(r, ErrorKind::Type),
        },
        Builtin::Play => if args[0] is Frame || args[0] is Frames {
            gives(r, ValueView::Boolean(true))
        } else {
            fails(r, ErrorKind::Type)
        },
        Builtin::Loop => if args[0] is Frames {
            gives(r, ValueView::Boolean(true))
        } else {
            fails(r, ErrorKind::Type)
        },
        Builtin::PlaySpeed => if args[0] is Frames && args[1] is Number {
            gives(r, ValueView::Boolean(true))
        } else {
            fails(r, ErrorKind::Type)
        },
        Builtin::LoopSpeed => if args[0] is Frames {
            gives(r, ValueView::Boolean(true))
        } else {
            fails(r, ErrorKind::Type)
        },
        Builtin::Stop => gives(r, ValueView::Boolean(true)),
    }
}

/// The views of a list of values.
pub open spec fn values_view(vs: Seq<Value>) -> Seq<ValueView> {
    Seq::new(vs.len(), |i: int| vs[i]@)
}

fn type_error(text: &str) -> (e: GizmoError)
    ensures
        e.kind() == ErrorKind::Type,
        e.detail() == text@,
{
    GizmoError::TypeError(String::from_str(text))
}

fn arity_error(b: Builtin, got: usize) -> (e: GizmoError)
    requires
        b.arity() is Some,
    ensures
        e.kind() == ErrorKind::Argument,
        e.detail() == arity_message(b, got as nat),
{
    let expected = b.arity_of().unwrap();
    let mut msg = String::from_str(b.name_text());
    msg.append(" expects ");
    msg.append(decimal_text(expected as u64).as_str());
    if expected == 1 {
        msg.append(" argument, got ");
    } else {
        msg.append(" arguments, got ");
    }
    msg.append(decimal_text(got as u64).as_str());
    GizmoError::ArgumentError(msg)
}

/// The position in `f` that `row` and `col` name: a type error where one of
/// them is no number, an index error where the numbers name no position
/// inside the frame.
fn place<E: NumberEngine>(engine: &E, f: &Frame, row: &Value, col: &Value) -> (r: Result<
    (usize, usize),
    GizmoError,
>)
    ensures
        match place_in(*engine, f@, row@, col@) {
            Some((i, j)) => r is Ok && r->Ok_0.0 == i && r->Ok_0.1 == j,
            None => r is Err && r->Err_0.kind() == misplaced(*engine, row@, col@),
        },
{
    let rn = row.to_number(engine)?;
    let cn = col.to_number(engine)?;
    match (rn.position(), cn.position()) {
        (Some(i), Some(j)) => {
            if i >= f.height || j >= f.width {
                let mut msg = String::from_str("Position (");
                msg.append(decimal_text(i as u64).as_str());
                msg.append(", ");
                msg.append(decimal_text(j as u64).as_str());
                msg.append(") is out of bounds");
                return Err(GizmoError::IndexError(msg));
            }
            Ok((i, j))
        },
        _ => Err(GizmoError::IndexError(String::from_str("Position is negative or not a number"))),
    }
}

/// The registry of builtin functions.
pub struct BuiltinFunctions {}

impl BuiltinFunctions {
    /// The registry with every builtin in it.
    pub fn new() -> (r: BuiltinFunctions) {
        BuiltinFunctions {  }
    }

    /// The builtin registered under `name`, if there is one.
    pub fn get(&self, name: &str) -> (r: Option<Builtin>)
        ensures
            r == Builtin::named(name@),
    {
        if same_text(name, "sin") {
            Some(Builtin::Sin)
        } else if same_text(name, "cos") {
            Some(Builtin::Cos)
        } else if same_text(name, "tan") {
            Some(Builtin::Tan)
        } else if same_text(name, "sqrt") {
            Some(Builtin::Sqrt)
        } else if same_text(name, "floor") {
            Some(Builtin::Floor)
        } else if same_text(name, "ceil") {
            Some(Builtin::Ceil)
        } else if same_text(name, "abs") {
            Some(Builtin::Abs)
        } else if same_text(name, "random") {
            Some(Builtin::Random)
        } else if same_text(name, "atan2") {
            Some(Builtin::Atan2)
        } else if same_text(name, "count_neighbors") {
            Some(Builtin::CountNeighbors)
        } else if same_text(name, "get_pixel") {
            Some(Builtin::GetPixel)
        } else if same_text(name, "set_pixel") {
            Some(Builtin::SetPixel)
        } else if same_text(name, "flip") {
            Some(Builtin::Flip)
        } else if same_text(name, "rotate") {
            Some(Builtin::Rotate)
        } else if same_text(name, "place_sprite") {
            Some(Builtin::PlaceSprite)
        } else if same_text(name, "create_frame") {
            Some(Builtin::CreateFrame)
        } else if same_text(name, "add_frame") {
            Some(Builtin::AddFrame)
        } else if same_text(name, "last_frame") {
            Some(Builtin::LastFrame)
        } else if same_text(name, "evolve_from") {
            Some(Builtin::EvolveFrom)
        } else if same_text(name, "play") {
            Some(Builtin::Play)
        } else if same_text(name, "loop") {
            Some(Builtin::Loop)
        } else if same_text(name, "play_speed") {
            Some(Builtin::PlaySpeed)
        } else if same_text(name, "loop_speed") {
            Some(Builtin::LoopSpeed)
        } else if same_text(name, "stop") {
            Some(Builtin::Stop)
        } else {
            None
        }
    }

    /// Whether a builtin is registered under `name`.
    pub fn has_function(&self, name: &str) -> (b: bool)
        ensures
            b == (Builtin::named(name@) is Some),
    {
        self.get(name).is_some()
    }

    /// Calls the builtin registered under `name` on `args`. A name that is
    /// not registered is an undefined-function error that carries the name.
    pub fn call<E: NumberEngine>(&self, engine: &E, name: &str, args: &Vec<Value>) -> (r: Result<
        Value,
        GizmoError,
    >)
        requires
            values_wf(args@),
        ensures
            Builtin::named(name@) is None ==> r is Err && r->Err_0.kind()
                == ErrorKind::UndefinedFunction && r->Err_0.detail() == name@,
            Builtin::named(name@) matches Some(b) ==> outcome(*engine, b, values_view(args@), r),
    {
        match self.get(name) {
            Some(b) => invoke(engine, b, args),
            None => Err(GizmoError::UndefinedFunction(String::from_str(name))),
        }
    }
}

/// Calls builtin `b` on `args`.
pub fn invoke<E: NumberEngine>(engine: &E, b: Builtin, args: &Vec<Value>) -> (r: Result<
    Value,
    GizmoError,
>)
    requires
        values_wf(args@),
    ensures
        outcome(*engine, b, values_view(args@), r),
{
    let ghost views = values_view(args@);
    match b.arity_of() {
        Some(k) => {
            if args.len() != k {
                return Err(arity_error(b, args.len()));
            }
        },
        None => {},
    }
    proof {
        assert forall|i: int| 0 <= i < args@.len() implies views[i] == (#[trigger] args@[i])@ by {}
    }
    match b {
        Builtin::Sin => {
            let x = args[0].to_number(engine)?;
            Ok(Value::Number(engine.function(MathFunction::Sin, x)))
        },
        Builtin::Cos => {
            let x = args[0].to_number(engine)?;
            Ok(Value::Number(engine.function(MathFunction::Cos, x)))
        },
        Builtin::Tan => {
            let x = args[0].to_number(engine)?;
            Ok(Value::Number(engine.function(MathFunction::Tan, x)))
        },
        Builtin::Floor => {
            let x = args[0].to_number(engine)?;
            Ok(Value::Number(engine.function(MathFunction::Floor, x)))
        },
        Builtin::Ceil => {
            let x = args[0].to_number(engine)?;
            Ok(Value::Number(engine.function(MathFunction::Ceil, x)))
        },
        Builtin::Sqrt => {
            let x = args[0].to_number(engine)?;
            if x.less_than(Number { bits: 0 }) {
                return Err(GizmoError::RuntimeError(String::from_str("sqrt of negative number")));
            }
            Ok(Value::Number(engine.function(MathFunction::Sqrt, x)))
        },
        Builtin::Abs => {
            let x = args[0].to_number(engine)?;
            Ok(Value::Number(x.absolute()))
        },
        Builtin::Random => {
            // What the engine drew counts only where it lies in the interval.
            let x = engine.random();
            if x.within_unit() {
                Ok(Value::Number(x))
            } else {
                Ok(Value::Number(Number { bits: 0 }))
            }
        },
        Builtin::Atan2 => {
            let y = args[0].to_number(engine)?;
            let x = args[1].to_number(engine)?;
            Ok(Value::Number(engine.arithmetic(ArithmeticOp::Atan2, y, x)))
        },
        Builtin::CountNeighbors => {
            match &args[0] {
                Value::Frame(f) => {
                    let (row, col) = place(engine, f, &args[1], &args[2])?;
                    let count = f.count_neighbors(row, col);
                    Ok(Value::Number(Number::from_integer(count as u64)))
                },
                _ => Err(type_error("count_neighbors first argument must be a frame")),
            }
        },
        Builtin::GetPixel => {
            match &args[0] {
                Value::Frame(f) => {
                    let (row, col) = place(engine, f, &args[1], &args[2])?;
                    let pixel = f.get_pixel(row, col)?;
                    Ok(Value::Number(Number::from_bool(pixel)))
                },
                _ => Err(type_error("get_pixel first argument must be a frame")),
            }
        },
        Builtin::SetPixel => {
            match &args[0] {
                Value::Frame(f) => {
                    let (row, col) = place(engine, f, &args[1], &args[2])?;
                    let mut copy = f.duplicate();
                    copy.set_pixel(row, col, args[3].is_truthy())?;
                    Ok(Value::Frame(copy))
                },
                _ => Err(type_error("set_pixel first argument must be a frame")),
            }
        },
        Builtin::Flip => {
            match &args[0] {
                Value::Frame(f) => {
                    let mut copy = f.duplicate();
                    copy.flip();
                    Ok(Value::Frame(copy))
                },
                _ => Err(type_error("flip argument must be a frame")),
            }
        },
        Builtin::Rotate => {
            match &args[0] {
                Value::Frame(f) => Ok(Value::Frame(f.rotate_90())),
                _ => Err(type_error("rotate argument must be a frame")),
            }
        },
        Builtin::PlaceSprite => {
            match &args[0] {
                Value::Frame(sprite) => {
                    let x = args[1].to_number(engine)?.to_i32();
                    let y = args[2].to_number(engine)?.to_i32();
                    let mut canvas = Frame::new(CANVAS_SIZE, CANVAS_SIZE);
                    canvas.place_sprite(sprite, x, y);
                    Ok(Value::Frame(canvas))
                },
                _ => Err(type_error("place_sprite first argument must be a frame (sprite)")),
            }
        },
        Builtin::CreateFrame => {
            let width = args[0].to_number(engine)?.to_index();
            let height = args[1].to_number(engine)?.to_index();
            Ok(Value::Frame(Frame::new(width, height)))
        },
        Builtin::AddFrame => {
            match (&args[0], &args[1]) {
                (Value::Frames(fs), Value::Frame(f)) => {
                    let mut frames = duplicate_frames(fs);
                    let copy = f.duplicate();
                    frames.push(copy);
                    proof {
                        assert(frames_view(frames@) =~= frames_view(fs@).push(f@));
                        assert(frames_wf(frames_view(fs@)));
                        assert forall|i: int| 0 <= i < frames@.len() implies (#[trigger] frames_view(
                            frames@,
                        )[i]).wf() by {
                            if i < fs@.len() {
                                assert(frames_view(frames@)[i] == frames_view(fs@)[i]);
                            }
                        }
                    }
                    Ok(Value::Frames(frames))
                },
                (Value::Frames(_), _) => Err(type_error("add_frame second argument must be a frame")),
                _ => Err(type_error("add_frame first argument must be a frames array")),
            }
        },
        Builtin::LastFrame => {
            match &args[0] {
                Value::Frames(fs) => {
                    if fs.len() == 0 {
                        return Err(
                            GizmoError::RuntimeError(
                                String::from_str("Cannot get last frame from empty array"),
                            ),
                        );
                    }
                    proof {
                        assert(frames_view(fs@).last() == fs@[fs@.len() - 1]@);
                        assert(frames_view(fs@)[fs@.len() - 1].wf());
                    }
                    Ok(Value::Frame(fs[fs.len() - 1].duplicate()))
                },
                _ => Err(type_error("last_frame argument must be a frames array")),
            }
        },
        Builtin::EvolveFrom => {
            match &args[0] {
                Value::Frame(f) => Ok(Value::Frame(f.duplicate())),
                _ => Err(type_error("evolve_from first argument must be a frame")),
            }
        },
        Builtin::Play => {
            match &args[0] {
                Value::Frames(_) => Ok(Value::Boolean(true)),
                Value::Frame(_) => Ok(Value::Boolean(true)),
                _ => Err(type_error("play argument must be a frame or frames array")),
            }
        },
        Builtin::Loop => {
            match &args[0] {
                Value::Frames(_) => Ok(Value::Boolean(true)),
                _ => Err(type_error("loop argument must be a frames array")),
            }
        },
        Builtin::PlaySpeed => {
            match (&args[0], &args[1]) {
                (Value::Frames(_), Value::Number(_)) => Ok(Value::Boolean(true)),
                _ => Err(type_error("play_speed expects frames array and number")),
            }
        },
        Builtin::LoopSpeed => {
            match &args[0] {
                Value::Frames(_) => Ok(Value::Boolean(true)),
                _ => Err(type_error("loop_speed first argument must be frames array")),
            }
        },
        Builtin::Stop => Ok(Value::Boolean(true)),
    }
}

} // verus!

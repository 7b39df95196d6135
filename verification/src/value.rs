//! Runtime values and the coercions between them.

use vstd::prelude::*;
use vstd::string::StringExecFns;
use crate::error::{ErrorKind, GizmoError};
use crate::frame::{Frame, FrameView};
use crate::number::{Number, NumberEngine};
use crate::text::decimal_text;

verus! {

/// A value that an expression can evaluate to.
#[derive(Debug, Clone, PartialEq)]
pub enum Value {
    Number(Number),
    String(String),
    Boolean(bool),
    Frame(Frame),
    Frames(Vec<Frame>),
}

/// The mathematical value of a `Value`.
pub enum ValueView {
    Number(Number),
    String(Seq<char>),
    Boolean(bool),
    Frame(FrameView),
    Frames(Seq<FrameView>),
}

/// The views of a list of frames.
pub open spec fn frames_view(fs: Seq<Frame>) -> Seq<FrameView> {
    Seq::new(fs.len(), |i: int| fs[i]@)
}

/// Whether every frame of the list is well formed.
pub open spec fn frames_wf(fs: Seq<FrameView>) -> bool {
    forall|i: int| 0 <= i < fs.len() ==> (#[trigger] fs[i]).wf()
}

impl ValueView {
    /// Every frame inside the value is well formed.
    pub open spec fn wf(self) -> bool {
        match self {
            ValueView::Frame(f) => f.wf(),
            ValueView::Frames(fs) => frames_wf(fs),
            _ => true,
        }
    }

    /// The name of the value's variant.
    pub open spec fn variant_name(self) -> Seq<char> {
        match self {
            ValueView::Number(_) => "number"@,
            ValueView::String(_) => "string"@,
            ValueView::Boolean(_) => "boolean"@,
            ValueView::Frame(_) => "frame"@,
            ValueView::Frames(_) => "frames"@,
        }
    }

    /// Whether the value counts as true: a boolean as it is, a number unless
    /// it is zero, a string unless it is empty, a frame always, a frame
    /// sequence unless it is empty.
    pub open spec fn truthy(self) -> bool {
        match self {
            ValueView::Boolean(b) => b,
            ValueView::Number(n) => !n.is_zero(),
            ValueView::String(s) => s.len() > 0,
            ValueView::Frame(_) => true,
            ValueView::Frames(fs) => fs.len() > 0,
        }
    }

    /// The number that the value coerces to, if it does: a number is itself,
    /// a boolean is 1 or 0, and a string is the number that `engine` reads in
    /// it. A frame or a frame sequence is no number.
    pub open spec fn as_number<E: NumberEngine>(self, engine: E) -> Option<Number> {
        match self {
            ValueView::Number(n) => Some(n),
            ValueView::Boolean(b) => Some(Number::of_bool(b)),
            ValueView::String(s) => engine.parsed(s),
            _ => None,
        }
    }

    /// What the value shows as: a number as `engine` writes it.
    pub open spec fn shown<E: NumberEngine>(self, engine: E) -> Seq<char> {
        match self {
            ValueView::Number(n) => engine.shown(n),
            ValueView::String(s) => s,
            ValueView::Boolean(b) => if b {
                "true"@
            } else {
                "false"@
            },
            ValueView::Frame(f) => "Frame("@ + crate::text::decimal(f.width as nat) + "x"@
                + crate::text::decimal(f.height as nat) + ")"@,
            ValueView::Frames(fs) => "Frames("@ + crate::text::decimal(fs.len()) + ")"@,
        }
    }
}

impl View for Value {
    type V = ValueView;

    open spec fn view(&self) -> ValueView {
        match self {
            Value::Number(n) => ValueView::Number(*n),
            Value::String(s) => ValueView::String(s@),
            Value::Boolean(b) => ValueView::Boolean(*b),
            Value::Frame(f) => ValueView::Frame(f@),
            Value::Frames(fs) => ValueView::Frames(frames_view(fs@)),
        }
    }
}

/// What `to_number` reports for a value that is no number.
pub open spec fn not_a_number_message(v: ValueView) -> Seq<char> {
    match v {
        ValueView::String(s) => "Cannot convert string '"@ + s + "' to number"@,
        _ => "Cannot convert "@ + v.variant_name() + " to number"@,
    }
}

/// An independent copy of a list of frames.
pub fn duplicate_frames(fs: &Vec<Frame>) -> (r: Vec<Frame>)
    ensures
        frames_view(r@) == frames_view(fs@),
{
    let mut out: Vec<Frame> = Vec::new();
    let mut i: usize = 0;
    while i < fs.len()
        invariant
            i <= fs@.len(),
            out@.len() == i,
            forall|j: int| 0 <= j < i ==> (#[trigger] out@[j])@ == fs@[j]@,
        decreases fs@.len() - i,
    {
        out.push(fs[i].duplicate());
        i = i + 1;
    }
    assert(frames_view(out@) =~= frames_view(fs@));
    out
}

/// Whether two lists hold the same frames in the same order.
pub fn same_frames(a: &Vec<Frame>, b: &Vec<Frame>) -> (r: bool)
    ensures
        r == (frames_view(a@) == frames_view(b@)),
{
    if a.len() != b.len() {
        assert(frames_view(a@).len() != frames_view(b@).len());
        return false;
    }
    let mut i: usize = 0;
    while i < a.len()
        invariant
            i <= a@.len(),
            a@.len() == b@.len(),
            forall|j: int| 0 <= j < i ==> (#[trigger] a@[j])@ == b@[j]@,
        decreases a@.len() - i,
    {
        if !a[i].same_as(&b[i]) {
            assert(frames_view(a@)[i as int] == a@[i as int]@);
            assert(frames_view(b@)[i as int] == b@[i as int]@);
            return false;
        }
        i = i + 1;
    }
    assert(frames_view(a@) =~= frames_view(b@));
    true
}

impl Value {
    /// Every frame inside the value is well formed.
    pub open spec fn wf(&self) -> bool {
        self@.wf()
    }

    /// The name of the value's variant.
    pub fn variant_name(&self) -> (s: &'static str)
        ensures
            s@ == self@.variant_name(),
    {
        match self {
            Value::Number(_) => "number",
            Value::String(_) => "string",
            Value::Boolean(_) => "boolean",
            Value::Frame(_) => "frame",
            Value::Frames(_) => "frames",
        }
    }

    /// Whether the value counts as true.
    pub fn is_truthy(&self) -> (b: bool)
        ensures
            b == self@.truthy(),
    {
        match self {
            Value::Boolean(b) => *b,
            Value::Number(n) => !n.zero(),
            Value::String(s) => !s.as_str().is_empty(),
            Value::Frame(_) => true,
            Value::Frames(fs) => {
                assert(frames_view(fs@).len() == fs@.len());
                fs.len() > 0
            },
        }
    }

    /// The value as a number. A number is itself, a boolean is 1 or 0; a
    /// string is the number that `engine` reads in it, and a type error where
    /// the engine reads none. A frame or a frame sequence is a type error.
    pub fn to_number<E: NumberEngine>(&self, engine: &E) -> (r: Result<Number, GizmoError>)
        ensures
            match self@.as_number(*engine) {
                Some(n) => r == Ok::<Number, GizmoError>(n),
                None => r is Err && r->Err_0.kind() == ErrorKind::Type && r->Err_0.detail()
                    == not_a_number_message(self@),
            },
    {
        match self {
            Value::Number(n) => Ok(*n),
            Value::Boolean(b) => Ok(Number::from_bool(*b)),
            Value::String(s) => {
                match engine.parse(s.as_str()) {
                    Some(n) => Ok(n),
                    None => {
                        let mut msg = String::from_str("Cannot convert string '");
                        msg.append(s.as_str());
                        msg.append("' to number");
                        Err(GizmoError::TypeError(msg))
                    },
                }
            },
            _ => {
                let mut msg = String::from_str("Cannot convert ");
                msg.append(self.variant_name());
                msg.append(" to number");
                Err(GizmoError::TypeError(msg))
            },
        }
    }

    /// The value as text. A number is written by `engine`; a string is
    /// itself; a boolean is `true` or `false`; a frame shows its size and a
    /// frame sequence its length.
    pub fn to_string<E: NumberEngine>(&self, engine: &E) -> (s: String)
        ensures
            s@ == self@.shown(*engine),
    {
        match self {
            Value::Number(n) => engine.show(*n),
            Value::String(s) => s.clone(),
            Value::Boolean(b) => if *b {
                String::from_str("true")
            } else {
                String::from_str("false")
            },
            Value::Frame(f) => {
                let mut out = String::from_str("Frame(");
                out.append(decimal_text(f.width as u64).as_str());
                out.append("x");
                out.append(decimal_text(f.height as u64).as_str());
                out.append(")");
                out
            },
            Value::Frames(fs) => {
                let mut out = String::from_str("Frames(");
                out.append(decimal_text(fs.len() as u64).as_str());
                out.append(")");
                out
            },
        }
    }

    /// An independent copy of the value.
    pub fn duplicate(&self) -> (v: Value)
        ensures
            v@ == self@,
    {
        match self {
            Value::Number(n) => Value::Number(*n),
            Value::String(s) => Value::String(s.clone()),
            Value::Boolean(b) => Value::Boolean(*b),
            Value::Frame(f) => Value::Frame(f.duplicate()),
            Value::Frames(fs) => Value::Frames(duplicate_frames(fs)),
        }
    }
}

/// What `create_frame_from_value` reports for a value that holds no frame.
pub open spec fn not_a_frame_message(v: ValueView) -> Seq<char> {
    match v {
        ValueView::Frames(_) => "Cannot create frame from empty frames array"@,
        _ => "Cannot convert "@ + v.variant_name() + " to frame"@,
    }
}

/// The frame that a value stands for: a frame itself, or the first frame of
/// a sequence. An empty sequence is a runtime error, any other value a type
/// error.
pub fn create_frame_from_value(value: &Value) -> (r: Result<Frame, GizmoError>)
    ensures
        value@ matches ValueView::Frame(f) ==> r is Ok && r->Ok_0@ == f,
        value@ matches ValueView::Frames(fs) ==> (if fs.len() > 0 {
            r is Ok && r->Ok_0@ == fs[0]
        } else {
            r is Err && r->Err_0.kind() == ErrorKind::Runtime
        }),
        !(value@ is Frame || value@ is Frames) ==> r is Err && r->Err_0.kind() == ErrorKind::Type,
        r matches Err(e) ==> e.detail() == not_a_frame_message(value@),
{
    match value {
        Value::Frame(f) => Ok(f.duplicate()),
        Value::Frames(fs) => {
            if fs.len() == 0 {
                Err(
                    GizmoError::RuntimeError(
                        String::from_str("Cannot create frame from empty frames array"),
                    ),
                )
            } else {
                assert(frames_view(fs@)[0] == fs@[0]@);
                Ok(fs[0].duplicate())
            }
        },
        _ => {
            let mut msg = String::from_str("Cannot convert ");
            msg.append(value.variant_name());
            msg.append(" to frame");
            Err(GizmoError::TypeError(msg))
        },
    }
}

/// The value as a pixel state: a boolean as it is, a number unless it is
/// zero; any other value is a type error.
pub fn value_to_bool(value: &Value) -> (r: Result<bool, GizmoError>)
    ensures
        value@ matches ValueView::Boolean(b) ==> r == Ok::<bool, GizmoError>(b),
        value@ matches ValueView::Number(n) ==> r == Ok::<bool, GizmoError>(!n.is_zero()),
        !(value@ is Boolean || value@ is Number) ==> r is Err,
        r matches Err(e) ==> e.kind() == ErrorKind::Type && e.detail() == "Cannot convert "@
            + value@.variant_name() + " to boolean"@,
{
    match value {
        Value::Boolean(b) => Ok(*b),
        Value::Number(n) => Ok(!n.zero()),
        _ => {
            let mut msg = String::from_str("Cannot convert ");
            msg.append(value.variant_name());
            msg.append(" to boolean");
            Err(GizmoError::TypeError(msg))
        },
    }
}

} // verus!

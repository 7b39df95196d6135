//! The interpreter and its state.
//!
//! An interpreter owns one environment, a table of event handlers, the
//! frames it was told to show and the state of their playback. This module
//! holds the state, its mathematical view, and everything that touches the
//! state directly; running programs against it is the business of the
//! evaluator.

use vstd::prelude::*;
use vstd::string::StringExecFns;
use crate::animation::{AnimationState, FrameRenderer, frame_text};
use crate::ast::{duplicate_statements, statements_view, Statement, StatementView};
use crate::builtin::{invoke, outcome, values_view, values_wf, Builtin, BuiltinFunctions};
use crate::environment::{resolve, Environment, ScopeView};
use crate::error::{ErrorKind, GizmoError};
use crate::frame::{Frame, FrameView};
use crate::number::{Number, NumberEngine};
use crate::semantics::{bound, left_scope, pixel_scope, registered};
use crate::text::{decimal, decimal_text, same_text};
use crate::value::{duplicate_frames, frames_view, frames_wf, Value, ValueView};

verus! {

/// The shortest frame duration, in milliseconds.
pub const MIN_FRAME_DURATION_MS: u64 = 1;

/// The longest frame duration, in milliseconds.
pub const MAX_FRAME_DURATION_MS: u64 = 10000;

/// The frame duration of an interpreter that was told none.
pub const DEFAULT_FRAME_DURATION_MS: u64 = 100;

/// How the execution of a statement or a block ended.
#[derive(Debug, Clone, PartialEq)]
pub enum Flow {
    /// It ran to its end; the next statement is due.
    Normal,
    /// A `return` was reached: the enclosing blocks end at once and hand
    /// the value outward.
    Returned(Value),
}

/// The body to run when an event occurs.
pub struct Handler {
    key: String,
    body: Vec<Statement>,
}

/// The mathematical value of a playback state.
pub struct Playback {
    pub frames: Seq<FrameView>,
    pub looping: bool,
    pub duration: u64,
    pub current: int,
    pub last_change: u64,
}

/// An interpreter for programs, with `engine` for its arithmetic.
pub struct Interpreter<E: NumberEngine> {
    engine: E,
    environment: Environment,
    builtins: BuiltinFunctions,
    animation_state: Option<AnimationState>,
    current_time: u64,
    event_handlers: Vec<Handler>,
    frame_renderer: FrameRenderer,
    output_frames: Vec<Frame>,
    frame_duration_ms: u64,
}

/// A duration in milliseconds brought into the range from 1 to 10000.
pub open spec fn clamp_duration(ms: u64) -> u64 {
    if ms < MIN_FRAME_DURATION_MS {
        MIN_FRAME_DURATION_MS
    } else if ms > MAX_FRAME_DURATION_MS {
        MAX_FRAME_DURATION_MS
    } else {
        ms
    }
}

/// Brings a duration in milliseconds into the range from 1 to 10000.
pub fn clamped(ms: u64) -> (d: u64)
    ensures
        d == clamp_duration(ms),
        MIN_FRAME_DURATION_MS <= d <= MAX_FRAME_DURATION_MS,
{
    if ms < MIN_FRAME_DURATION_MS {
        MIN_FRAME_DURATION_MS
    } else if ms > MAX_FRAME_DURATION_MS {
        MAX_FRAME_DURATION_MS
    } else {
        ms
    }
}

/// The key under which the handler of idling for `ms` milliseconds is kept.
pub open spec fn idle_key(ms: u64) -> Seq<char> {
    "idle_"@ + decimal(ms as nat)
}

/// The key under which the handler of a click is kept.
pub open spec fn click_key() -> Seq<char> {
    "clicked"@
}

/// The key under which the handler of idling for `ms` milliseconds is kept.
pub fn idle_key_text(ms: u64) -> (s: String)
    ensures
        s@ == idle_key(ms),
{
    let mut key = String::from_str("idle_");
    key.append(decimal_text(ms).as_str());
    key
}

/// The position of the first handler kept under `key`, from `from` on.
pub closed spec fn first_handler(hs: Seq<Handler>, key: Seq<char>, from: int) -> Option<int>
    decreases hs.len() - from,
{
    if from < 0 || from >= hs.len() {
        None
    } else if hs[from].key@ == key {
        Some(from)
    } else {
        first_handler(hs, key, from + 1)
    }
}

/// The body kept under `key`, if there is one.
pub closed spec fn handler_body(hs: Seq<Handler>, key: Seq<char>) -> Option<Seq<StatementView>> {
    match first_handler(hs, key, 0) {
        Some(i) => Some(statements_view(hs[i].body)),
        None => None,
    }
}

/// Whether no two handlers of the list are kept under the same key.
pub closed spec fn distinct_keys(hs: Seq<Handler>) -> bool {
    forall|i: int, j: int| 0 <= i < j < hs.len() ==> (#[trigger] hs[i]).key@ != (#[trigger] hs[j]).key@
}

proof fn lemma_first_handler_bounds(hs: Seq<Handler>, key: Seq<char>, from: int)
    requires
        0 <= from,
    ensures
        first_handler(hs, key, from) matches Some(i) ==> from <= i < hs.len() && hs[i].key@ == key,
    decreases hs.len() - from,
{
    if from < hs.len() && hs[from].key@ != key {
        lemma_first_handler_bounds(hs, key, from + 1);
    }
}

proof fn lemma_first_handler_same_keys(a: Seq<Handler>, b: Seq<Handler>, key: Seq<char>, from: int)
    requires
        0 <= from,
        a.len() == b.len(),
        forall|i: int| 0 <= i < a.len() ==> (#[trigger] a[i]).key@ == b[i].key@,
    ensures
        first_handler(a, key, from) == first_handler(b, key, from),
    decreases a.len() - from,
{
    if from < a.len() {
        assert(a[from].key@ == b[from].key@);
        if a[from].key@ != key {
            lemma_first_handler_same_keys(a, b, key, from + 1);
        }
    }
}

proof fn lemma_first_handler_push(hs: Seq<Handler>, h: Handler, key: Seq<char>, from: int)
    requires
        0 <= from <= hs.len(),
    ensures
        first_handler(hs.push(h), key, from) == (match first_handler(hs, key, from) {
            Some(i) => Some(i),
            None => if h.key@ == key {
                Some(hs.len() as int)
            } else {
                None
            },
        }),
    decreases hs.len() - from,
{
    let after = hs.push(h);
    if from < hs.len() {
        assert(after[from] == hs[from]);
        if hs[from].key@ != key {
            lemma_first_handler_push(hs, h, key, from + 1);
        }
    } else {
        assert(after[from] == h);
        assert(first_handler(after, key, from + 1) is None);
    }
}

/// The frames that playing a value shows: a sequence as it is, a single
/// frame as a sequence of one.
pub open spec fn shown_frames(v: ValueView) -> Seq<FrameView> {
    match v {
        ValueView::Frames(fs) => fs,
        ValueView::Frame(f) => seq![f],
        _ => Seq::empty(),
    }
}

/// Playback of `frames` from the start.
pub open spec fn fresh_playback(frames: Seq<FrameView>, looping: bool, duration: u64) -> Playback {
    Playback { frames, looping, duration, current: 0, last_change: 0 }
}

/// The mathematical value of an interpreter.
pub struct InterpreterView {
    /// The scopes of the environment, outermost first.
    pub scopes: Seq<ScopeView>,
    /// The frames that the program asked to show.
    pub output: Seq<FrameView>,
    /// The duration of one frame, in milliseconds.
    pub duration: u64,
    /// The interpreter's clock, in milliseconds.
    pub clock: u64,
    /// The state of playback, if anything is being played.
    pub playback: Option<Playback>,
    /// The bodies registered for events, by key.
    pub handlers: Map<Seq<char>, Seq<StatementView>>,
}

/// What evaluation never changes: the number of scopes, every scope but the
/// innermost, and the clock.
pub open spec fn preserved(before: InterpreterView, after: InterpreterView) -> bool {
    &&& after.scopes.len() == before.scopes.len()
    &&& after.scopes.drop_last() == before.scopes.drop_last()
    &&& after.clock == before.clock
}

/// The state after an animation control was called with valid arguments.
///
/// `play` and `loop` show the given frames at the current frame duration;
/// `play_speed` and `loop_speed` also set the frame duration to the given
/// number of milliseconds, brought into the range from 1 to 10000; `stop`
/// ends playback and leaves the frames to show as they are.
pub open spec fn control_effect(before: InterpreterView, b: Builtin, args: Seq<ValueView>) -> InterpreterView {
    match b {
        Builtin::Play => InterpreterView {
            output: shown_frames(args[0]),
            playback: Some(fresh_playback(shown_frames(args[0]), false, before.duration)),
            ..before
        },
        Builtin::Loop => InterpreterView {
            output: shown_frames(args[0]),
            playback: Some(fresh_playback(shown_frames(args[0]), true, before.duration)),
            ..before
        },
        Builtin::PlaySpeed => {
            let d = clamp_duration(args[1]->Number_0.as_u64());
            InterpreterView {
                output: shown_frames(args[0]),
                duration: d,
                playback: Some(fresh_playback(shown_frames(args[0]), false, d)),
                ..before
            }
        },
        Builtin::LoopSpeed => {
            let d = if args[1] is Number {
                clamp_duration(args[1]->Number_0.as_u64())
            } else {
                before.duration
            };
            InterpreterView {
                output: shown_frames(args[0]),
                duration: d,
                playback: Some(fresh_playback(shown_frames(args[0]), true, d)),
                ..before
            }
        },
        Builtin::Stop => InterpreterView { playback: None, ..before },
        _ => before,
    }
}

/// Whether a builtin is an animation control.
pub open spec fn is_control(b: Builtin) -> bool {
    b == Builtin::Play || b == Builtin::Loop || b == Builtin::PlaySpeed || b == Builtin::LoopSpeed
        || b == Builtin::Stop
}

/// The state of playback after time has moved on to `now`.
pub open spec fn advanced(p: Playback, now: u64) -> Playback {
    if p.frames.len() > 0 && now - p.last_change >= p.duration {
        Playback {
            current: if p.current + 1 < p.frames.len() {
                p.current + 1
            } else if p.looping {
                0
            } else {
                p.frames.len() - 1
            },
            last_change: now,
            ..p
        }
    } else {
        p
    }
}

/// The clock after `delta_ms` more milliseconds; it stops at the largest
/// value it can hold.
pub open spec fn later(clock: u64, delta_ms: u64) -> u64 {
    if clock + delta_ms > u64::MAX {
        u64::MAX
    } else {
        (clock + delta_ms) as u64
    }
}

impl<E: NumberEngine> View for Interpreter<E> {
    type V = InterpreterView;

    closed spec fn view(&self) -> InterpreterView {
        InterpreterView {
            scopes: self.environment@,
            output: frames_view(self.output_frames@),
            duration: self.frame_duration_ms,
            clock: self.current_time,
            playback: match self.animation_state {
                Some(a) => Some(
                    Playback {
                        frames: frames_view(a.frames@),
                        looping: a.loop_animation,
                        duration: a.frame_duration,
                        current: a.current_frame as int,
                        last_change: a.last_frame_time,
                    },
                ),
                None => None,
            },
            handlers: Map::new(
                |k: Seq<char>| handler_body(self.event_handlers@, k) is Some,
                |k: Seq<char>| handler_body(self.event_handlers@, k)->0,
            ),
        }
    }
}

impl<E: NumberEngine> Interpreter<E> {
    /// The environment has a scope, every frame held anywhere is
    /// rectangular, the playback index names a frame, the frame duration
    /// lies between 1 and 10000 milliseconds, and no two handlers are kept
    /// under the same key.
    pub closed spec fn wf(&self) -> bool {
        &&& self.environment.wf()
        &&& frames_wf(frames_view(self.output_frames@))
        &&& MIN_FRAME_DURATION_MS <= self.frame_duration_ms <= MAX_FRAME_DURATION_MS
        &&& distinct_keys(self.event_handlers@)
        &&& match self.animation_state {
            Some(a) => a.wf() && frames_wf(frames_view(a.frames@)),
            None => true,
        }
    }

    /// What is known of every well-formed interpreter.
    pub proof fn lemma_wf(&self)
        requires
            self.wf(),
        ensures
            self@.scopes.len() > 0,
            MIN_FRAME_DURATION_MS <= self@.duration <= MAX_FRAME_DURATION_MS,
            frames_wf(self@.output),
            self@.playback matches Some(p) ==> frames_wf(p.frames) && (p.frames.len() == 0 || 0
                <= p.current < p.frames.len()),
    {
        self.environment.lemma_wf();
    }

    /// An interpreter with an empty global scope, no handlers, nothing to
    /// show, the default frame duration, and its clock at `now_ms`.
    pub fn new(engine: E, now_ms: u64) -> (i: Interpreter<E>)
        ensures
            i.wf(),
            i.spec_engine() == engine,
            i@ == (InterpreterView {
                scopes: seq![Map::<Seq<char>, ValueView>::empty()],
                output: Seq::<FrameView>::empty(),
                duration: DEFAULT_FRAME_DURATION_MS,
                clock: now_ms,
                playback: None,
                handlers: Map::<Seq<char>, Seq<StatementView>>::empty(),
            }),
    {
        let i = Interpreter {
            engine,
            environment: Environment::new(),
            builtins: BuiltinFunctions::new(),
            animation_state: None,
            current_time: now_ms,
            event_handlers: Vec::new(),
            frame_renderer: FrameRenderer::new(128, 128),
            output_frames: Vec::new(),
            frame_duration_ms: DEFAULT_FRAME_DURATION_MS,
        };
        assert(frames_view(i.output_frames@) =~= Seq::<FrameView>::empty());
        assert(i@.handlers =~= Map::<Seq<char>, Seq<StatementView>>::empty());
        i
    }

    /// The frames that the program asked to show.
    pub fn get_output_frames(&self) -> (fs: &[Frame])
        ensures
            frames_view(fs@) == self@.output,
    {
        self.output_frames.as_slice()
    }

    /// A copy of the frames that the program asked to show.
    pub fn get_animation_frames(&self) -> (fs: Vec<Frame>)
        ensures
            frames_view(fs@) == self@.output,
    {
        duplicate_frames(&self.output_frames)
    }

    /// A copy of the first frame to show, if there is one.
    pub fn get_current_frame(&self) -> (f: Option<Frame>)
        ensures
            f is Some <==> self@.output.len() > 0,
            f matches Some(frame) ==> frame@ == self@.output[0],
    {
        if self.output_frames.len() > 0 {
            Some(self.output_frames[0].duplicate())
        } else {
            None
        }
    }

    /// The duration of one frame in milliseconds.
    pub fn get_frame_duration_ms(&self) -> (ms: u64)
        requires
            self.wf(),
        ensures
            ms == self@.duration,
            MIN_FRAME_DURATION_MS <= ms <= MAX_FRAME_DURATION_MS,
    {
        self.frame_duration_ms
    }

    /// The frame on display as text: the current frame of the playback, or
    /// else the first frame to show; nothing when there is neither.
    pub fn render_current_frame(&self) -> (s: Option<String>)
        requires
            self.wf(),
        ensures
            match self@.playback {
                Some(p) if p.frames.len() > 0 => s is Some && s->0@ == frame_text(
                    p.frames[p.current],
                    '#',
                    '.',
                ),
                _ => if self@.output.len() > 0 {
                    s is Some && s->0@ == frame_text(self@.output[0], '#', '.')
                } else {
                    s is None
                },
            },
    {
        match &self.animation_state {
            Some(a) => {
                if a.current_frame < a.frames.len() {
                    return Some(self.frame_renderer.render_ascii(&a.frames[a.current_frame]));
                }
            },
            None => {},
        }
        if self.output_frames.len() > 0 {
            Some(self.frame_renderer.render_ascii(&self.output_frames[0]))
        } else {
            None
        }
    }

    /// Moves the clock on by `delta_ms` and playback with it, and returns the
    /// frame that is then current. Without playback only the clock moves.
    pub fn update(&mut self, delta_ms: u64) -> (r: Option<Frame>)
        requires
            old(self).wf(),
        ensures
            final(self).spec_engine() == old(self).spec_engine(),
            final(self).wf(),
            final(self)@ == (InterpreterView {
                clock: later(old(self)@.clock, delta_ms),
                playback: match old(self)@.playback {
                    Some(p) => Some(advanced(p, later(old(self)@.clock, delta_ms))),
                    None => None,
                },
                ..old(self)@
            }),
            match final(self)@.playback {
                Some(p) if p.frames.len() > 0 => r is Some && r->0@ == p.frames[p.current],
                _ => r is None,
            },
    {
        self.current_time = self.current_time.saturating_add(delta_ms);
        let now = self.current_time;
        let mut state: Option<AnimationState> = None;
        std::mem::swap(&mut state, &mut self.animation_state);
        let shown = match &mut state {
            Some(a) => {
                match a.update(now) {
                    Some(f) => Some(f.duplicate()),
                    None => None,
                }
            },
            None => None,
        };
        std::mem::swap(&mut state, &mut self.animation_state);
        shown
    }

    /// Registers `body` as what to run on the event with the given key,
    /// in place of any body registered for it before.
    pub(crate) fn register_handler(&mut self, key: String, body: Vec<Statement>)
        requires
            old(self).wf(),
        ensures
            final(self).spec_engine() == old(self).spec_engine(),
            final(self).wf(),
            final(self)@ == registered(old(self)@, key@, statements_view(body)),
    {
        let ghost before = self.event_handlers@;
        let mut i: usize = 0;
        while i < self.event_handlers.len()
            invariant
                self.spec_engine() == old(self).spec_engine(),
                self.event_handlers@ == before,
                *self == *old(self),
                self.wf(),
                i <= before.len(),
                first_handler(before, key@, 0) == first_handler(before, key@, i as int),
                forall|j: int| 0 <= j < i ==> (#[trigger] before[j]).key@ != key@,
            decreases before.len() - i,
        {
            if same_text(self.event_handlers[i].key.as_str(), key.as_str()) {
                let h = Handler { key, body };
                self.event_handlers.set(i, h);
                proof {
                    let after = self.event_handlers@;
                    assert forall|k: Seq<char>|
                        handler_body(after, k) == (if k == h.key@ {
                            Some(statements_view(h.body))
                        } else {
                            handler_body(before, k)
                        }) by {
                        lemma_first_handler_same_keys(before, after, k, 0);
                        lemma_first_handler_bounds(before, k, 0);
                    }
                    assert(self@.handlers =~= old(self)@.handlers.insert(
                        h.key@,
                        statements_view(h.body),
                    ));
                }
                return ;
            }
            i = i + 1;
        }
        let h = Handler { key, body };
        self.event_handlers.push(h);
        proof {
            let after = self.event_handlers@;
            assert forall|k: Seq<char>|
                handler_body(after, k) == (if k == h.key@ {
                    Some(statements_view(h.body))
                } else {
                    handler_body(before, k)
                }) by {
                lemma_first_handler_push(before, h, k, 0);
                lemma_first_handler_bounds(before, k, 0);
                lemma_first_handler_bounds(after, k, 0);
            }
            assert(self@.handlers =~= old(self)@.handlers.insert(h.key@, statements_view(h.body)));
        }
    }

    /// A copy of the body registered for the event with the given key.
    pub(crate) fn handler_for(&self, key: &str) -> (r: Option<Vec<Statement>>)
        ensures
            r is Some <==> self@.handlers.contains_key(key@),
            r matches Some(body) ==> statements_view(body) == self@.handlers[key@],
    {
        let mut i: usize = 0;
        while i < self.event_handlers.len()
            invariant
                i <= self.event_handlers@.len(),
                first_handler(self.event_handlers@, key@, 0) == first_handler(
                    self.event_handlers@,
                    key@,
                    i as int,
                ),
            decreases self.event_handlers@.len() - i,
        {
            if same_text(self.event_handlers[i].key.as_str(), key) {
                return Some(duplicate_statements(&self.event_handlers[i].body));
            }
            i = i + 1;
        }
        None
    }

    /// Carries out an animation control on arguments that are already
    /// evaluated. The arguments are checked as the builtin of that name checks
    /// them; where the check fails nothing changes.
    pub fn handle_animation_function(&mut self, control: Builtin, args: &Vec<Value>) -> (r: Result<
        Value,
        GizmoError,
    >)
        requires
            old(self).wf(),
            values_wf(args@),
            is_control(control),
        ensures
            final(self).spec_engine() == old(self).spec_engine(),
            final(self).wf(),
            outcome(old(self).spec_engine(), control, values_view(args@), r),
            r is Ok ==> final(self)@ == control_effect(old(self)@, control, values_view(args@)),
            r is Err ==> final(self)@ == old(self)@,
    {
        let checked = invoke(&self.engine, control, args)?;
        let ghost views = values_view(args@);
        match control {
            Builtin::Stop => {
                self.animation_state = None;
            },
            _ => {
                assert(views[0] == args@[0]@);
                assert(args@[0].wf());
                let frames: Vec<Frame> = match &args[0] {
                    Value::Frames(fs) => duplicate_frames(fs),
                    Value::Frame(f) => {
                        let mut one: Vec<Frame> = Vec::new();
                        one.push(f.duplicate());
                        assert(frames_view(one@) =~= seq![f@]);
                        one
                    },
                    _ => Vec::new(),
                };
                assert(frames_view(frames@) == shown_frames(views[0]));
                let looping = match control {
                    Builtin::Loop | Builtin::LoopSpeed => true,
                    _ => false,
                };
                match control {
                    Builtin::PlaySpeed | Builtin::LoopSpeed => {
                        assert(views[1] == args@[1]@);
                        match &args[1] {
                            Value::Number(ms) => {
                                self.frame_duration_ms = clamped(ms.to_u64());
                            },
                            _ => {},
                        }
                    },
                    _ => {},
                }
                let shown = duplicate_frames(&frames);
                self.animation_state = Some(
                    AnimationState::new(frames, looping, self.frame_duration_ms),
                );
                self.output_frames = shown;
            },
        }
        Ok(checked)
    }

    /// The engine that the interpreter was made with.
    pub closed spec fn spec_engine(&self) -> E {
        self.engine
    }

    /// The engine that does the interpreter's arithmetic.
    pub(crate) fn engine(&self) -> (e: &E)
        ensures
            *e == self.spec_engine(),
    {
        &self.engine
    }

    /// The interpreter's clock, in milliseconds.
    pub(crate) fn clock(&self) -> (now: u64)
        ensures
            now == self@.clock,
    {
        self.current_time
    }

    /// A copy of the value that `name` resolves to.
    pub fn look_up(&self, name: &str) -> (r: Result<Value, GizmoError>)
        requires
            self.wf(),
        ensures
            r is Ok <==> resolve(self@.scopes, name@) is Some,
            r matches Ok(v) ==> Some(v@) == resolve(self@.scopes, name@) && v.wf(),
            r matches Err(e) ==> e.kind() == ErrorKind::UndefinedVariable && e.detail() == name@,
    {
        self.environment.get(name)
    }

    /// Binds `name` to `value` in the innermost scope.
    pub(crate) fn bind(&mut self, name: String, value: Value)
        requires
            old(self).wf(),
            value.wf(),
        ensures
            final(self).spec_engine() == old(self).spec_engine(),
            final(self).wf(),
            final(self)@ == bound(old(self)@, name@, value@),
            preserved(old(self)@, final(self)@),
            final(self)@.scopes.len() > 0,
            final(self)@.scopes.last().contains_key(name@),
            final(self)@.scopes.last()[name@] == value@,
    {
        proof {
            self.environment.lemma_wf();
        }
        self.environment.define(name, value);
        assert(self@.scopes.drop_last() =~= old(self)@.scopes.drop_last());
    }

    /// Opens the scope of one pixel: a new innermost scope that binds `row`,
    /// `col` and, where there is one, the extra name.
    pub(crate) fn enter_pixel(&mut self, row: Number, col: Number, extra: &Option<(String, Value)>)
        requires
            old(self).wf(),
            extra matches Some(b) ==> b.1.wf(),
        ensures
            final(self).spec_engine() == old(self).spec_engine(),
            final(self).wf(),
            final(self)@ == pixel_scope(old(self)@, binding_view(*extra), row, col),
            final(self)@.scopes.len() == old(self)@.scopes.len() + 1,
            final(self)@.scopes.drop_last() == old(self)@.scopes,
    {
        proof {
            self.environment.lemma_wf();
        }
        self.environment.push_scope();
        self.environment.define(String::from_str("row"), Value::Number(row));
        self.environment.define(String::from_str("col"), Value::Number(col));
        match extra {
            Some(b) => {
                self.environment.define(b.0.clone(), b.1.duplicate());
            },
            None => {},
        }
        assert(self@.scopes =~= pixel_scope(old(self)@, binding_view(*extra), row, col).scopes);
        assert(self@.scopes.drop_last() =~= old(self)@.scopes);
    }

    /// Closes the innermost scope and forgets what it bound.
    pub(crate) fn leave_pixel(&mut self)
        requires
            old(self).wf(),
            old(self)@.scopes.len() > 1,
        ensures
            final(self).spec_engine() == old(self).spec_engine(),
            final(self).wf(),
            final(self)@ == left_scope(old(self)@),
    {
        self.environment.pop_scope();
    }
}

/// The view of the extra binding of a generator.
pub open spec fn binding_view(extra: Option<(String, Value)>) -> Option<(Seq<char>, ValueView)> {
    match extra {
        Some(b) => Some((b.0@, b.1@)),
        None => None,
    }
}

/// What a numeral that the engine reads no number in reports.
pub open spec fn invalid_number_message(lexeme: Seq<char>) -> Seq<char> {
    "Invalid number '"@ + lexeme + "'"@
}

} // verus!

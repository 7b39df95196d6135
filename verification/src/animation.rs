//! Playback state of a frame sequence, text rendering of frames, and fitting
//! a frame to a target size.

use vstd::prelude::*;
use crate::frame::{Frame, FrameView};

verus! {

/// Renders frames as text, one line per row.
pub struct FrameRenderer {
    pub width: usize,
    pub height: usize,
}

/// One row of pixels as characters.
pub open spec fn row_text(row: Seq<bool>, on: char, off: char) -> Seq<char> {
    Seq::new(
        row.len(),
        |c: int|
            if row[c] {
                on
            } else {
                off
            },
    )
}

/// The first `n` rows as text, each row followed by a line feed.
pub open spec fn rows_text(rows: Seq<Seq<bool>>, n: int, on: char, off: char) -> Seq<char>
    decreases n,
{
    if n <= 0 {
        Seq::empty()
    } else {
        rows_text(rows, n - 1, on, off) + row_text(rows[n - 1], on, off).push('\n')
    }
}

/// A frame as text: `on` for a pixel that is on, `off` for one that is off,
/// and a line feed after every row.
pub open spec fn frame_text(f: FrameView, on: char, off: char) -> Seq<char> {
    rows_text(f.rows, f.rows.len() as int, on, off)
}

fn render_with(frame: &Frame, on: char, off: char) -> (s: String)
    ensures
        s@ == frame_text(frame@, on, off),
{
    let mut out = String::new();
    let mut r: usize = 0;
    while r < frame.pixels.len()
        invariant
            r <= frame.pixels@.len(),
            out@ == rows_text(frame@.rows, r as int, on, off),
        decreases frame.pixels@.len() - r,
    {
        let ghost before = out@;
        let row = &frame.pixels[r];
        let mut c: usize = 0;
        while c < row.len()
            invariant
                c <= row@.len(),
                out@ == before + row_text(row@, on, off).subrange(0, c as int),
            decreases row@.len() - c,
        {
            let ghost line = row_text(row@, on, off);
            assert(line.subrange(0, c + 1) =~= line.subrange(0, c as int).push(line[c as int]));
            if row[c] {
                out.push(on);
            } else {
                out.push(off);
            }
            assert(out@ =~= before + line.subrange(0, c + 1));
            c = c + 1;
        }
        out.push('\n');
        proof {
            let line = row_text(row@, on, off);
            assert(line.subrange(0, row@.len() as int) =~= line);
            assert(frame@.rows[r as int] == row@);
            assert(out@ =~= before + line.push('\n'));
        }
        r = r + 1;
    }
    out
}

impl FrameRenderer {
    /// A renderer for frames of the given nominal size. The size is kept for
    /// context only: frames of any size can be rendered.
    pub fn new(width: usize, height: usize) -> (r: FrameRenderer)
        ensures
            r.width == width,
            r.height == height,
    {
        FrameRenderer { width, height }
    }

    /// The frame as text with a full block for "on" and a space for "off".
    pub fn render_frame(&self, frame: &Frame) -> (s: String)
        ensures
            s@ == frame_text(frame@, '\u{2588}', ' '),
    {
        render_with(frame, '\u{2588}', ' ')
    }

    /// The frame as text with `#` for "on" and `.` for "off".
    pub fn render_ascii(&self, frame: &Frame) -> (s: String)
        ensures
            s@ == frame_text(frame@, '#', '.'),
    {
        render_with(frame, '#', '.')
    }
}

/// Where a frame of `size` starts inside a target of `target`: centered when
/// the target is larger, at 0 otherwise.
pub open spec fn centered_start(size: int, target: int) -> int {
    if target > size {
        (target - size) / 2
    } else {
        0
    }
}

/// The frame fitted to `width` by `height`: unchanged when it already has
/// that size; otherwise the old pixels are copied, centered where the target
/// is larger and cut off at the right and bottom where it is smaller, and
/// everything else is off.
pub open spec fn normalized(f: FrameView, width: int, height: int) -> FrameView {
    if f.width == width && f.height == height {
        f
    } else {
        let top = centered_start(f.height, height);
        let left = centered_start(f.width, width);
        FrameView {
            width,
            height,
            rows: Seq::new(
                height as nat,
                |r: int|
                    Seq::new(
                        width as nat,
                        |c: int| f.on(r - top, c - left),
                    ),
            ),
        }
    }
}

/// Fits the frame to the target size in place.
pub fn normalize_frame_size(frame: &mut Frame, target_width: usize, target_height: usize)
    requires
        old(frame).wf(),
    ensures
        final(frame).wf(),
        final(frame)@ == normalized(old(frame)@, target_width as int, target_height as int),
{
    if frame.width == target_width && frame.height == target_height {
        return ;
    }
    let ghost before = frame@;
    let top: usize = if target_height > frame.height {
        (target_height - frame.height) / 2
    } else {
        0
    };
    let left: usize = if target_width > frame.width {
        (target_width - frame.width) / 2
    } else {
        0
    };
    let mut pixels: Vec<Vec<bool>> = Vec::new();
    let mut r: usize = 0;
    while r < target_height
        invariant
            frame.wf(),
            frame@ == before,
            r <= target_height,
            top == centered_start(before.height, target_height as int),
            left == centered_start(before.width, target_width as int),
            pixels@.len() == r,
            forall|i: int|
                0 <= i < r ==> (#[trigger] pixels@[i])@ == Seq::new(
                    target_width as nat,
                    |c: int| before.on(i - top, c - left),
                ),
        decreases target_height - r,
    {
        let mut line: Vec<bool> = Vec::new();
        let mut c: usize = 0;
        while c < target_width
            invariant
                frame.wf(),
                frame@ == before,
                r < target_height,
                c <= target_width,
                line@.len() == c,
                forall|j: int| 0 <= j < c ==> (#[trigger] line@[j]) == before.on(r - top, j - left),
            decreases target_width - c,
        {
            let lit = if r >= top && c >= left && r - top < frame.height && c - left
                < frame.width {
                proof {
                    frame.lemma_row(r - top);
                }
                frame.pixels[r - top][c - left]
            } else {
                false
            };
            line.push(lit);
            c = c + 1;
        }
        assert(line@ =~= Seq::new(target_width as nat, |c: int| before.on(r - top, c - left)));
        pixels.push(line);
        r = r + 1;
    }
    frame.width = target_width;
    frame.height = target_height;
    frame.pixels = pixels;
    assert(frame@.rows =~= normalized(before, target_width as int, target_height as int).rows);
}

/// A frame sequence being played: which frame is current, when it last
/// changed, how long each frame lasts, and whether playback wraps around.
pub struct AnimationState {
    pub current_frame: usize,
    pub frames: Vec<Frame>,
    pub loop_animation: bool,
    pub frame_duration: u64,
    pub last_frame_time: u64,
}

impl AnimationState {
    /// The current index names a frame, unless there are no frames at all.
    pub open spec fn wf(&self) -> bool {
        self.frames@.len() == 0 || self.current_frame < self.frames@.len()
    }

    /// Whether a frame change is due at `current_time`: there are frames, and
    /// at least one frame duration has passed since the last change.
    pub open spec fn due(&self, current_time: u64) -> bool {
        self.frames@.len() > 0 && current_time - self.last_frame_time >= self.frame_duration
    }

    /// The index after an advance: the next frame; past the last one, the
    /// first frame when looping and the last frame otherwise.
    pub open spec fn next_index(&self) -> int {
        if self.current_frame + 1 < self.frames@.len() {
            self.current_frame + 1
        } else if self.loop_animation {
            0
        } else {
            self.frames@.len() - 1
        }
    }

    /// Playback of `frames` from the first frame, last changed at time 0.
    pub fn new(frames: Vec<Frame>, loop_animation: bool, frame_duration: u64) -> (a: AnimationState)
        ensures
            a.wf(),
            a.current_frame == 0,
            a.frames == frames,
            a.loop_animation == loop_animation,
            a.frame_duration == frame_duration,
            a.last_frame_time == 0,
    {
        AnimationState { current_frame: 0, frames, loop_animation, frame_duration, last_frame_time: 0 }
    }

    /// Advances playback to `current_time` and returns the frame that is then
    /// current. With no frames nothing changes and there is no frame. When a
    /// change is due the index moves on by one and the time of the last
    /// change becomes `current_time`; otherwise nothing changes. A time
    /// before the last change counts as no time passed.
    pub fn update(&mut self, current_time: u64) -> (r: Option<&Frame>)
        requires
            old(self).wf(),
        ensures
            final(self).wf(),
            final(self).frames == old(self).frames,
            final(self).loop_animation == old(self).loop_animation,
            final(self).frame_duration == old(self).frame_duration,
            old(self).due(current_time) ==> final(self).current_frame == old(self).next_index()
                && final(self).last_frame_time == current_time,
            !old(self).due(current_time) ==> final(self).current_frame == old(self).current_frame
                && final(self).last_frame_time == old(self).last_frame_time,
            r is Some <==> old(self).frames@.len() > 0,
            r matches Some(f) ==> *f == final(self).frames@[final(self).current_frame as int],
    {
        if self.frames.len() == 0 {
            return None;
        }
        let elapsed: u64 = if current_time >= self.last_frame_time {
            current_time - self.last_frame_time
        } else {
            0
        };
        if current_time >= self.last_frame_time && elapsed >= self.frame_duration {
            self.last_frame_time = current_time;
            if self.current_frame + 1 < self.frames.len() {
                self.current_frame = self.current_frame + 1;
            } else if self.loop_animation {
                self.current_frame = 0;
            } else {
                self.current_frame = self.frames.len() - 1;
            }
        }
        Some(&self.frames[self.current_frame])
    }

    /// Goes back to the first frame and to time 0.
    pub fn reset(&mut self)
        ensures
            final(self).current_frame == 0,
            final(self).last_frame_time == 0,
            final(self).frames == old(self).frames,
            final(self).loop_animation == old(self).loop_animation,
            final(self).frame_duration == old(self).frame_duration,
            final(self).wf(),
    {
        self.current_frame = 0;
        self.last_frame_time = 0;
    }

    /// Whether playback has come to rest: it does not loop and the current
    /// frame is the last one (or there are no frames).
    pub fn is_finished(&self) -> (b: bool)
        ensures
            b == (!self.loop_animation && self.current_frame >= self.frames@.len() - 1),
    {
        !self.loop_animation && (self.frames.len() == 0 || self.current_frame >= self.frames.len()
            - 1)
    }
}

} // verus!

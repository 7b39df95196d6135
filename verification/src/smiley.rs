//! The picture to show when a program shows nothing: a smiling face.

use vstd::prelude::*;
use crate::frame::{Frame, FrameView};

verus! {

/// The side of the square picture.
pub const SMILEY_SIZE: usize = 128;

/// Whether the pixel in row `y`, column `x` of the face is on: two square
/// eyes, two lines for the mouth, and a slanted stroke at each end that
/// joins the lines.
pub open spec fn smiley_pixel(y: int, x: int) -> bool {
    ||| 50 <= y <= 58 && (50 <= x <= 58 || 70 <= x <= 78)
    ||| (y == 75 || y == 80) && 55 <= x <= 73
    ||| 76 <= y <= 79 && (x == y - 21 || x == 149 - y)
}

/// The face as a frame.
pub open spec fn smiley() -> FrameView {
    FrameView {
        width: SMILEY_SIZE as int,
        height: SMILEY_SIZE as int,
        rows: Seq::new(
            SMILEY_SIZE as nat,
            |y: int| Seq::new(SMILEY_SIZE as nat, |x: int| smiley_pixel(y, x)),
        ),
    }
}

fn pixel(y: usize, x: usize) -> (on: bool)
    requires
        y < SMILEY_SIZE,
        x < SMILEY_SIZE,
    ensures
        on == smiley_pixel(y as int, x as int),
{
    (50 <= y && y <= 58 && ((50 <= x && x <= 58) || (70 <= x && x <= 78))) || ((y == 75 || y == 80)
        && 55 <= x && x <= 73) || (76 <= y && y <= 79 && (x + 21 == y || x + y == 149))
}

/// The face, 128 by 128 pixels.
pub fn create_default_smiley() -> (f: Frame)
    ensures
        f.wf(),
        f@ == smiley(),
{
    let mut pixels: Vec<Vec<bool>> = Vec::new();
    let mut y: usize = 0;
    while y < SMILEY_SIZE
        invariant
            y <= SMILEY_SIZE,
            pixels@.len() == y,
            forall|i: int|
                0 <= i < y ==> (#[trigger] pixels@[i])@ == Seq::new(
                    SMILEY_SIZE as nat,
                    |x: int| smiley_pixel(i, x),
                ),
        decreases SMILEY_SIZE - y,
    {
        let mut line: Vec<bool> = Vec::new();
        let mut x: usize = 0;
        while x < SMILEY_SIZE
            invariant
                y < SMILEY_SIZE,
                x <= SMILEY_SIZE,
                line@.len() == x,
                forall|j: int| 0 <= j < x ==> (#[trigger] line@[j]) == smiley_pixel(y as int, j),
            decreases SMILEY_SIZE - x,
        {
            line.push(pixel(y, x));
            x = x + 1;
        }
        assert(line@ =~= Seq::new(SMILEY_SIZE as nat, |x: int| smiley_pixel(y as int, x)));
        pixels.push(line);
        y = y + 1;
    }
    let f = Frame { width: SMILEY_SIZE, height: SMILEY_SIZE, pixels };
    assert(f@.rows =~= smiley().rows);
    f
}

} // verus!

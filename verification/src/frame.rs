//! The raster value: a rectangular grid of on/off pixels and its geometry.

use vstd::prelude::*;
use vstd::string::StringExecFns;
use crate::error::GizmoError;
use crate::text::{decimal, decimal_text};

verus! {

/// A rectangular grid of booleans, row-major. `true` is an "on" pixel.
#[derive(Debug, Clone, PartialEq)]
pub struct Frame {
    pub width: usize,
    pub height: usize,
    pub pixels: Vec<Vec<bool>>,
}

/// The mathematical value of a frame.
pub struct FrameView {
    pub width: int,
    pub height: int,
    pub rows: Seq<Seq<bool>>,
}

impl FrameView {
    /// Every row is `width` long and there are `height` rows.
    pub open spec fn wf(self) -> bool {
        &&& 0 <= self.width
        &&& self.rows.len() == self.height
        &&& forall|r: int| 0 <= r < self.height ==> (#[trigger] self.rows[r]).len() == self.width
    }

    /// Whether `(row, col)` names a pixel of the frame.
    pub open spec fn in_bounds(self, row: int, col: int) -> bool {
        0 <= row < self.height && 0 <= col < self.width
    }

    /// Whether `(row, col)` is inside the frame and on.
    pub open spec fn on(self, row: int, col: int) -> bool {
        self.in_bounds(row, col) && self.rows[row][col]
    }

    /// 1 if `(row, col)` is inside the frame and on, else 0.
    pub open spec fn lit(self, row: int, col: int) -> int {
        if self.on(row, col) {
            1
        } else {
            0
        }
    }

    /// How many of the eight cells around `(row, col)` are inside the frame
    /// and on. Cells beyond an edge count as off: the grid does not wrap.
    pub open spec fn neighbors(self, row: int, col: int) -> int {
        self.lit(row - 1, col - 1) + self.lit(row - 1, col) + self.lit(row - 1, col + 1)
            + self.lit(row, col - 1) + self.lit(row, col + 1) + self.lit(row + 1, col - 1)
            + self.lit(row + 1, col) + self.lit(row + 1, col + 1)
    }

    /// The all-off frame of the given size.
    pub open spec fn blank(width: int, height: int) -> FrameView {
        FrameView { width, height, rows: Seq::new(height as nat, |r: int| Seq::new(width as nat, |c: int| false)) }
    }

    /// The frame with every pixel inverted.
    pub open spec fn flipped(self) -> FrameView {
        FrameView {
            width: self.width,
            height: self.height,
            rows: Seq::new(
                self.height as nat,
                |r: int| Seq::new(self.width as nat, |c: int| !self.rows[r][c]),
            ),
        }
    }

    /// The frame turned a quarter clockwise: the pixel at `(r, c)` moves to
    /// `(c, height - 1 - r)`, and width and height change places.
    pub open spec fn rotated(self) -> FrameView {
        FrameView {
            width: self.height,
            height: self.width,
            rows: Seq::new(
                self.width as nat,
                |r: int| Seq::new(self.height as nat, |c: int| self.rows[self.height - 1 - c][r]),
            ),
        }
    }

    /// The frame with `sprite` laid over it, the sprite's top-left pixel at
    /// column `x`, row `y`. A pixel is on afterwards if it was on before or an
    /// "on" pixel of the sprite lands on it; sprite pixels that land outside
    /// are dropped.
    pub open spec fn with_sprite(self, sprite: FrameView, x: int, y: int) -> FrameView {
        FrameView {
            width: self.width,
            height: self.height,
            rows: Seq::new(
                self.height as nat,
                |r: int|
                    Seq::new(
                        self.width as nat,
                        |c: int| self.rows[r][c] || sprite.on(r - y, c - x),
                    ),
            ),
        }
    }

    /// The frame with the pixel at `(row, col)` set to `value`.
    pub open spec fn with_pixel(self, row: int, col: int, value: bool) -> FrameView {
        FrameView {
            width: self.width,
            height: self.height,
            rows: self.rows.update(row, self.rows[row].update(col, value)),
        }
    }
}

/// The rows of a nested vector as nested sequences.
pub open spec fn rows_view(data: Seq<Vec<bool>>) -> Seq<Seq<bool>> {
    Seq::new(data.len(), |r: int| data[r]@)
}

/// Whether the rows form a frame: at least one row, all rows equally long.
pub open spec fn rectangular(rows: Seq<Seq<bool>>) -> bool {
    rows.len() > 0 && forall|r: int| 0 <= r < rows.len() ==> (#[trigger] rows[r]).len() == rows[0].len()
}

/// Whether row `r` is the first whose length differs from that of row 0.
pub open spec fn is_first_ragged_row(rows: Seq<Seq<bool>>, r: int) -> bool {
    &&& 0 <= r < rows.len()
    &&& rows[r].len() != rows[0].len()
    &&& forall|q: int| 0 <= q < r ==> (#[trigger] rows[q]).len() == rows[0].len()
}

/// The first row whose length differs from that of row 0.
pub open spec fn first_ragged_row(rows: Seq<Seq<bool>>) -> int
    recommends
        rows.len() > 0,
        !rectangular(rows),
{
    choose|r: int| is_first_ragged_row(rows, r)
}

impl View for Frame {
    type V = FrameView;

    open spec fn view(&self) -> FrameView {
        FrameView {
            width: self.width as int,
            height: self.height as int,
            rows: rows_view(self.pixels@),
        }
    }
}

impl Frame {
    /// The fields agree: `height` rows, each `width` long.
    pub open spec fn wf(&self) -> bool {
        self@.wf()
    }

    /// Row `r` of the view is row `r` of the pixels, and is `width` long.
    pub proof fn lemma_row(&self, r: int)
        requires
            self.wf(),
            0 <= r < self.height,
        ensures
            self.pixels@.len() == self.height,
            self.pixels@[r]@.len() == self.width,
            self@.rows[r] == self.pixels@[r]@,
    {
        assert(self@.rows[r].len() == self.width);
    }

    /// An all-off frame of the given size.
    pub fn new(width: usize, height: usize) -> (f: Frame)
        ensures
            f.wf(),
            f@ == FrameView::blank(width as int, height as int),
    {
        let mut pixels: Vec<Vec<bool>> = Vec::new();
        let mut r: usize = 0;
        while r < height
            invariant
                r <= height,
                pixels@.len() == r,
                forall|i: int| 0 <= i < r ==> (#[trigger] pixels@[i])@ == Seq::new(width as nat, |c: int| false),
            decreases height - r,
        {
            let mut row: Vec<bool> = Vec::new();
            let mut c: usize = 0;
            while c < width
                invariant
                    c <= width,
                    row@.len() == c,
                    forall|j: int| 0 <= j < c ==> !(#[trigger] row@[j]),
                decreases width - c,
            {
                row.push(false);
                c = c + 1;
            }
            assert(row@ =~= Seq::new(width as nat, |c: int| false));
            pixels.push(row);
            r = r + 1;
        }
        let f = Frame { width, height, pixels };
        assert(f@.rows =~= FrameView::blank(width as int, height as int).rows);
        f
    }

    /// An all-off frame of the given size.
    pub fn new_blank(width: usize, height: usize) -> (f: Frame)
        ensures
            f.wf(),
            f@ == FrameView::blank(width as int, height as int),
    {
        Frame::new(width, height)
    }

    /// Builds a frame from rows. Succeeds exactly when there is at least one
    /// row and all rows are equally long; the frame then holds the rows as
    /// given. Otherwise the failure is an invalid-frame error that names the
    /// first offending row.
    pub fn from_array(data: Vec<Vec<bool>>) -> (r: Result<Frame, GizmoError>)
        ensures
            r is Ok <==> rectangular(rows_view(data@)),
            r matches Ok(f) ==> f.wf() && f.pixels == data && f@.rows == rows_view(data@),
            r matches Err(e) ==> e.kind() == crate::error::ErrorKind::InvalidFrameSize,
            r matches Err(e) ==> e.detail() == ragged_message(rows_view(data@)),
    {
        if data.len() == 0 {
            return Err(GizmoError::InvalidFrameSize(String::from_str("Frame cannot be empty")));
        }
        let height = data.len();
        let width = data[0].len();
        let mut i: usize = 0;
        while i < height
            invariant
                i <= height,
                height == data@.len(),
                height > 0,
                width == data@[0]@.len(),
                forall|q: int| 0 <= q < i ==> (#[trigger] data@[q])@.len() == width,
            decreases height - i,
        {
            if data[i].len() != width {
                let ghost rows = rows_view(data@);
                proof {
                    assert(rows[i as int].len() != rows[0].len());
                    assert(!rectangular(rows));
                    let w = first_ragged_row(rows);
                    assert(is_first_ragged_row(rows, i as int));
                    assert(w == i) by {
                        if w < i {
                            assert(rows[w].len() == rows[0].len());
                        }
                        if i < w {
                            assert(rows[i as int].len() == rows[0].len());
                        }
                    }
                }
                let mut msg = String::from_str("Row ");
                msg.append(decimal_text(i as u64).as_str());
                msg.append(" has length ");
                msg.append(decimal_text(data[i].len() as u64).as_str());
                msg.append(" but expected ");
                msg.append(decimal_text(width as u64).as_str());
                return Err(GizmoError::InvalidFrameSize(msg));
            }
            i = i + 1;
        }
        let f = Frame { width, height, pixels: data };
        proof {
            let rows = rows_view(data@);
            assert forall|r: int| 0 <= r < rows.len() implies (#[trigger] rows[r]).len()
                == rows[0].len() by {
                assert(data@[r]@.len() == width);
            }
        }
        Ok(f)
    }

    /// The pixel at `(row, col)`; an index error when the position is
    /// outside the frame.
    pub fn get_pixel(&self, row: usize, col: usize) -> (r: Result<bool, GizmoError>)
        requires
            self.wf(),
        ensures
            r is Ok <==> self@.in_bounds(row as int, col as int),
            r matches Ok(b) ==> b == self@.rows[row as int][col as int],
            r matches Err(e) ==> e.kind() == crate::error::ErrorKind::Index && e.detail()
                == out_of_bounds_message(self@, row as int, col as int),
    {
        if row >= self.height || col >= self.width {
            return Err(GizmoError::IndexError(self.out_of_bounds_text(row, col)));
        }
        proof {
            self.lemma_row(row as int);
        }
        Ok(self.pixels[row][col])
    }

    /// Sets the pixel at `(row, col)`; an index error, and no change, when the
    /// position is outside the frame.
    pub fn set_pixel(&mut self, row: usize, col: usize, value: bool) -> (r: Result<(), GizmoError>)
        requires
            old(self).wf(),
        ensures
            final(self).wf(),
            r is Ok <==> old(self)@.in_bounds(row as int, col as int),
            r is Ok ==> final(self)@ == old(self)@.with_pixel(row as int, col as int, value),
            r is Err ==> *final(self) == *old(self),
            r matches Err(e) ==> e.kind() == crate::error::ErrorKind::Index && e.detail()
                == out_of_bounds_message(old(self)@, row as int, col as int),
    {
        if row >= self.height || col >= self.width {
            return Err(GizmoError::IndexError(self.out_of_bounds_text(row, col)));
        }
        let ghost before = self@;
        proof {
            self.lemma_row(row as int);
        }
        let mut line: Vec<bool> = copy_row(&self.pixels[row]);
        line.set(col, value);
        self.pixels.set(row, line);
        assert(self@.rows =~= before.with_pixel(row as int, col as int, value).rows);
        Ok(())
    }

    fn out_of_bounds_text(&self, row: usize, col: usize) -> (s: String)
        ensures
            s@ == out_of_bounds_message(self@, row as int, col as int),
    {
        let mut msg = String::from_str("Pixel (");
        msg.append(decimal_text(row as u64).as_str());
        msg.append(", ");
        msg.append(decimal_text(col as u64).as_str());
        msg.append(") is out of bounds for ");
        msg.append(decimal_text(self.width as u64).as_str());
        msg.append("x");
        msg.append(decimal_text(self.height as u64).as_str());
        msg.append(" frame");
        msg
    }

    /// Whether the given position, if it exists at all, is inside the frame
    /// and on.
    fn pixel_on(&self, row: Option<usize>, col: Option<usize>) -> (b: bool)
        requires
            self.wf(),
        ensures
            b == (row is Some && col is Some && self@.on(row->0 as int, col->0 as int)),
    {
        match (row, col) {
            (Some(r), Some(c)) => {
                if r < self.height && c < self.width {
                    proof {
                        self.lemma_row(r as int);
                    }
                    self.pixels[r][c]
                } else {
                    false
                }
            },
            _ => false,
        }
    }

    /// Counts the neighbors of `(row, col)` that are on, among the eight cells
    /// around it that lie inside the frame.
    pub fn count_neighbors(&self, row: usize, col: usize) -> (n: usize)
        requires
            self.wf(),
        ensures
            n == self@.neighbors(row as int, col as int),
            n <= 8,
    {
        let up: Option<usize> = if row > 0 {
            Some(row - 1)
        } else {
            None
        };
        let down: Option<usize> = if row < usize::MAX {
            Some(row + 1)
        } else {
            None
        };
        let left: Option<usize> = if col > 0 {
            Some(col - 1)
        } else {
            None
        };
        let right: Option<usize> = if col < usize::MAX {
            Some(col + 1)
        } else {
            None
        };
        let here_row: Option<usize> = Some(row);
        let here_col: Option<usize> = Some(col);
        let mut n: usize = 0;
        if self.pixel_on(up, left) {
            n = n + 1;
        }
        if self.pixel_on(up, here_col) {
            n = n + 1;
        }
        if self.pixel_on(up, right) {
            n = n + 1;
        }
        if self.pixel_on(here_row, left) {
            n = n + 1;
        }
        if self.pixel_on(here_row, right) {
            n = n + 1;
        }
        if self.pixel_on(down, left) {
            n = n + 1;
        }
        if self.pixel_on(down, here_col) {
            n = n + 1;
        }
        if self.pixel_on(down, right) {
            n = n + 1;
        }
        n
    }

    /// Inverts every pixel.
    pub fn flip(&mut self)
        requires
            old(self).wf(),
        ensures
            final(self).wf(),
            final(self)@ == old(self)@.flipped(),
    {
        let ghost before = self@;
        let mut pixels: Vec<Vec<bool>> = Vec::new();
        let mut r: usize = 0;
        while r < self.height
            invariant
                self.wf(),
                self@ == before,
                r <= self.height,
                pixels@.len() == r,
                forall|i: int|
                    0 <= i < r ==> (#[trigger] pixels@[i])@ == Seq::new(
                        before.width as nat,
                        |c: int| !before.rows[i][c],
                    ),
            decreases self.height - r,
        {
            let mut line: Vec<bool> = Vec::new();
            let mut c: usize = 0;
            while c < self.width
                invariant
                    self.wf(),
                    self@ == before,
                    r < self.height,
                    c <= self.width,
                    line@.len() == c,
                    forall|j: int| 0 <= j < c ==> (#[trigger] line@[j]) == !before.rows[r as int][j],
                decreases self.width - c,
            {
                proof {
                    self.lemma_row(r as int);
                }
                line.push(!self.pixels[r][c]);
                c = c + 1;
            }
            assert(line@ =~= Seq::new(before.width as nat, |c: int| !before.rows[r as int][c]));
            pixels.push(line);
            r = r + 1;
        }
        self.pixels = pixels;
        assert(self@.rows =~= before.flipped().rows);
    }

    /// The frame turned a quarter clockwise.
    pub fn rotate_90(&self) -> (f: Frame)
        requires
            self.wf(),
        ensures
            f.wf(),
            f@ == self@.rotated(),
    {
        let mut pixels: Vec<Vec<bool>> = Vec::new();
        let mut r: usize = 0;
        while r < self.width
            invariant
                self.wf(),
                r <= self.width,
                pixels@.len() == r,
                forall|i: int|
                    0 <= i < r ==> (#[trigger] pixels@[i])@ == Seq::new(
                        self.height as nat,
                        |c: int| self@.rows[self.height - 1 - c][i],
                    ),
            decreases self.width - r,
        {
            let mut line: Vec<bool> = Vec::new();
            let mut c: usize = 0;
            while c < self.height
                invariant
                    self.wf(),
                    r < self.width,
                    c <= self.height,
                    line@.len() == c,
                    forall|j: int|
                        0 <= j < c ==> (#[trigger] line@[j]) == self@.rows[self.height - 1 - j][r as int],
                decreases self.height - c,
            {
                proof {
                    self.lemma_row(self.height - 1 - c);
                }
                line.push(self.pixels[self.height - 1 - c][r]);
                c = c + 1;
            }
            assert(line@ =~= Seq::new(
                self.height as nat,
                |c: int| self@.rows[self.height - 1 - c][r as int],
            ));
            pixels.push(line);
            r = r + 1;
        }
        let f = Frame { width: self.height, height: self.width, pixels };
        assert(f@.rows =~= self@.rotated().rows);
        f
    }

    /// Lays `sprite` over the frame with its top-left pixel at column `x`,
    /// row `y`. Pixels are only ever turned on; sprite pixels that land
    /// outside the frame are dropped.
    pub fn place_sprite(&mut self, sprite: &Frame, x: i32, y: i32)
        requires
            old(self).wf(),
            sprite.wf(),
        ensures
            final(self).wf(),
            final(self)@ == old(self)@.with_sprite(sprite@, x as int, y as int),
    {
        let ghost before = self@;
        let mut pixels: Vec<Vec<bool>> = Vec::new();
        let mut r: usize = 0;
        while r < self.height
            invariant
                self.wf(),
                sprite.wf(),
                self@ == before,
                r <= self.height,
                pixels@.len() == r,
                forall|i: int|
                    0 <= i < r ==> (#[trigger] pixels@[i])@ == Seq::new(
                        before.width as nat,
                        |c: int| before.rows[i][c] || sprite@.on(i - y, c - x),
                    ),
            decreases self.height - r,
        {
            let from_row = shifted(r, y);
            let mut line: Vec<bool> = Vec::new();
            let mut c: usize = 0;
            while c < self.width
                invariant
                    self.wf(),
                    sprite.wf(),
                    self@ == before,
                    r < self.height,
                    c <= self.width,
                    line@.len() == c,
                    from_row == shift_of(r as int, y as int),
                    forall|j: int|
                        0 <= j < c ==> (#[trigger] line@[j]) == (before.rows[r as int][j] || sprite@.on(
                            r - y,
                            j - x,
                        )),
                decreases self.width - c,
            {
                let from_col = shifted(c, x);
                proof {
                    self.lemma_row(r as int);
                }
                let lit = self.pixels[r][c] || sprite.pixel_on(from_row, from_col);
                line.push(lit);
                c = c + 1;
            }
            assert(line@ =~= Seq::new(
                before.width as nat,
                |c: int| before.rows[r as int][c] || sprite@.on(r - y, c - x),
            ));
            pixels.push(line);
            r = r + 1;
        }
        self.pixels = pixels;
        assert(self@.rows =~= before.with_sprite(sprite@, x as int, y as int).rows);
    }

    /// An independent copy of the frame.
    pub fn duplicate(&self) -> (f: Frame)
        ensures
            f@ == self@,
            f.width == self.width,
            f.height == self.height,
    {
        let mut pixels: Vec<Vec<bool>> = Vec::new();
        let mut r: usize = 0;
        while r < self.pixels.len()
            invariant
                r <= self.pixels@.len(),
                pixels@.len() == r,
                forall|i: int| 0 <= i < r ==> (#[trigger] pixels@[i])@ == self.pixels@[i]@,
            decreases self.pixels@.len() - r,
        {
            pixels.push(copy_row(&self.pixels[r]));
            r = r + 1;
        }
        let f = Frame { width: self.width, height: self.height, pixels };
        assert(f@.rows =~= self@.rows);
        f
    }

    /// Whether two frames have the same size and the same pixels.
    pub fn same_as(&self, other: &Frame) -> (b: bool)
        ensures
            b == (self@ == other@),
    {
        if self.width != other.width || self.height != other.height || self.pixels.len()
            != other.pixels.len() {
            proof {
                if self.pixels@.len() != other.pixels@.len() {
                    assert(self@.rows.len() != other@.rows.len());
                }
            }
            return false;
        }
        let mut r: usize = 0;
        while r < self.pixels.len()
            invariant
                r <= self.pixels@.len(),
                self.pixels@.len() == other.pixels@.len(),
                forall|i: int| 0 <= i < r ==> (#[trigger] self.pixels@[i])@ == other.pixels@[i]@,
            decreases self.pixels@.len() - r,
        {
            if !same_row(&self.pixels[r], &other.pixels[r]) {
                proof {
                    assert(self@.rows[r as int] == self.pixels@[r as int]@);
                    assert(other@.rows[r as int] == other.pixels@[r as int]@);
                }
                return false;
            }
            r = r + 1;
        }
        assert(self@.rows =~= other@.rows);
        true
    }

    /// The rows of the frame.
    pub fn get_data(&self) -> (d: &Vec<Vec<bool>>)
        ensures
            *d == self.pixels,
    {
        &self.pixels
    }
}

/// The position in a sprite that lands on position `pos` of the frame when
/// the sprite is laid down at `offset`, if that position is not negative.
pub open spec fn shift_of(pos: int, offset: int) -> Option<usize> {
    if 0 <= pos - offset <= usize::MAX {
        Some((pos - offset) as usize)
    } else {
        None
    }
}

fn shifted(pos: usize, offset: i32) -> (r: Option<usize>)
    ensures
        r == shift_of(pos as int, offset as int),
{
    if offset >= 0 {
        let back: usize = offset as usize;
        if pos >= back {
            Some(pos - back)
        } else {
            None
        }
    } else {
        let wide: i64 = offset as i64;
        let forth: u64 = (0 - wide) as u64;
        pos.checked_add(forth as usize)
    }
}

/// An independent copy of a row.
pub fn copy_row(row: &Vec<bool>) -> (r: Vec<bool>)
    ensures
        r@ == row@,
{
    let mut line: Vec<bool> = Vec::new();
    let mut c: usize = 0;
    while c < row.len()
        invariant
            c <= row@.len(),
            line@ == row@.subrange(0, c as int),
        decreases row@.len() - c,
    {
        line.push(row[c]);
        assert(row@.subrange(0, c + 1) =~= row@.subrange(0, c as int).push(row@[c as int]));
        c = c + 1;
    }
    assert(row@.subrange(0, row@.len() as int) =~= row@);
    line
}

/// Whether two rows hold the same pixels.
pub fn same_row(a: &Vec<bool>, b: &Vec<bool>) -> (r: bool)
    ensures
        r == (a@ == b@),
{
    if a.len() != b.len() {
        return false;
    }
    let mut c: usize = 0;
    while c < a.len()
        invariant
            c <= a@.len(),
            a@.len() == b@.len(),
            forall|j: int| 0 <= j < c ==> a@[j] == b@[j],
        decreases a@.len() - c,
    {
        if a[c] != b[c] {
            return false;
        }
        c = c + 1;
    }
    assert(a@ =~= b@);
    true
}

/// What a pixel access outside the frame reports.
pub open spec fn out_of_bounds_message(f: FrameView, row: int, col: int) -> Seq<char> {
    "Pixel ("@ + decimal(row as nat) + ", "@ + decimal(col as nat) + ") is out of bounds for "@
        + decimal(f.width as nat) + "x"@ + decimal(f.height as nat) + " frame"@
}

/// A half turn: the pixel at `(r, c)` moves to `(height - 1 - r, width - 1 - c)`.
pub proof fn lemma_two_rotations(f: FrameView)
    requires
        f.wf(),
    ensures
        f.rotated().rotated().wf(),
        f.rotated().rotated().width == f.width,
        f.rotated().rotated().height == f.height,
        forall|r: int, c: int|
            0 <= r < f.height && 0 <= c < f.width ==> #[trigger] f.rotated().rotated().rows[r][c]
                == f.rows[f.height - 1 - r][f.width - 1 - c],
{
    let a = f.rotated();
    let b = a.rotated();
    assert forall|r: int, c: int| 0 <= r < f.height && 0 <= c < f.width implies #[trigger] b.rows[r][c]
        == f.rows[f.height - 1 - r][f.width - 1 - c] by {
        assert(b.rows[r][c] == a.rows[a.height - 1 - c][r]);
    }
}

/// Turning a frame a quarter clockwise four times gives the frame back.
pub proof fn law_four_rotations_restore(f: FrameView)
    requires
        f.wf(),
    ensures
        f.rotated().rotated().rotated().rotated() == f,
{
    let half = f.rotated().rotated();
    let full = half.rotated().rotated();
    lemma_two_rotations(f);
    lemma_two_rotations(half);
    assert forall|r: int| 0 <= r < f.height implies #[trigger] full.rows[r] =~= f.rows[r] by {
        assert forall|c: int| 0 <= c < f.width implies full.rows[r][c] == f.rows[r][c] by {
            assert(full.rows[r][c] == half.rows[f.height - 1 - r][f.width - 1 - c]);
        }
    }
    assert(full.rows =~= f.rows);
}

/// Construction from rows succeeds exactly on a non-empty list of equally
/// long rows.
pub proof fn law_construction(rows: Seq<Seq<bool>>)
    ensures
        rectangular(rows) <==> rows.len() > 0 && forall|r: int, q: int|
            0 <= r < rows.len() && 0 <= q < rows.len() ==> (#[trigger] rows[r]).len() == (
            #[trigger] rows[q]).len(),
{
    if rectangular(rows) {
        assert forall|r: int, q: int| 0 <= r < rows.len() && 0 <= q < rows.len() implies (
        #[trigger] rows[r]).len() == (#[trigger] rows[q]).len() by {
            assert(rows[r].len() == rows[0].len());
            assert(rows[q].len() == rows[0].len());
        }
    }
}

/// In a frame of at least 3 by 3, a cell away from every edge whose eight
/// neighbors are all on has a neighbor count of exactly 8.
pub proof fn law_interior_neighbors(f: FrameView, row: int, col: int)
    requires
        f.wf(),
        f.width >= 3,
        f.height >= 3,
        1 <= row < f.height - 1,
        1 <= col < f.width - 1,
        forall|r: int, c: int|
            row - 1 <= r <= row + 1 && col - 1 <= c <= col + 1 && !(r == row && c == col)
                ==> #[trigger] f.rows[r][c],
    ensures
        f.neighbors(row, col) == 8,
{
    assert(f.rows[row - 1][col - 1]);
    assert(f.rows[row - 1][col]);
    assert(f.rows[row - 1][col + 1]);
    assert(f.rows[row][col - 1]);
    assert(f.rows[row][col + 1]);
    assert(f.rows[row + 1][col - 1]);
    assert(f.rows[row + 1][col]);
    assert(f.rows[row + 1][col + 1]);
}

/// A corner cell has at most 3 neighbors that are on, whatever the frame holds.
pub proof fn law_corner_neighbors(f: FrameView, row: int, col: int)
    requires
        f.wf(),
        f.width >= 3,
        f.height >= 3,
        row == 0 || row == f.height - 1,
        col == 0 || col == f.width - 1,
    ensures
        0 <= f.neighbors(row, col) <= 3,
{
}

/// What `from_array` says of rows that are not a frame.
pub open spec fn ragged_message(rows: Seq<Seq<bool>>) -> Seq<char> {
    if rows.len() == 0 {
        "Frame cannot be empty"@
    } else {
        let r = first_ragged_row(rows);
        "Row "@ + decimal(r as nat) + " has length "@ + decimal(rows[r].len()) + " but expected "@
            + decimal(rows[0].len())
    }
}

} // verus!

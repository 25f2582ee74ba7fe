//! A rectangular grid of styled cells with bounded, mode-aware writes and
//! resize semantics.

use vstd::prelude::*;

use crate::character::{BlendMode, Character};
use crate::error::Error;

verus! {

/// The mathematical contents of a row buffer: each row as a sequence.
pub open spec fn grid_view(b: Seq<Vec<Character>>) -> Seq<Seq<Character>> {
    Seq::new(b.len(), |i: int| b[i]@)
}

/// Every row has the same length as the first (vacuously true of an empty
/// grid).
pub open spec fn rectangular(g: Seq<Seq<Character>>) -> bool {
    forall|i: int| 0 <= i < g.len() ==> (#[trigger] g[i].len()) == g[0].len()
}

/// A rectangular grid of cells. The standing invariant [`Canvas::wf`] is
/// that every row has identical length; constructors establish it and every
/// mutation preserves it.
#[derive(Debug)]
pub struct Canvas {
    buffer: Vec<Vec<Character>>,
}

impl View for Canvas {
    type V = Seq<Seq<Character>>;

    closed spec fn view(&self) -> Seq<Seq<Character>> {
        grid_view(self.buffer@)
    }
}

impl Canvas {
    pub open spec fn wf(&self) -> bool {
        rectangular(self@)
    }

    pub open spec fn spec_height(&self) -> nat {
        self@.len()
    }

    /// The width of the grid; an empty grid has width zero.
    pub open spec fn spec_width(&self) -> nat {
        if self@.len() == 0 {
            0
        } else {
            self@[0].len()
        }
    }

    /// Whether a `(x, y)` point addresses a cell of the grid.
    pub open spec fn spec_in_bounds(&self, point: (usize, usize)) -> bool {
        point.0 < self.spec_width() && point.1 < self.spec_height()
    }

    /// The grid that a resize to `width` x `height` produces: cells inside
    /// the old extent are copied, every other position gets the default
    /// cell.
    pub open spec fn resize_spec(g: Seq<Seq<Character>>, width: nat, height: nat) -> Seq<
        Seq<Character>,
    > {
        Seq::new(
            height,
            |r: int|
                Seq::new(
                    width as nat,
                    |c: int|
                        if r < g.len() && c < g[r].len() {
                            g[r][c]
                        } else {
                            Character::default_spec()
                        },
                ),
        )
    }

    /// Adopt an externally built buffer. Fails with
    /// [`Error::NonRectangularBuffer`] exactly when two rows differ in
    /// length; never pads or truncates.
    pub fn new_with_buffer(buffer: Vec<Vec<Character>>) -> (r: Result<Self, Error>)
        ensures
            r is Ok <==> rectangular(grid_view(buffer@)),
            r matches Ok(c) ==> c@ == grid_view(buffer@),
            r is Err ==> r == Result::<Self, Error>::Err(Error::NonRectangularBuffer),
    {
        if buffer.len() == 0 {
            let c = Self { buffer };
            assert(c@ =~= grid_view(c.buffer@));
            return Ok(c);
        }
        let width = buffer[0].len();
        let mut i: usize = 1;
        while i < buffer.len()
            invariant
                1 <= i <= buffer.len(),
                width == buffer@[0]@.len(),
                forall|j: int| 0 <= j < i ==> (#[trigger] buffer@[j]@.len()) == width,
            decreases buffer.len() - i,
        {
            if buffer[i].len() != width {
                proof {
                    assert(grid_view(buffer@)[i as int].len() != grid_view(buffer@)[0].len());
                }
                return Err(Error::NonRectangularBuffer);
            }
            i += 1;
        }
        Ok(Self { buffer })
    }

    /// A `width` x `height` grid with every cell equal to `character`.
    pub fn new_filled(width: usize, height: usize, character: Character) -> (r: Self)
        ensures
            r.wf(),
            r.spec_height() == height,
            height > 0 ==> r.spec_width() == width,
            forall|y: int, x: int|
                0 <= y < height && 0 <= x < width ==> r@[y][x] == character,
            forall|y: int| 0 <= y < height ==> (#[trigger] r@[y].len()) == width,
    {
        let mut buffer: Vec<Vec<Character>> = Vec::new();
        let mut y: usize = 0;
        while y < height
            invariant
                y <= height,
                buffer@.len() == y,
                forall|i: int| 0 <= i < y ==> (#[trigger] buffer@[i]@.len()) == width,
                forall|i: int, j: int|
                    0 <= i < y && 0 <= j < width ==> buffer@[i]@[j] == character,
            decreases height - y,
        {
            let mut row: Vec<Character> = Vec::new();
            let mut x: usize = 0;
            while x < width
                invariant
                    x <= width,
                    row@.len() == x,
                    forall|j: int| 0 <= j < x ==> row@[j] == character,
                decreases width - x,
            {
                row.push(character);
                x += 1;
            }
            buffer.push(row);
            y += 1;
        }
        Self { buffer }
    }

    /// A `width` x `height` grid of default cells.
    pub fn new(width: usize, height: usize) -> (r: Self)
        ensures
            r.wf(),
            r.spec_height() == height,
            height > 0 ==> r.spec_width() == width,
            forall|y: int, x: int|
                0 <= y < height && 0 <= x < width ==> r@[y][x] == Character::default_spec(),
            forall|y: int| 0 <= y < height ==> (#[trigger] r@[y].len()) == width,
    {
        Self::new_filled(width, height, Character::default())
    }

    /// The rows of the grid.
    pub fn buffer(&self) -> (r: &Vec<Vec<Character>>)
        ensures
            grid_view(r@) == self@,
    {
        &self.buffer
    }

    /// The length of the first row. Callers must guarantee at least one
    /// row.
    pub fn width(&self) -> (r: usize)
        requires
            self.spec_height() > 0,
        ensures
            r == self.spec_width(),
    {
        self.buffer[0].len()
    }

    /// The number of rows.
    pub fn height(&self) -> (r: usize)
        ensures
            r == self.spec_height(),
    {
        self.buffer.len()
    }

    /// Resize to `width` x `height`: cells inside the old extent are kept,
    /// every other position becomes the default cell.
    pub fn resize(&mut self, width: usize, height: usize)
        ensures
            final(self).wf(),
            final(self)@ == Canvas::resize_spec(old(self)@, width as nat, height as nat),
            final(self).spec_height() == height,
            height > 0 ==> final(self).spec_width() == width,
    {
        let mut rows: Vec<Vec<Character>> = Vec::new();
        let mut y: usize = 0;
        while y < height
            invariant
                y <= height,
                rows@.len() == y,
                forall|i: int|
                    0 <= i < y ==> (#[trigger] rows@[i]@) == Canvas::resize_spec(
                        self@,
                        width as nat,
                        height as nat,
                    )[i],
            decreases height - y,
        {
            let mut row: Vec<Character> = Vec::new();
            let mut x: usize = 0;
            while x < width
                invariant
                    x <= width,
                    y < height,
                    row@.len() == x,
                    forall|j: int|
                        0 <= j < x ==> (#[trigger] row@[j]) == Canvas::resize_spec(
                            self@,
                            width as nat,
                            height as nat,
                        )[y as int][j],
                decreases width - x,
            {
                let cell = if y < self.buffer.len() && x < self.buffer[y].len() {
                    self.buffer[y][x]
                } else {
                    Character::default()
                };
                row.push(cell);
                x += 1;
            }
            rows.push(row);
            y += 1;
        }
        self.buffer = rows;
        proof {
            assert(self@ =~= Canvas::resize_spec(old(self)@, width as nat, height as nat));
        }
    }

    /// Replace the whole buffer. The caller guarantees rectangularity; the
    /// exchange is otherwise unconditional.
    pub fn load(&mut self, buffer: Vec<Vec<Character>>)
        requires
            rectangular(grid_view(buffer@)),
        ensures
            final(self).wf(),
            final(self)@ == grid_view(buffer@),
    {
        self.buffer = buffer;
    }

    /// Blend a cell into position `point` = `(x, y)`. A point outside the
    /// grid is a silent no-op, never an error: drawing may be called
    /// liberally without bounds pre-checks.
    pub fn draw_character(&mut self, point: (usize, usize), character: &Character, mode: BlendMode)
        requires
            old(self).wf(),
        ensures
            final(self).wf(),
            old(self).spec_in_bounds(point) ==> final(self)@ == old(self)@.update(
                point.1 as int,
                old(self)@[point.1 as int].update(
                    point.0 as int,
                    Character::blend_spec(
                        old(self)@[point.1 as int][point.0 as int],
                        *character,
                        mode,
                    ),
                ),
            ),
            !old(self).spec_in_bounds(point) ==> final(self)@ == old(self)@,
    {
        let (x, y) = point;
        if y < self.buffer.len() {
            let row_len = self.buffer[y].len();
            if x < row_len {
                let mut cell = self.buffer[y][x];
                cell.blend(character, mode);
                let row = &mut self.buffer[y];
                row[x] = cell;
                proof {
                    assert(self@ =~= old(self)@.update(
                        y as int,
                        old(self)@[y as int].update(
                            x as int,
                            Character::blend_spec(old(self)@[y as int][x as int], *character, mode),
                        ),
                    ));
                }
            }
        }
        proof {
            if !old(self).spec_in_bounds(point) {
                assert(self@ =~= old(self)@);
            }
        }
    }
}

/// Shrinking after growing is lossless for the retained region: resizing to
/// `(w2, h2)` and then to `(w, h)` with `w <= w2` and `h <= h2` produces the
/// same grid as resizing to `(w, h)` directly — the original top-left
/// `w` x `h` sub-grid, with default cells at every position the original
/// grid did not cover.
pub proof fn lemma_resize_twice_restores(
    g: Seq<Seq<Character>>,
    w: nat,
    h: nat,
    w2: nat,
    h2: nat,
)
    requires
        w <= w2,
        h <= h2,
    ensures
        Canvas::resize_spec(Canvas::resize_spec(g, w2, h2), w, h) == Canvas::resize_spec(g, w, h),
{
    let mid = Canvas::resize_spec(g, w2, h2);
    let lhs = Canvas::resize_spec(mid, w, h);
    let rhs = Canvas::resize_spec(g, w, h);
    assert forall|r: int, c: int| 0 <= r < h && 0 <= c < w implies lhs[r][c] == rhs[r][c] by {
        assert(mid[r].len() == w2);
    }
    assert(lhs =~~= rhs);
}

} // verus!

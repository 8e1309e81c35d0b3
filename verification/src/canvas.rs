use vstd::prelude::*;
use crate::canvas_pixel::CanvasPixel;
use crate::color::Color;

verus! {

/// Playfield width in cells, the two wall columns included.
pub const CANVAS_WIDTH: i32 = 12;
/// Playfield height in cells, the floor row included.
pub const CANVAS_HEIGHT: i32 = 22;
/// Column where every piece's anchor starts.
pub const INIT_COORDINATE_X: i32 = 5;
/// Row where every piece's anchor starts: one row above the visible field.
pub const INIT_COORDINATE_Y: i32 = -1;

/// The playfield: `CANVAS_HEIGHT` rows of `CANVAS_WIDTH` cells. The leftmost
/// and rightmost columns and the bottom row are walls, permanently occupied;
/// interior cells hold locked pieces and the marks of the falling piece.
pub struct Canvas {
    pub pixels: Vec<Vec<CanvasPixel>>,
}

/// The pixel written when a cell is marked (`occupied` true) or blanked
/// (`occupied` false) by the engine.
pub open spec fn mark_pixel(x: int, y: int, occupied: bool) -> CanvasPixel {
    CanvasPixel { color: Color::Green, occupied, x: x as i32, y: y as i32 }
}

/// Whether every interior cell of the given row is occupied (the wall
/// columns do not count).
#[verifier::opaque]
pub open spec fn row_full(row: Seq<CanvasPixel>) -> bool {
    forall|x: int| 1 <= x <= CANVAS_WIDTH - 2 ==> (#[trigger] row[x]).occupied
}

/// Number of full rows with index in `[y, CANVAS_HEIGHT - 2]`; the floor row
/// is a wall and is never counted.
pub open spec fn full_count_from(g: Seq<Seq<CanvasPixel>>, y: int) -> nat
    decreases CANVAS_HEIGHT - 1 - y,
{
    if y >= CANVAS_HEIGHT - 1 {
        0
    } else {
        full_count_from(g, y + 1) + (if row_full(g[y]) {
            1nat
        } else {
            0nat
        })
    }
}

/// The count of full rows over a range is at most the range's length, and
/// counting over a smaller range gives no more.
pub proof fn lemma_full_count_range(g: Seq<Seq<CanvasPixel>>, a: int, b: int)
    requires
        a <= b <= CANVAS_HEIGHT - 1,
    ensures
        full_count_from(g, b) <= full_count_from(g, a),
        full_count_from(g, a) - full_count_from(g, b) <= b - a,
    decreases b - a,
{
    if a < b {
        lemma_full_count_range(g, a + 1, b);
    }
}

/// A non-full row's destination under compaction (its index plus the count
/// of full rows beneath it) is no smaller than any lower row's destination.
pub proof fn lemma_dest_monotone(g: Seq<Seq<CanvasPixel>>, a: int, r: int)
    requires
        a <= r <= CANVAS_HEIGHT - 2,
        !row_full(g[r]),
    ensures
        a + full_count_from(g, a) <= r + full_count_from(g, r + 1),
    decreases r - a,
{
    if a < r {
        lemma_dest_monotone(g, a + 1, r);
    }
}

/// Over a range with no full row the count is zero.
pub proof fn lemma_count_none_full(g: Seq<Seq<CanvasPixel>>, a: int)
    requires
        0 <= a,
        forall|y: int| a <= y < CANVAS_HEIGHT - 1 ==> !row_full(#[trigger] g[y]),
    ensures
        full_count_from(g, a) == 0,
    decreases CANVAS_HEIGHT - a,
{
    if a < CANVAS_HEIGHT - 1 {
        lemma_count_none_full(g, a + 1);
    }
}

/// Over a range whose only full row is `y0` the count is one.
pub proof fn lemma_count_single_full(g: Seq<Seq<CanvasPixel>>, a: int, y0: int)
    requires
        0 <= a <= y0 < CANVAS_HEIGHT - 1,
        row_full(g[y0]),
        forall|y: int| a <= y < CANVAS_HEIGHT - 1 && y != y0 ==> !row_full(#[trigger] g[y]),
    ensures
        full_count_from(g, a) == 1,
    decreases y0 - a,
{
    if a < y0 {
        lemma_count_single_full(g, a + 1, y0);
    } else {
        lemma_count_none_full(g, y0 + 1);
    }
}

/// Law: clearing a playfield whose only full interior row is `y0` clears
/// exactly that one row; every row above it falls by one with its occupancy
/// and colors kept, every row beneath it stays where it was — a row with
/// even one empty interior cell is never cleared — and the top row is left
/// empty.
pub proof fn lemma_clear_single_row(
    g0: Seq<Seq<CanvasPixel>>,
    g1: Seq<Seq<CanvasPixel>>,
    y0: int,
    lines: int,
)
    requires
        clear_post(g0, g1, lines),
        0 <= y0 < CANVAS_HEIGHT - 1,
        row_full(g0[y0]),
        forall|y: int| 0 <= y < CANVAS_HEIGHT - 1 && y != y0 ==> !row_full(#[trigger] g0[y]),
    ensures
        lines == 1,
        forall|y: int, x: int|
            0 <= y < y0 && 1 <= x <= CANVAS_WIDTH - 2 ==> g1[y + 1][x].occupied == (
            #[trigger] g0[y][x]).occupied && g1[y + 1][x].color == g0[y][x].color,
        forall|y: int, x: int|
            y0 < y < CANVAS_HEIGHT - 1 && 1 <= x <= CANVAS_WIDTH - 2 ==> g1[y][x].occupied == (
            #[trigger] g0[y][x]).occupied && g1[y][x].color == g0[y][x].color,
        forall|x: int| 1 <= x <= CANVAS_WIDTH - 2 ==> !(#[trigger] g1[0][x]).occupied,
{
    lemma_count_single_full(g0, 0, y0);
    assert forall|y: int, x: int|
        0 <= y < y0 && 1 <= x <= CANVAS_WIDTH - 2 implies g1[y + 1][x].occupied == (
    #[trigger] g0[y][x]).occupied && g1[y + 1][x].color == g0[y][x].color by {
        lemma_count_single_full(g0, y + 1, y0);
    }
    assert forall|y: int, x: int|
        y0 < y < CANVAS_HEIGHT - 1 && 1 <= x <= CANVAS_WIDTH - 2 implies g1[y][x].occupied == (
    #[trigger] g0[y][x]).occupied && g1[y][x].color == g0[y][x].color by {
        lemma_count_none_full(g0, y + 1);
    }
}

/// How clearing changes the playfield: `lines` is the number of full
/// interior rows; every non-full row keeps its interior occupancy and colors,
/// shifted down by the number of full rows beneath it; the topmost `lines`
/// rows are emptied; the floor row and the wall columns do not change.
pub open spec fn clear_post(g0: Seq<Seq<CanvasPixel>>, g1: Seq<Seq<CanvasPixel>>, lines: int) -> bool {
    &&& lines == full_count_from(g0, 0)
    &&& g1.len() == g0.len()
    &&& g1[CANVAS_HEIGHT - 1] == g0[CANVAS_HEIGHT - 1]
    &&& forall|y: int|
        0 <= y < CANVAS_HEIGHT ==> (#[trigger] g1[y])[0] == g0[y][0] && g1[y][CANVAS_WIDTH - 1]
            == g0[y][CANVAS_WIDTH - 1]
    &&& forall|y: int, x: int|
        0 <= y < CANVAS_HEIGHT - 1 && 1 <= x <= CANVAS_WIDTH - 2 && !row_full(g0[y]) ==> {
            let ny = y + full_count_from(g0, y + 1);
            g1[ny][x].occupied == (#[trigger] g0[y][x]).occupied && g1[ny][x].color
                == g0[y][x].color
        }
    &&& forall|y: int, x: int|
        0 <= y < lines && 1 <= x <= CANVAS_WIDTH - 2 ==> (#[trigger] g1[y][x]) == mark_pixel(
            x,
            y,
            false,
        )
}

impl Canvas {
    /// The playfield as a sequence of rows of cells.
    pub open spec fn grid(self) -> Seq<Seq<CanvasPixel>> {
        self.pixels@.map_values(|row: Vec<CanvasPixel>| row@)
    }

    /// Occupancy of the cell at column `x`, row `y`.
    pub open spec fn occ(self, x: int, y: int) -> bool {
        self.grid()[y][x].occupied
    }

    /// Whether `(x, y)` lies inside the playfield, walls included.
    pub open spec fn in_bounds(x: int, y: int) -> bool {
        &&& 0 <= x < CANVAS_WIDTH as int
        &&& 0 <= y < CANVAS_HEIGHT as int
    }

    /// Whether `(x, y)` is a wall column or the floor row.
    pub open spec fn is_border(x: int, y: int) -> bool {
        ||| x == 0
        ||| x == CANVAS_WIDTH as int - 1
        ||| y == CANVAS_HEIGHT as int - 1
    }

    /// Well-formedness: full dimensions, every cell records its own
    /// coordinates, and every border cell is occupied.
    pub open spec fn wf(self) -> bool {
        &&& self.grid().len() == CANVAS_HEIGHT as int
        &&& forall|y: int|
            0 <= y < CANVAS_HEIGHT as int ==> (#[trigger] self.grid()[y]).len()
                == CANVAS_WIDTH as int
        &&& forall|x: int, y: int|
            Self::in_bounds(x, y) ==> (#[trigger] self.grid()[y][x]).x == x
                && self.grid()[y][x].y == y
        &&& forall|x: int, y: int|
            Self::in_bounds(x, y) && Self::is_border(x, y) ==> (#[trigger] self.grid()[y][x]).occupied
    }

    /// A fresh playfield: borders occupied and red, interior empty and green.
    pub fn new() -> (r: Canvas)
        ensures
            r.wf(),
            forall|x: int, y: int|
                Canvas::in_bounds(x, y) && !Canvas::is_border(x, y) ==> !(#[trigger] r.occ(x, y)),
    {
        let mut pixels: Vec<Vec<CanvasPixel>> = Vec::new();
        let mut i: i32 = 0;
        while i < CANVAS_HEIGHT
            invariant
                0 <= i <= CANVAS_HEIGHT,
                pixels@.len() == i,
                forall|y: int| 0 <= y < i ==> (#[trigger] pixels@[y])@.len() == CANVAS_WIDTH as int,
                forall|x: int, y: int|
                    0 <= y < i && 0 <= x < CANVAS_WIDTH as int ==> {
                        let p = #[trigger] pixels@[y]@[x];
                        &&& p.x == x
                        &&& p.y == y
                        &&& p.occupied == Canvas::is_border(x, y)
                        &&& p.color == (if Canvas::is_border(x, y) {
                            Color::Red
                        } else {
                            Color::Green
                        })
                    },
            decreases CANVAS_HEIGHT - i,
        {
            let mut row: Vec<CanvasPixel> = Vec::new();
            let mut j: i32 = 0;
            while j < CANVAS_WIDTH
                invariant
                    0 <= i < CANVAS_HEIGHT,
                    0 <= j <= CANVAS_WIDTH,
                    row@.len() == j,
                    forall|x: int|
                        0 <= x < j ==> {
                            let p = #[trigger] row@[x];
                            &&& p.x == x
                            &&& p.y == i
                            &&& p.occupied == Canvas::is_border(x, i as int)
                            &&& p.color == (if Canvas::is_border(x, i as int) {
                                Color::Red
                            } else {
                                Color::Green
                            })
                        },
                decreases CANVAS_WIDTH - j,
            {
                if i == CANVAS_HEIGHT - 1 || j == 0 || j == CANVAS_WIDTH - 1 {
                    row.push(CanvasPixel { color: Color::Red, occupied: true, x: j, y: i });
                } else {
                    row.push(CanvasPixel { color: Color::Green, occupied: false, x: j, y: i });
                }
                j = j + 1;
            }
            pixels.push(row);
            i = i + 1;
        }
        Canvas { pixels }
    }

    /// Write a pixel with the given color and occupancy at interior-or-top
    /// cell `(x, y)`; every other cell keeps its value.
    pub fn write_cell(&mut self, x: i32, y: i32, color: Color, occupied: bool)
        requires
            old(self).wf(),
            1 <= x <= CANVAS_WIDTH - 2,
            0 <= y <= CANVAS_HEIGHT - 2,
        ensures
            final(self).wf(),
            final(self).grid() == old(self).grid().update(
                y as int,
                old(self).grid()[y as int].update(
                    x as int,
                    CanvasPixel { color, occupied, x, y },
                ),
            ),
    {
        let p = CanvasPixel { color, occupied, x, y };
        proof {
            assert(self.pixels@.len() == self.grid().len());
            assert(self.pixels@[y as int]@ == self.grid()[y as int]);
        }
        self.pixels[y as usize][x as usize] = p;
        proof {
            assert(self.grid() =~~= old(self).grid().update(
                y as int,
                old(self).grid()[y as int].update(x as int, p),
            ));
        }
    }

    /// Write the mark or blank pixel at interior-or-top cell `(x, y)`;
    /// every other cell keeps its value.
    pub fn set_cell(&mut self, x: i32, y: i32, occupied: bool)
        requires
            old(self).wf(),
            1 <= x <= CANVAS_WIDTH - 2,
            0 <= y <= CANVAS_HEIGHT - 2,
        ensures
            final(self).wf(),
            final(self).grid() == old(self).grid().update(
                y as int,
                old(self).grid()[y as int].update(x as int, mark_pixel(x as int, y as int, occupied)),
            ),
    {
        self.write_cell(x, y, Color::Green, occupied)
    }

    /// Read the cell at `(x, y)`.
    pub fn pixel_at(&self, x: i32, y: i32) -> (r: CanvasPixel)
        requires
            self.wf(),
            Canvas::in_bounds(x as int, y as int),
        ensures
            r == self.grid()[y as int][x as int],
    {
        self.pixels[y as usize][x as usize]
    }

    /// Empty every interior cell above the floor; the borders stay occupied.
    pub fn clear_all(&mut self)
        requires
            old(self).wf(),
        ensures
            final(self).wf(),
            forall|x: int, y: int|
                Canvas::in_bounds(x, y) && !Canvas::is_border(x, y) ==> (
                #[trigger] final(self).grid()[y][x]) == mark_pixel(x, y, false),
            forall|x: int, y: int|
                Canvas::in_bounds(x, y) && Canvas::is_border(x, y) ==> (
                #[trigger] final(self).grid()[y][x]) == old(self).grid()[y][x],
    {
        let mut y: i32 = 0;
        while y < CANVAS_HEIGHT - 1
            invariant
                old(self).wf(),
                self.wf(),
                0 <= y <= CANVAS_HEIGHT - 1,
                forall|xx: int, yy: int|
                    Canvas::in_bounds(xx, yy) && !Canvas::is_border(xx, yy) && yy < y ==> (
                    #[trigger] self.grid()[yy][xx]) == mark_pixel(xx, yy, false),
                forall|xx: int, yy: int|
                    Canvas::in_bounds(xx, yy) && (Canvas::is_border(xx, yy) || yy >= y) ==> (
                    #[trigger] self.grid()[yy][xx]) == old(self).grid()[yy][xx],
            decreases CANVAS_HEIGHT - 1 - y,
        {
            let mut x: i32 = 1;
            while x < CANVAS_WIDTH - 1
                invariant
                    old(self).wf(),
                    self.wf(),
                    0 <= y < CANVAS_HEIGHT - 1,
                    1 <= x <= CANVAS_WIDTH - 1,
                    forall|xx: int, yy: int|
                        Canvas::in_bounds(xx, yy) && !Canvas::is_border(xx, yy) && (yy < y || (yy
                            == y && xx < x)) ==> (#[trigger] self.grid()[yy][xx]) == mark_pixel(
                            xx,
                            yy,
                            false,
                        ),
                    forall|xx: int, yy: int|
                        Canvas::in_bounds(xx, yy) && (Canvas::is_border(xx, yy) || yy > y || (yy
                            == y && xx >= x)) ==> (#[trigger] self.grid()[yy][xx]) == old(
                            self,
                        ).grid()[yy][xx],
                decreases CANVAS_WIDTH - 1 - x,
            {
                self.set_cell(x, y, false);
                x = x + 1;
            }
            y = y + 1;
        }
    }

    /// Read-only copy of the playfield for the presentation layer.
    pub fn render_snapshot(&self) -> (r: Canvas)
        requires
            self.wf(),
        ensures
            r.grid() == self.grid(),
            r.wf(),
    {
        let mut pixels: Vec<Vec<CanvasPixel>> = Vec::new();
        let mut y: usize = 0;
        while y < self.pixels.len()
            invariant
                self.wf(),
                0 <= y <= self.pixels@.len(),
                pixels@.len() == y,
                forall|yy: int| 0 <= yy < y ==> (#[trigger] pixels@[yy])@ == self.grid()[yy],
            decreases self.pixels@.len() - y,
        {
            let src = &self.pixels[y];
            let mut row: Vec<CanvasPixel> = Vec::new();
            let mut x: usize = 0;
            while x < src.len()
                invariant
                    0 <= x <= src@.len(),
                    row@.len() == x,
                    forall|xx: int| 0 <= xx < x ==> (#[trigger] row@[xx]) == src@[xx],
                decreases src@.len() - x,
            {
                row.push(src[x]);
                x = x + 1;
            }
            proof {
                assert(row@ =~= src@);
            }
            pixels.push(row);
            y = y + 1;
        }
        let r = Canvas { pixels };
        proof {
            assert(r.grid() =~~= self.grid());
        }
        r
    }

    /// Whether every interior cell of row `y` is occupied.
    fn row_is_full(&self, y: i32) -> (r: bool)
        requires
            self.wf(),
            0 <= y <= CANVAS_HEIGHT - 2,
        ensures
            r == row_full(self.grid()[y as int]),
    {
        proof {
            reveal(row_full);
        }
        let mut x: i32 = 1;
        while x < CANVAS_WIDTH - 1
            invariant
                self.wf(),
                0 <= y <= CANVAS_HEIGHT - 2,
                1 <= x <= CANVAS_WIDTH - 1,
                forall|xx: int| 1 <= xx < x ==> (#[trigger] self.grid()[y as int][xx]).occupied,
            decreases CANVAS_WIDTH - 1 - x,
        {
            if !self.pixel_at(x, y).occupied {
                proof {
                    reveal(row_full);
                }
                return false;
            }
            x = x + 1;
        }
        true
    }

    /// Copy the interior occupancy and colors of row `src` onto row `dst`;
    /// every cell outside row `dst`'s interior keeps its value.
    fn copy_row_interior(&mut self, src: i32, dst: i32)
        requires
            old(self).wf(),
            0 <= src <= CANVAS_HEIGHT - 2,
            0 <= dst <= CANVAS_HEIGHT - 2,
        ensures
            final(self).wf(),
            final(self).grid().len() == old(self).grid().len(),
            forall|y: int|
                0 <= y < CANVAS_HEIGHT && y != dst ==> (#[trigger] final(self).grid()[y]) == old(
                    self,
                ).grid()[y],
            final(self).grid()[dst as int][0] == old(self).grid()[dst as int][0],
            final(self).grid()[dst as int][CANVAS_WIDTH - 1] == old(self).grid()[dst as int][
                CANVAS_WIDTH - 1],
            forall|x: int|
                1 <= x <= CANVAS_WIDTH - 2 ==> (#[trigger] final(self).grid()[dst as int][x]).occupied
                    == old(self).grid()[src as int][x].occupied && final(self).grid()[dst as int][
                    x].color == old(self).grid()[src as int][x].color,
    {
        let mut x: i32 = 1;
        while x < CANVAS_WIDTH - 1
            invariant
                old(self).wf(),
                self.wf(),
                0 <= src <= CANVAS_HEIGHT - 2,
                0 <= dst <= CANVAS_HEIGHT - 2,
                1 <= x <= CANVAS_WIDTH - 1,
                self.grid().len() == old(self).grid().len(),
                forall|y: int|
                    0 <= y < CANVAS_HEIGHT && y != dst ==> (#[trigger] self.grid()[y]) == old(
                        self,
                    ).grid()[y],
                self.grid()[dst as int][0] == old(self).grid()[dst as int][0],
                self.grid()[dst as int][CANVAS_WIDTH - 1] == old(self).grid()[dst as int][
                    CANVAS_WIDTH - 1],
                forall|xx: int|
                    1 <= xx < x ==> (#[trigger] self.grid()[dst as int][xx]).occupied == old(
                        self,
                    ).grid()[src as int][xx].occupied && self.grid()[dst as int][xx].color == old(
                        self,
                    ).grid()[src as int][xx].color,
                forall|xx: int|
                    x <= xx <= CANVAS_WIDTH - 2 ==> (#[trigger] self.grid()[dst as int][xx]) == old(
                        self,
                    ).grid()[dst as int][xx],
            decreases CANVAS_WIDTH - 1 - x,
        {
            proof {
                if src != dst {
                    assert(self.grid()[src as int] == old(self).grid()[src as int]);
                }
            }
            let p = self.pixel_at(x, src);
            self.write_cell(x, dst, p.color, p.occupied);
            x = x + 1;
        }
    }

    /// Blank the interior of row `y`; every other cell keeps its value.
    fn clear_row_interior(&mut self, y: i32)
        requires
            old(self).wf(),
            0 <= y <= CANVAS_HEIGHT - 2,
        ensures
            final(self).wf(),
            final(self).grid().len() == old(self).grid().len(),
            forall|r: int|
                0 <= r < CANVAS_HEIGHT && r != y ==> (#[trigger] final(self).grid()[r]) == old(
                    self,
                ).grid()[r],
            final(self).grid()[y as int][0] == old(self).grid()[y as int][0],
            final(self).grid()[y as int][CANVAS_WIDTH - 1] == old(self).grid()[y as int][
                CANVAS_WIDTH - 1],
            forall|x: int|
                1 <= x <= CANVAS_WIDTH - 2 ==> (#[trigger] final(self).grid()[y as int][x])
                    == mark_pixel(x, y as int, false),
    {
        let mut x: i32 = 1;
        while x < CANVAS_WIDTH - 1
            invariant
                old(self).wf(),
                self.wf(),
                0 <= y <= CANVAS_HEIGHT - 2,
                1 <= x <= CANVAS_WIDTH - 1,
                self.grid().len() == old(self).grid().len(),
                forall|r: int|
                    0 <= r < CANVAS_HEIGHT && r != y ==> (#[trigger] self.grid()[r]) == old(
                        self,
                    ).grid()[r],
                self.grid()[y as int][0] == old(self).grid()[y as int][0],
                self.grid()[y as int][CANVAS_WIDTH - 1] == old(self).grid()[y as int][CANVAS_WIDTH
                    - 1],
                forall|xx: int|
                    1 <= xx < x ==> (#[trigger] self.grid()[y as int][xx]) == mark_pixel(
                        xx,
                        y as int,
                        false,
                    ),
                forall|xx: int|
                    x <= xx <= CANVAS_WIDTH - 2 ==> (#[trigger] self.grid()[y as int][xx]) == old(
                        self,
                    ).grid()[y as int][xx],
            decreases CANVAS_WIDTH - 1 - x,
        {
            self.set_cell(x, y, false);
            x = x + 1;
        }
    }

    /// Clear every full interior row and let the rows above it fall by the
    /// number of cleared rows beneath them; returns how many rows were
    /// cleared. The walls and the floor stay as they are.
    #[verifier::rlimit(100)]
    pub fn clear_full_lines(&mut self) -> (lines: usize)
        requires
            old(self).wf(),
        ensures
            final(self).wf(),
            clear_post(old(self).grid(), final(self).grid(), lines as int),
    {
        let ghost g0 = self.grid();
        let mut w: i32 = CANVAS_HEIGHT - 1;
        let mut y: i32 = CANVAS_HEIGHT - 1;
        while y > 0
            invariant
                self.wf(),
                0 <= y <= CANVAS_HEIGHT - 1,
                y <= w <= CANVAS_HEIGHT - 1,
                w == y + full_count_from(g0, y as int),
                self.grid().len() == g0.len(),
                g0.len() == CANVAS_HEIGHT as int,
                forall|r: int| 0 <= r < CANVAS_HEIGHT ==> (#[trigger] g0[r]).len() == CANVAS_WIDTH as int,
                forall|r: int| 0 <= r < w ==> (#[trigger] self.grid()[r]) == g0[r],
                self.grid()[CANVAS_HEIGHT - 1] == g0[CANVAS_HEIGHT - 1],
                forall|r: int|
                    0 <= r < CANVAS_HEIGHT ==> (#[trigger] self.grid()[r])[0] == g0[r][0]
                        && self.grid()[r][CANVAS_WIDTH - 1] == g0[r][CANVAS_WIDTH - 1],
                forall|r: int, x: int|
                    y <= r < CANVAS_HEIGHT - 1 && 1 <= x <= CANVAS_WIDTH - 2 && !row_full(g0[r])
                        ==> {
                        let nr = r + full_count_from(g0, r + 1);
                        self.grid()[nr][x].occupied == (#[trigger] g0[r][x]).occupied
                            && self.grid()[nr][x].color == g0[r][x].color
                    },
            decreases y,
        {
            let row = y - 1;
            proof {
                assert(self.grid()[row as int] == g0[row as int]);
                lemma_full_count_range(g0, row as int, CANVAS_HEIGHT - 1);
            }
            let full = self.row_is_full(row);
            if full {
                y = y - 1;
            } else {
                self.copy_row_interior(row, w - 1);
                proof {
                    assert forall|r: int, x: int|
                        row <= r < CANVAS_HEIGHT - 1 && 1 <= x <= CANVAS_WIDTH - 2 && !row_full(
                            g0[r],
                        ) implies {
                        let nr = r + full_count_from(g0, r + 1);
                        self.grid()[nr][x].occupied == (#[trigger] g0[r][x]).occupied
                            && self.grid()[nr][x].color == g0[r][x].color
                    } by {
                        lemma_full_count_range(g0, r + 1, CANVAS_HEIGHT - 1);
                        if r > row {
                            lemma_dest_monotone(g0, row as int + 1, r);
                        }
                    }
                }
                w = w - 1;
                y = y - 1;
            }
        }
        let lines = w;
        let mut z: i32 = 0;
        while z < lines
            invariant
                self.wf(),
                0 <= z <= lines <= CANVAS_HEIGHT - 1,
                lines == full_count_from(g0, 0),
                self.grid().len() == g0.len(),
                g0.len() == CANVAS_HEIGHT as int,
                forall|r: int| 0 <= r < CANVAS_HEIGHT ==> (#[trigger] g0[r]).len() == CANVAS_WIDTH as int,
                self.grid()[CANVAS_HEIGHT - 1] == g0[CANVAS_HEIGHT - 1],
                forall|r: int|
                    0 <= r < CANVAS_HEIGHT ==> (#[trigger] self.grid()[r])[0] == g0[r][0]
                        && self.grid()[r][CANVAS_WIDTH - 1] == g0[r][CANVAS_WIDTH - 1],
                forall|r: int, x: int|
                    0 <= r < CANVAS_HEIGHT - 1 && 1 <= x <= CANVAS_WIDTH - 2 && !row_full(g0[r])
                        ==> {
                        let nr = r + full_count_from(g0, r + 1);
                        self.grid()[nr][x].occupied == (#[trigger] g0[r][x]).occupied
                            && self.grid()[nr][x].color == g0[r][x].color
                    },
                forall|r: int, x: int|
                    0 <= r < z && 1 <= x <= CANVAS_WIDTH - 2 ==> (#[trigger] self.grid()[r][x])
                        == mark_pixel(x, r, false),
            decreases lines - z,
        {
            self.clear_row_interior(z);
            z = z + 1;
            proof {
                assert forall|r: int, x: int|
                    0 <= r < CANVAS_HEIGHT - 1 && 1 <= x <= CANVAS_WIDTH - 2 && !row_full(g0[r])
                        implies {
                    let nr = r + full_count_from(g0, r + 1);
                    self.grid()[nr][x].occupied == (#[trigger] g0[r][x]).occupied
                        && self.grid()[nr][x].color == g0[r][x].color
                } by {
                    lemma_full_count_range(g0, r + 1, CANVAS_HEIGHT - 1);
                    lemma_dest_monotone(g0, 0, r);
                }
            }
        }
        lines as usize
    }

    /// Mark every given cell with `y >= 0` occupied; used when a piece's
    /// final cells are transferred into the permanent occupancy.
    pub fn lock(&mut self, cells: &Vec<CanvasPixel>)
        requires
            old(self).wf(),
            forall|i: int|
                0 <= i < cells@.len() ==> 1 <= (#[trigger] cells@[i]).x <= CANVAS_WIDTH - 2
                    && cells@[i].y <= CANVAS_HEIGHT - 2,
        ensures
            final(self).wf(),
            forall|x: int, y: int|
                Canvas::in_bounds(x, y) ==> (#[trigger] final(self).grid()[y][x]) == (
                if exists|i: int|
                    0 <= i < cells@.len() && (#[trigger] cells@[i]).x == x && cells@[i].y == y {
                    mark_pixel(x, y, true)
                } else {
                    old(self).grid()[y][x]
                }),
    {
        let mut k: usize = 0;
        while k < cells.len()
            invariant
                old(self).wf(),
                self.wf(),
                0 <= k <= cells@.len(),
                forall|i: int|
                    0 <= i < cells@.len() ==> 1 <= (#[trigger] cells@[i]).x <= CANVAS_WIDTH - 2
                        && cells@[i].y <= CANVAS_HEIGHT - 2,
                forall|x: int, y: int|
                    Canvas::in_bounds(x, y) ==> (#[trigger] self.grid()[y][x]) == (
                    if exists|i: int|
                        0 <= i < k && (#[trigger] cells@[i]).x == x && cells@[i].y == y {
                        mark_pixel(x, y, true)
                    } else {
                        old(self).grid()[y][x]
                    }),
            decreases cells@.len() - k,
        {
            let c = cells[k];
            if c.y >= 0 {
                self.set_cell(c.x, c.y, true);
            }
            k = k + 1;
        }
    }
}

} // verus!

use vstd::prelude::*;
use crate::canvas::{
    clear_post, mark_pixel, Canvas, CANVAS_HEIGHT, CANVAS_WIDTH, INIT_COORDINATE_X,
    INIT_COORDINATE_Y,
};
use crate::canvas_pixel::CanvasPixel;
use crate::color::Color;

verus! {

/// Orientation of the falling piece; a successful rotation advances it one
/// step through the cycle Up, Right, Down, Left.
#[derive(Clone, Copy, Debug, PartialEq, Eq, Structural)]
pub enum Direction {
    Up,
    Right,
    Down,
    Left,
}

impl Default for Direction {
    fn default() -> (r: Self)
        ensures
            r == Direction::Up,
    {
        Direction::Up
    }
}

/// The seven tetromino shape families.
#[derive(Clone, Copy, Debug, PartialEq, Eq, Structural)]
pub enum PieceType {
    I,
    O,
    T,
    J,
    L,
    S,
    Z,
}

/// Relies on `rand::random_range` (rand crate): samples a value from the
/// given range; on the non-empty integer range `1..=7` the result lies in
/// that range and the call does not panic.
#[verifier::external_body]
fn random_piece_index() -> (r: u8)
    ensures
        1 <= r <= 7,
{
    rand::random_range(1..=7)
}

impl PieceType {
    /// A piece type drawn at random; each of the seven families can come back.
    pub fn next() -> Self {
        match random_piece_index() {
            1 => PieceType::I,
            2 => PieceType::O,
            3 => PieceType::T,
            4 => PieceType::J,
            5 => PieceType::L,
            6 => PieceType::S,
            _ => PieceType::Z,
        }
    }
}

/// A freshly spawned cell at offset `(dx, dy)` from the spawn anchor.
pub open spec fn spawn_px(dx: int, dy: int) -> CanvasPixel {
    CanvasPixel {
        color: Color::Green,
        occupied: true,
        x: (INIT_COORDINATE_X + dx) as i32,
        y: (INIT_COORDINATE_Y + dy) as i32,
    }
}

/// The four cells a piece of the given type occupies at spawn, laid out
/// around the spawn anchor; the anchor cell comes first.
pub open spec fn spawn_pixels(t: PieceType) -> Seq<CanvasPixel> {
    match t {
        PieceType::I => seq![spawn_px(0, 0), spawn_px(0, -1), spawn_px(0, -2), spawn_px(0, -3)],
        PieceType::T => seq![spawn_px(0, 0), spawn_px(-1, 0), spawn_px(1, 0), spawn_px(0, -1)],
        PieceType::Z => seq![spawn_px(0, 0), spawn_px(1, 0), spawn_px(0, -1), spawn_px(-1, -1)],
        PieceType::S => seq![spawn_px(0, 0), spawn_px(-1, 0), spawn_px(0, -1), spawn_px(1, -1)],
        PieceType::O => seq![spawn_px(0, 0), spawn_px(-1, 0), spawn_px(0, -1), spawn_px(-1, -1)],
        PieceType::L => seq![spawn_px(0, 0), spawn_px(1, 0), spawn_px(0, -1), spawn_px(0, -2)],
        PieceType::J => seq![spawn_px(0, 0), spawn_px(-1, 0), spawn_px(0, -1), spawn_px(0, -2)],
    }
}

/// Whether some cell of `s` sits at `(x, y)`.
pub open spec fn seq_has_cell(s: Seq<CanvasPixel>, x: int, y: int) -> bool {
    exists|i: int| 0 <= i < s.len() && (#[trigger] s[i]).x == x && s[i].y == y
}

/// How one unmark-then-mark pass changes the playfield: the cells of `news`
/// are marked, the vacated cells of `olds` are blanked, and every other cell
/// keeps its value. Cells above the visible field (`y < 0`) have no effect.
pub open spec fn remark_post(
    g0: Seq<Seq<CanvasPixel>>,
    g1: Seq<Seq<CanvasPixel>>,
    olds: Seq<CanvasPixel>,
    news: Seq<CanvasPixel>,
) -> bool {
    forall|x: int, y: int|
        Canvas::in_bounds(x, y) ==> (#[trigger] g1[y][x]) == (if seq_has_cell(news, x, y) {
            mark_pixel(x, y, true)
        } else if seq_has_cell(olds, x, y) {
            mark_pixel(x, y, false)
        } else {
            g0[y][x]
        })
}

/// `p` displaced by `(dx, dy)`.
pub open spec fn moved_pixel(p: CanvasPixel, dx: int, dy: int) -> CanvasPixel {
    CanvasPixel { color: p.color, occupied: p.occupied, x: (p.x + dx) as i32, y: (p.y + dy) as i32 }
}

/// What one gravity step did: the piece fell one row, the stack reached the
/// spawn row and the game is over, or the piece locked and `Locked` carries
/// the number of rows cleared.
#[derive(Clone, Copy, Debug, PartialEq, Eq, Structural)]
pub enum DropOutcome {
    Dropped,
    GameOver,
    Locked(usize),
}

/// The falling piece: its shape family, orientation, rotation anchor, the
/// four cells it occupies, and the playfield it falls through.
pub struct CanvasPiece {
    pub direction: Direction,
    pub piece_type: PieceType,
    pub canvas: Option<Canvas>,
    pub x: i32,
    pub y: i32,
    pub pixels: Vec<CanvasPixel>,
}

impl CanvasPiece {
    /// The playfield the piece falls through.
    pub open spec fn cvs(self) -> Canvas {
        self.canvas->0
    }

    /// Whether one of the piece's own cells sits at `(x, y)`.
    pub open spec fn in_cells(self, x: int, y: int) -> bool {
        seq_has_cell(self.pixels@, x, y)
    }

    /// Whether `(x, y)` blocks this piece: it lies in the playfield, is
    /// occupied, and is not one of the piece's own cells.
    pub open spec fn blocking(self, x: int, y: int) -> bool {
        &&& Canvas::in_bounds(x, y)
        &&& self.cvs().occ(x, y)
        &&& !self.in_cells(x, y)
    }

    /// Geometric well-formedness: exactly four green cells, the first one on
    /// the anchor, all inside the interior columns and above the floor, none
    /// farther than three cells from the anchor, and none higher than the
    /// spawn buffer allows.
    pub open spec fn geom_wf(self) -> bool {
        &&& self.pixels@.len() == 4
        &&& self.pixels@[0].x == self.x
        &&& self.pixels@[0].y == self.y
        &&& forall|i: int|
            0 <= i < 4 ==> {
                let p = #[trigger] self.pixels@[i];
                &&& 1 <= p.x <= CANVAS_WIDTH - 2
                &&& -4 <= p.y <= CANVAS_HEIGHT - 2
                &&& -3 <= p.x - self.x <= 3
                &&& -3 <= p.y - self.y <= 3
                &&& p.color == Color::Green
                &&& p.occupied == true
            }
    }

    /// Every piece cell inside the visible field is marked in the playfield.
    pub open spec fn marked(self) -> bool {
        forall|i: int|
            0 <= i < self.pixels@.len() && (#[trigger] self.pixels@[i]).y >= 0
                ==> self.cvs().grid()[self.pixels@[i].y as int][self.pixels@[i].x as int]
                == self.pixels@[i]
    }

    /// Full well-formedness of a falling piece.
    pub open spec fn wf(self) -> bool {
        &&& self.canvas is Some
        &&& self.cvs().wf()
        &&& self.geom_wf()
        &&& self.marked()
    }

    /// A piece of the given type at the spawn anchor, in `Up` orientation,
    /// its four cells laid out by the shape table, on the given playfield.
    pub fn spawn(piece_type: PieceType, canvas: Option<Canvas>) -> (r: Self)
        ensures
            r.direction == Direction::Up,
            r.piece_type == piece_type,
            r.x == INIT_COORDINATE_X,
            r.y == INIT_COORDINATE_Y,
            r.pixels@ == spawn_pixels(piece_type),
            r.canvas == canvas,
            canvas is Some && canvas->0.wf() ==> r.wf(),
    {
        let mut pixels: Vec<CanvasPixel> = Vec::new();
        let ax = INIT_COORDINATE_X;
        let ay = INIT_COORDINATE_Y;
        match piece_type {
            PieceType::I => {
                pixels.push(CanvasPixel { color: Color::Green, occupied: true, x: ax, y: ay });
                pixels.push(CanvasPixel { color: Color::Green, occupied: true, x: ax, y: ay - 1 });
                pixels.push(CanvasPixel { color: Color::Green, occupied: true, x: ax, y: ay - 2 });
                pixels.push(CanvasPixel { color: Color::Green, occupied: true, x: ax, y: ay - 3 });
            },
            PieceType::T => {
                pixels.push(CanvasPixel { color: Color::Green, occupied: true, x: ax, y: ay });
                pixels.push(CanvasPixel { color: Color::Green, occupied: true, x: ax - 1, y: ay });
                pixels.push(CanvasPixel { color: Color::Green, occupied: true, x: ax + 1, y: ay });
                pixels.push(CanvasPixel { color: Color::Green, occupied: true, x: ax, y: ay - 1 });
            },
            PieceType::Z => {
                pixels.push(CanvasPixel { color: Color::Green, occupied: true, x: ax, y: ay });
                pixels.push(CanvasPixel { color: Color::Green, occupied: true, x: ax + 1, y: ay });
                pixels.push(CanvasPixel { color: Color::Green, occupied: true, x: ax, y: ay - 1 });
                pixels.push(
                    CanvasPixel { color: Color::Green, occupied: true, x: ax - 1, y: ay - 1 },
                );
            },
            PieceType::S => {
                pixels.push(CanvasPixel { color: Color::Green, occupied: true, x: ax, y: ay });
                pixels.push(CanvasPixel { color: Color::Green, occupied: true, x: ax - 1, y: ay });
                pixels.push(CanvasPixel { color: Color::Green, occupied: true, x: ax, y: ay - 1 });
                pixels.push(
                    CanvasPixel { color: Color::Green, occupied: true, x: ax + 1, y: ay - 1 },
                );
            },
            PieceType::O => {
                pixels.push(CanvasPixel { color: Color::Green, occupied: true, x: ax, y: ay });
                pixels.push(CanvasPixel { color: Color::Green, occupied: true, x: ax - 1, y: ay });
                pixels.push(CanvasPixel { color: Color::Green, occupied: true, x: ax, y: ay - 1 });
                pixels.push(
                    CanvasPixel { color: Color::Green, occupied: true, x: ax - 1, y: ay - 1 },
                );
            },
            PieceType::L => {
                pixels.push(CanvasPixel { color: Color::Green, occupied: true, x: ax, y: ay });
                pixels.push(CanvasPixel { color: Color::Green, occupied: true, x: ax + 1, y: ay });
                pixels.push(CanvasPixel { color: Color::Green, occupied: true, x: ax, y: ay - 1 });
                pixels.push(CanvasPixel { color: Color::Green, occupied: true, x: ax, y: ay - 2 });
            },
            PieceType::J => {
                pixels.push(CanvasPixel { color: Color::Green, occupied: true, x: ax, y: ay });
                pixels.push(CanvasPixel { color: Color::Green, occupied: true, x: ax - 1, y: ay });
                pixels.push(CanvasPixel { color: Color::Green, occupied: true, x: ax, y: ay - 1 });
                pixels.push(CanvasPixel { color: Color::Green, occupied: true, x: ax, y: ay - 2 });
            },
        }
        proof {
            assert(pixels@ =~= spawn_pixels(piece_type));
        }
        CanvasPiece { direction: Direction::Up, piece_type, canvas, x: ax, y: ay, pixels }
    }

    /// A piece of a random type freshly spawned on the given playfield.
    pub fn next(canvas: Option<Canvas>) -> (r: Self)
        ensures
            r.direction == Direction::Up,
            r.x == INIT_COORDINATE_X,
            r.y == INIT_COORDINATE_Y,
            r.pixels@ == spawn_pixels(r.piece_type),
            r.canvas == canvas,
            canvas is Some && canvas->0.wf() ==> r.wf(),
    {
        Self::spawn(PieceType::next(), canvas)
    }

    /// Whether the given cell is one of the piece's own.
    pub fn in_self(&self, pixel: &CanvasPixel) -> (r: bool)
        ensures
            r == self.in_cells(pixel.x as int, pixel.y as int),
    {
        let mut k: usize = 0;
        while k < self.pixels.len()
            invariant
                k <= self.pixels@.len(),
                forall|i: int|
                    0 <= i < k ==> !((#[trigger] self.pixels@[i]).x == pixel.x
                        && self.pixels@[i].y == pixel.y),
            decreases self.pixels@.len() - k,
        {
            let p = &self.pixels[k];
            if p.x == pixel.x && p.y == pixel.y {
                return true;
            }
            k = k + 1;
        }
        false
    }

    /// Whether `(x, y)` blocks this piece: inside the playfield, occupied,
    /// and not one of the piece's own cells. Walls and the floor are always
    /// occupied, so they block every piece.
    pub fn is_blocking(&self, x: i32, y: i32) -> (r: bool)
        requires
            self.canvas is Some,
            self.cvs().wf(),
        ensures
            r == self.blocking(x as int, y as int),
    {
        if x < 0 || x >= CANVAS_WIDTH || y < 0 || y >= CANVAS_HEIGHT {
            return false;
        }
        let canvas = self.canvas.as_ref().unwrap();
        let p = canvas.pixel_at(x, y);
        p.occupied && !self.in_self(&p)
    }

    /// Blank or mark the playfield cell under pixel `k`; cells above the
    /// visible field are left alone.
    fn set_mark(&mut self, k: usize, occupied: bool)
        requires
            old(self).canvas is Some,
            old(self).cvs().wf(),
            k < old(self).pixels@.len(),
            1 <= old(self).pixels@[k as int].x <= CANVAS_WIDTH - 2,
            old(self).pixels@[k as int].y <= CANVAS_HEIGHT - 2,
        ensures
            final(self).canvas is Some,
            final(self).cvs().wf(),
            final(self).pixels == old(self).pixels,
            final(self).direction == old(self).direction,
            final(self).piece_type == old(self).piece_type,
            final(self).x == old(self).x,
            final(self).y == old(self).y,
            final(self).cvs().grid() == (if old(self).pixels@[k as int].y >= 0 {
                let px = old(self).pixels@[k as int].x as int;
                let py = old(self).pixels@[k as int].y as int;
                old(self).cvs().grid().update(
                    py,
                    old(self).cvs().grid()[py].update(px, mark_pixel(px, py, occupied)),
                )
            } else {
                old(self).cvs().grid()
            }),
    {
        let p = self.pixels[k];
        if p.y >= 0 {
            match &mut self.canvas {
                Some(c) => c.set_cell(p.x, p.y, occupied),
                None => (),
            }
        }
    }

    /// Displace pixel `k` by `(dx, dy)`.
    fn shift_pixel(&mut self, k: usize, dx: i32, dy: i32)
        requires
            k < old(self).pixels@.len(),
            -1000 <= old(self).pixels@[k as int].x + dx <= 1000,
            -1000 <= old(self).pixels@[k as int].y + dy <= 1000,
        ensures
            final(self).pixels@ == old(self).pixels@.update(
                k as int,
                moved_pixel(old(self).pixels@[k as int], dx as int, dy as int),
            ),
            final(self).canvas == old(self).canvas,
            final(self).direction == old(self).direction,
            final(self).piece_type == old(self).piece_type,
            final(self).x == old(self).x,
            final(self).y == old(self).y,
    {
        let p = self.pixels[k];
        self.pixels[k] = CanvasPixel {
            color: p.color,
            occupied: p.occupied,
            x: p.x + dx,
            y: p.y + dy,
        };
    }

    /// Whether every cell can step one column towards the chosen side: the
    /// destination stays inside the interior columns, and for cells in the
    /// visible field it is not blocked.
    pub open spec fn spec_can_move(self, move_left: bool) -> bool {
        let dx: int = if move_left {
            -1
        } else {
            1
        };
        forall|i: int|
            0 <= i < self.pixels@.len() ==> {
                let p = #[trigger] self.pixels@[i];
                &&& 1 <= p.x + dx <= CANVAS_WIDTH - 2
                &&& (p.y >= 0 ==> !self.blocking(p.x + dx, p.y as int))
            }
    }

    /// Collision query for a one-column step left (`move_left` true) or right.
    pub fn can_horizontal_move(&self, move_left: bool) -> (r: bool)
        requires
            self.wf(),
        ensures
            r == self.spec_can_move(move_left),
    {
        let mut k: usize = 0;
        while k < self.pixels.len()
            invariant
                self.wf(),
                k <= self.pixels@.len(),
                forall|i: int|
                    0 <= i < k ==> {
                        let p = #[trigger] self.pixels@[i];
                        let dx: int = if move_left {
                            -1
                        } else {
                            1
                        };
                        &&& 1 <= p.x + dx <= CANVAS_WIDTH - 2
                        &&& (p.y >= 0 ==> !self.blocking(p.x + dx, p.y as int))
                    },
            decreases self.pixels@.len() - k,
        {
            let p = self.pixels[k];
            let nx = if move_left {
                p.x - 1
            } else {
                p.x + 1
            };
            if nx < 1 || nx > CANVAS_WIDTH - 2 {
                return false;
            }
            if p.y >= 0 && self.is_blocking(nx, p.y) {
                return false;
            }
            k = k + 1;
        }
        true
    }

    /// How a successful one-step displacement by `(dx, dy)` changes the
    /// piece and the playfield: every cell moves by the offset, the anchor
    /// moves with them, the vacated visible cells are blanked and the new
    /// ones marked, and nothing else changes.
    pub open spec fn shift_post(p0: CanvasPiece, p1: CanvasPiece, dx: int, dy: int) -> bool {
        &&& p1.piece_type == p0.piece_type
        &&& p1.direction == p0.direction
        &&& p1.x == p0.x + dx
        &&& p1.y == p0.y + dy
        &&& p1.pixels@.len() == p0.pixels@.len()
        &&& forall|i: int|
            0 <= i < p0.pixels@.len() ==> (#[trigger] p1.pixels@[i]) == moved_pixel(
                p0.pixels@[i],
                dx,
                dy,
            )
        &&& p1.canvas is Some
        &&& remark_post(p0.cvs().grid(), p1.cvs().grid(), p0.pixels@, p1.pixels@)
    }

    /// Move the piece one column left or right if the way is clear; a
    /// blocked move is a silent no-op.
    #[verifier::rlimit(100)]
    pub fn horizontal_move(&mut self, move_left: bool)
        requires
            old(self).wf(),
        ensures
            final(self).wf(),
            old(self).spec_can_move(move_left) ==> Self::shift_post(
                *old(self),
                *final(self),
                if move_left {
                    -1
                } else {
                    1
                },
                0,
            ),
            !old(self).spec_can_move(move_left) ==> *final(self) == *old(self),
    {
        if self.can_horizontal_move(move_left) {
            let dx: i32 = if move_left {
                -1
            } else {
                1
            };
            self.remark_shifted(dx, 0);
        }
    }

    /// Displace the whole piece by `(dx, dy)`: blank its visible cells,
    /// move every pixel and the anchor, and mark the new visible cells.
    #[verifier::rlimit(100)]
    fn remark_shifted(&mut self, dx: i32, dy: i32)
        requires
            old(self).wf(),
            dx == 0 || dy == 0,
            -1 <= dx <= 1 && 0 <= dy <= 1,
            forall|i: int|
                0 <= i < 4 ==> {
                    let p = #[trigger] old(self).pixels@[i];
                    &&& 1 <= p.x + dx <= CANVAS_WIDTH - 2
                    &&& -4 <= p.y + dy <= CANVAS_HEIGHT - 2
                },
        ensures
            final(self).wf(),
            Self::shift_post(*old(self), *final(self), dx as int, dy as int),
    {
        let ghost g0 = self.cvs().grid();
        let ghost olds = self.pixels@;
        self.set_mark(0, false);
        self.set_mark(1, false);
        self.set_mark(2, false);
        self.set_mark(3, false);
        let ghost gu = self.cvs().grid();
        proof {
            assert forall|x: int, y: int| Canvas::in_bounds(x, y) implies (#[trigger] gu[y][x]) == (
            if seq_has_cell(olds, x, y) {
                mark_pixel(x, y, false)
            } else {
                g0[y][x]
            }) by {
                assert(seq_has_cell(olds, x, y) <==> ((olds[0].x == x && olds[0].y == y) || (
                olds[1].x == x && olds[1].y == y) || (olds[2].x == x && olds[2].y == y) || (
                olds[3].x == x && olds[3].y == y)));
            }
        }
        self.shift_pixel(0, dx, dy);
        self.shift_pixel(1, dx, dy);
        self.shift_pixel(2, dx, dy);
        self.shift_pixel(3, dx, dy);
        self.x = self.x + dx;
        self.y = self.y + dy;
        let ghost news = self.pixels@;
        proof {
            assert(self.cvs().grid() == gu);
            assert(news[0] == moved_pixel(olds[0], dx as int, dy as int));
            assert(news[1] == moved_pixel(olds[1], dx as int, dy as int));
            assert(news[2] == moved_pixel(olds[2], dx as int, dy as int));
            assert(news[3] == moved_pixel(olds[3], dx as int, dy as int));
        }
        self.set_mark(0, true);
        self.set_mark(1, true);
        self.set_mark(2, true);
        self.set_mark(3, true);
        let ghost g1 = self.cvs().grid();
        proof {
            assert forall|x: int, y: int| Canvas::in_bounds(x, y) implies (#[trigger] g1[y][x]) == (
            if seq_has_cell(news, x, y) {
                mark_pixel(x, y, true)
            } else {
                gu[y][x]
            }) by {
                assert(seq_has_cell(news, x, y) <==> ((news[0].x == x && news[0].y == y) || (
                news[1].x == x && news[1].y == y) || (news[2].x == x && news[2].y == y) || (
                news[3].x == x && news[3].y == y)));
            }
            assert(remark_post(g0, g1, olds, news));
            assert(self.geom_wf());
            assert forall|i: int|
                0 <= i < self.pixels@.len() && (#[trigger] self.pixels@[i]).y >= 0 implies
                self.cvs().grid()[self.pixels@[i].y as int][self.pixels@[i].x as int]
                    == self.pixels@[i] by {
                let p = self.pixels@[i];
                assert(seq_has_cell(news, p.x as int, p.y as int));
                assert(Canvas::in_bounds(p.x as int, p.y as int));
            }
        }
    }

    /// Column of pixel `i` after a quarter turn about the anchor.
    pub open spec fn rot_x(self, i: int) -> int {
        self.y - self.pixels@[i].y + self.x
    }

    /// Row of pixel `i` after a quarter turn about the anchor.
    pub open spec fn rot_y(self, i: int) -> int {
        self.pixels@[i].x - self.x + self.y
    }

    /// Pixel `i` carried to its position after a quarter turn.
    pub open spec fn rotated_pixel(self, i: int) -> CanvasPixel {
        CanvasPixel {
            color: self.pixels@[i].color,
            occupied: self.pixels@[i].occupied,
            x: self.rot_x(i) as i32,
            y: self.rot_y(i) as i32,
        }
    }

    /// Whether the piece may rotate: never for the symmetric `O` family,
    /// never before the piece has fully entered the field, and only if every
    /// rotated cell stays inside the interior columns, above the floor, and
    /// off blocking cells.
    pub open spec fn spec_can_rotate(self) -> bool {
        &&& self.y > INIT_COORDINATE_Y
        &&& self.piece_type != PieceType::O
        &&& forall|i: int|
            0 <= i < self.pixels@.len() ==> {
                &&& 1 <= #[trigger] self.rot_x(i) <= CANVAS_WIDTH - 2
                &&& self.rot_y(i) <= CANVAS_HEIGHT - 2
                &&& (self.rot_y(i) >= 0 ==> !self.blocking(self.rot_x(i), self.rot_y(i)))
            }
    }

    /// Collision and bounds query for a quarter turn about the anchor.
    pub fn can_rotate(&self) -> (r: bool)
        requires
            self.wf(),
        ensures
            r == self.spec_can_rotate(),
    {
        if self.y <= INIT_COORDINATE_Y {
            return false;
        }
        if self.piece_type == PieceType::O {
            return false;
        }
        let mut k: usize = 0;
        while k < self.pixels.len()
            invariant
                self.wf(),
                k <= self.pixels@.len(),
                forall|i: int|
                    0 <= i < k ==> {
                        &&& 1 <= #[trigger] self.rot_x(i) <= CANVAS_WIDTH - 2
                        &&& self.rot_y(i) <= CANVAS_HEIGHT - 2
                        &&& (self.rot_y(i) >= 0 ==> !self.blocking(self.rot_x(i), self.rot_y(i)))
                    },
            decreases self.pixels@.len() - k,
        {
            let p = self.pixels[k];
            let j = self.y - p.y + self.x;
            let l = p.x - self.x + self.y;
            proof {
                assert(self.rot_x(k as int) == j);
                assert(self.rot_y(k as int) == l);
            }
            if j <= 0 || j >= CANVAS_WIDTH - 1 {
                return false;
            }
            if l >= CANVAS_HEIGHT - 1 {
                return false;
            }
            if l >= 0 && self.is_blocking(j, l) {
                return false;
            }
            k = k + 1;
        }
        true
    }

    /// How a successful quarter turn changes the piece and the playfield:
    /// every cell is carried to its rotated position, the orientation
    /// advances one step, the anchor stays, the vacated visible cells are
    /// blanked and the new ones marked, and nothing else changes.
    pub open spec fn rotate_post(p0: CanvasPiece, p1: CanvasPiece) -> bool {
        &&& p1.piece_type == p0.piece_type
        &&& p1.direction == Self::spec_next_direction(p0.direction)
        &&& p1.x == p0.x
        &&& p1.y == p0.y
        &&& p1.pixels@.len() == p0.pixels@.len()
        &&& forall|i: int|
            0 <= i < p0.pixels@.len() ==> (#[trigger] p1.pixels@[i]) == p0.rotated_pixel(i)
        &&& p1.canvas is Some
        &&& remark_post(p0.cvs().grid(), p1.cvs().grid(), p0.pixels@, p1.pixels@)
    }

    /// Carry pixel `k` to its rotated position.
    fn rotate_pixel(&mut self, k: usize)
        requires
            k < old(self).pixels@.len(),
            -1000 <= old(self).x <= 1000,
            -1000 <= old(self).y <= 1000,
            -1000 <= old(self).pixels@[k as int].x <= 1000,
            -1000 <= old(self).pixels@[k as int].y <= 1000,
        ensures
            final(self).pixels@ == old(self).pixels@.update(
                k as int,
                old(self).rotated_pixel(k as int),
            ),
            final(self).canvas == old(self).canvas,
            final(self).direction == old(self).direction,
            final(self).piece_type == old(self).piece_type,
            final(self).x == old(self).x,
            final(self).y == old(self).y,
    {
        let p = self.pixels[k];
        self.pixels[k] = CanvasPixel {
            color: p.color,
            occupied: p.occupied,
            x: self.y - p.y + self.x,
            y: p.x - self.x + self.y,
        };
    }

    /// Rotate the piece a quarter turn about its anchor if the rotated cells
    /// are free; a blocked rotation is a silent no-op.
    #[verifier::rlimit(100)]
    pub fn rotate(&mut self)
        requires
            old(self).wf(),
        ensures
            final(self).wf(),
            old(self).spec_can_rotate() ==> Self::rotate_post(*old(self), *final(self)),
            !old(self).spec_can_rotate() ==> *final(self) == *old(self),
    {
        if self.can_rotate() {
            let ghost g0 = self.cvs().grid();
            let ghost olds = self.pixels@;
            self.set_mark(0, false);
            self.set_mark(1, false);
            self.set_mark(2, false);
            self.set_mark(3, false);
            let ghost gu = self.cvs().grid();
            proof {
                assert forall|x: int, y: int| Canvas::in_bounds(x, y) implies (#[trigger] gu[y][x])
                    == (if seq_has_cell(olds, x, y) {
                    mark_pixel(x, y, false)
                } else {
                    g0[y][x]
                }) by {
                    assert(seq_has_cell(olds, x, y) <==> ((olds[0].x == x && olds[0].y == y) || (
                    olds[1].x == x && olds[1].y == y) || (olds[2].x == x && olds[2].y == y) || (
                    olds[3].x == x && olds[3].y == y)));
                }
            }
            self.rotate_pixel(0);
            self.rotate_pixel(1);
            self.rotate_pixel(2);
            self.rotate_pixel(3);
            self.direction = Self::next_direction(&self.direction);
            let ghost news = self.pixels@;
            proof {
                assert(self.cvs().grid() == gu);
                assert(news[0] == old(self).rotated_pixel(0));
                assert(news[1] == old(self).rotated_pixel(1));
                assert(news[2] == old(self).rotated_pixel(2));
                assert(news[3] == old(self).rotated_pixel(3));
            }
            self.set_mark(0, true);
            self.set_mark(1, true);
            self.set_mark(2, true);
            self.set_mark(3, true);
            let ghost g1 = self.cvs().grid();
            proof {
                assert forall|x: int, y: int| Canvas::in_bounds(x, y) implies (#[trigger] g1[y][x])
                    == (if seq_has_cell(news, x, y) {
                    mark_pixel(x, y, true)
                } else {
                    gu[y][x]
                }) by {
                    assert(seq_has_cell(news, x, y) <==> ((news[0].x == x && news[0].y == y) || (
                    news[1].x == x && news[1].y == y) || (news[2].x == x && news[2].y == y) || (
                    news[3].x == x && news[3].y == y)));
                }
                assert(remark_post(g0, g1, olds, news));
                assert(self.geom_wf());
                assert forall|i: int|
                    0 <= i < self.pixels@.len() && (#[trigger] self.pixels@[i]).y >= 0 implies
                    self.cvs().grid()[self.pixels@[i].y as int][self.pixels@[i].x as int]
                        == self.pixels@[i] by {
                    let p = self.pixels@[i];
                    assert(seq_has_cell(news, p.x as int, p.y as int));
                    assert(Canvas::in_bounds(p.x as int, p.y as int));
                }
            }
        }
    }

    /// Whether some piece cell still sits on the spawn row.
    pub open spec fn at_spawn_row(self) -> bool {
        exists|i: int|
            0 <= i < self.pixels@.len() && (#[trigger] self.pixels@[i]).y
                == INIT_COORDINATE_Y as int
    }

    /// Whether every cell can step one row down: the cell below is not
    /// blocking (cells more than one row above the field have nothing to
    /// collide with; the floor row, always occupied, blocks the last step).
    pub open spec fn spec_can_drop(self) -> bool {
        forall|i: int|
            0 <= i < self.pixels@.len() ==> {
                let p = #[trigger] self.pixels@[i];
                p.y + 1 >= 0 ==> !self.blocking(p.x as int, p.y + 1)
            }
    }

    /// Collision query for a one-row drop.
    pub fn can_drop_down(&self) -> (r: bool)
        requires
            self.wf(),
        ensures
            r == self.spec_can_drop(),
    {
        let mut k: usize = 0;
        while k < self.pixels.len()
            invariant
                self.wf(),
                k <= self.pixels@.len(),
                forall|i: int|
                    0 <= i < k ==> {
                        let p = #[trigger] self.pixels@[i];
                        p.y + 1 >= 0 ==> !self.blocking(p.x as int, p.y + 1)
                    },
            decreases self.pixels@.len() - k,
        {
            let p = self.pixels[k];
            if p.y >= -1 && self.is_blocking(p.x, p.y + 1) {
                return false;
            }
            k = k + 1;
        }
        true
    }

    /// How landing changes the piece and the playfield: full rows are
    /// cleared and compacted, and the piece is replaced by a fresh spawn of
    /// some type at the spawn anchor (the landed cells were already marked
    /// while the piece fell, so locking keeps them in place).
    pub open spec fn locked_post(p0: CanvasPiece, p1: CanvasPiece, lines: int) -> bool {
        &&& p1.direction == Direction::Up
        &&& p1.x == INIT_COORDINATE_X
        &&& p1.y == INIT_COORDINATE_Y
        &&& p1.pixels@ == spawn_pixels(p1.piece_type)
        &&& p1.canvas is Some
        &&& clear_post(p0.cvs().grid(), p1.cvs().grid(), lines)
    }

    /// Clear the full rows of the playfield the piece has just landed on;
    /// returns the number of cleared rows. The piece's own fields are left
    /// alone: the caller replaces them with a fresh spawn.
    pub fn success(&mut self) -> (lines: usize)
        requires
            old(self).canvas is Some,
            old(self).cvs().wf(),
        ensures
            final(self).canvas is Some,
            final(self).cvs().wf(),
            final(self).pixels == old(self).pixels,
            final(self).direction == old(self).direction,
            final(self).piece_type == old(self).piece_type,
            final(self).x == old(self).x,
            final(self).y == old(self).y,
            clear_post(old(self).cvs().grid(), final(self).cvs().grid(), lines as int),
    {
        match &mut self.canvas {
            Some(c) => c.clear_full_lines(),
            None => 0,
        }
    }

    /// Let gravity act once: if the way down is clear the piece falls one
    /// row; otherwise it has landed — with a cell still on the spawn row the
    /// game is over and nothing changes, else the piece locks, full rows are
    /// cleared, and a fresh piece of a random type takes its place.
    pub fn drop_down(&mut self) -> (r: DropOutcome)
        requires
            old(self).wf(),
        ensures
            final(self).wf(),
            match r {
                DropOutcome::Dropped => old(self).spec_can_drop() && Self::shift_post(
                    *old(self),
                    *final(self),
                    0,
                    1,
                ),
                DropOutcome::GameOver => !old(self).spec_can_drop() && old(self).at_spawn_row()
                    && *final(self) == *old(self),
                DropOutcome::Locked(lines) => !old(self).spec_can_drop() && !old(
                    self,
                ).at_spawn_row() && Self::locked_post(*old(self), *final(self), lines as int),
            },
    {
        if self.can_drop_down() {
            proof {
                assert forall|i: int| 0 <= i < 4 implies {
                    let p = #[trigger] self.pixels@[i];
                    &&& 1 <= p.x + 0 <= CANVAS_WIDTH - 2
                    &&& -4 <= p.y + 1 <= CANVAS_HEIGHT - 2
                } by {
                    let p = self.pixels@[i];
                    if p.y + 1 == CANVAS_HEIGHT - 1 {
                        // the floor row is occupied and holds no piece cell,
                        // so it would have blocked the drop
                        assert(Canvas::in_bounds(p.x as int, p.y + 1));
                        assert(self.cvs().occ(p.x as int, p.y + 1));
                        assert(!self.in_cells(p.x as int, p.y + 1));
                        assert(false);
                    }
                }
            }
            self.remark_shifted(0, 1);
            DropOutcome::Dropped
        } else {
            let at_top = self.pixels[0].y == INIT_COORDINATE_Y || self.pixels[1].y
                == INIT_COORDINATE_Y || self.pixels[2].y == INIT_COORDINATE_Y || self.pixels[3].y
                == INIT_COORDINATE_Y;
            proof {
                assert(self.at_spawn_row() <==> (self.pixels@[0].y == INIT_COORDINATE_Y as int
                    || self.pixels@[1].y == INIT_COORDINATE_Y as int || self.pixels@[2].y
                    == INIT_COORDINATE_Y as int || self.pixels@[3].y == INIT_COORDINATE_Y as int));
            }
            if at_top {
                return DropOutcome::GameOver;
            }
            let lines = self.success();
            let piece_type = PieceType::next();
            let fresh = Self::spawn(piece_type, None);
            self.direction = fresh.direction;
            self.piece_type = fresh.piece_type;
            self.x = fresh.x;
            self.y = fresh.y;
            self.pixels = fresh.pixels;
            proof {
                assert(self.geom_wf());
                assert(self.marked());
            }
            DropOutcome::Locked(lines)
        }
    }

    /// The orientation one rotation step after `direction`.
    pub open spec fn spec_next_direction(direction: Direction) -> Direction {
        match direction {
            Direction::Up => Direction::Right,
            Direction::Right => Direction::Down,
            Direction::Down => Direction::Left,
            Direction::Left => Direction::Up,
        }
    }

    /// Advance an orientation one rotation step.
    pub fn next_direction(direction: &Direction) -> (r: Direction)
        ensures
            r == Self::spec_next_direction(*direction),
    {
        match direction {
            Direction::Up => Direction::Right,
            Direction::Right => Direction::Down,
            Direction::Down => Direction::Left,
            Direction::Left => Direction::Up,
        }
    }
}

/// Law: every border cell — the walls and the floor — blocks a well-formed
/// piece, and none of the piece's own cells blocks it.
pub proof fn lemma_blocking_law(p: CanvasPiece, x: int, y: int)
    requires
        p.wf(),
    ensures
        Canvas::in_bounds(x, y) && Canvas::is_border(x, y) ==> p.blocking(x, y),
        p.in_cells(x, y) ==> !p.blocking(x, y),
{
    if Canvas::in_bounds(x, y) && Canvas::is_border(x, y) {
        assert(p.cvs().occ(x, y));
        if p.in_cells(x, y) {
            let i = choose|i: int|
                0 <= i < p.pixels@.len() && (#[trigger] p.pixels@[i]).x == x && p.pixels@[i].y
                    == y;
            assert(1 <= p.pixels@[i].x <= CANVAS_WIDTH - 2);
            assert(false);
        }
    }
}

/// Law: a piece of the `O` family can never rotate, so by the contract of
/// `rotate` a rotation attempt leaves it — cells, anchor, playfield — as it
/// was.
pub proof fn lemma_o_piece_never_rotates(p: CanvasPiece)
    requires
        p.piece_type == PieceType::O,
    ensures
        !p.spec_can_rotate(),
{
}

/// Law: a successful move left followed by a successful move right restores
/// the piece's cells, its anchor, and the playfield's occupancy.
pub proof fn lemma_move_round_trip(p0: CanvasPiece, p1: CanvasPiece, p2: CanvasPiece)
    requires
        p0.wf(),
        p0.spec_can_move(true),
        CanvasPiece::shift_post(p0, p1, -1, 0),
        p1.wf(),
        p1.spec_can_move(false),
        CanvasPiece::shift_post(p1, p2, 1, 0),
    ensures
        p2.pixels@ == p0.pixels@,
        p2.x == p0.x,
        p2.y == p0.y,
        forall|x: int, y: int|
            Canvas::in_bounds(x, y) ==> (#[trigger] p2.cvs().occ(x, y)) == p0.cvs().occ(x, y),
{
    assert forall|i: int| 0 <= i < 4 implies (#[trigger] p2.pixels@[i]) == p0.pixels@[i] by {
        assert(p1.pixels@[i] == moved_pixel(p0.pixels@[i], -1, 0));
        assert(p2.pixels@[i] == moved_pixel(p1.pixels@[i], 1, 0));
    }
    assert(p2.pixels@ =~= p0.pixels@);
    assert forall|x: int, y: int|
        Canvas::in_bounds(x, y) implies (#[trigger] p2.cvs().occ(x, y)) == p0.cvs().occ(x, y) by {
        let g0 = p0.cvs().grid();
        let g1 = p1.cvs().grid();
        let g2 = p2.cvs().grid();
        if seq_has_cell(p0.pixels@, x, y) {
            // the cell returns to a piece cell: marked before, marked after
            let i = choose|i: int|
                0 <= i < p0.pixels@.len() && (#[trigger] p0.pixels@[i]).x == x && p0.pixels@[i].y
                    == y;
            assert(seq_has_cell(p2.pixels@, x, y));
            assert(g2[y][x] == mark_pixel(x, y, true));
            assert(g0[y][x] == p0.pixels@[i]);
        } else if seq_has_cell(p1.pixels@, x, y) {
            // a cell the piece vacated again: it was empty before the trip,
            // or the move left would have been blocked
            let j = choose|j: int|
                0 <= j < p1.pixels@.len() && (#[trigger] p1.pixels@[j]).x == x && p1.pixels@[j].y
                    == y;
            assert(seq_has_cell(p2.pixels@, x, y) ==> seq_has_cell(p0.pixels@, x, y));
            assert(g2[y][x] == mark_pixel(x, y, false));
            assert(p1.pixels@[j] == moved_pixel(p0.pixels@[j], -1, 0));
            assert(p0.pixels@[j].x - 1 == x && p0.pixels@[j].y == y);
            assert(!p0.blocking(p0.pixels@[j].x - 1, p0.pixels@[j].y as int));
            assert(!p0.cvs().occ(x, y));
        } else {
            assert(seq_has_cell(p2.pixels@, x, y) ==> seq_has_cell(p0.pixels@, x, y));
            assert(g2[y][x] == g1[y][x]);
            assert(g1[y][x] == g0[y][x]);
        }
    }
}

/// Law: a well-formed piece with only empty interior cells beneath it can
/// drop as long as none of its cells stands just above the floor.
pub proof fn lemma_drop_on_empty_grid(p: CanvasPiece)
    requires
        p.wf(),
        forall|x: int, y: int|
            Canvas::in_bounds(x, y) && !Canvas::is_border(x, y) && !p.in_cells(x, y) ==> !(
            #[trigger] p.cvs().occ(x, y)),
        forall|i: int| 0 <= i < p.pixels@.len() ==> (#[trigger] p.pixels@[i]).y + 1 <= CANVAS_HEIGHT
            - 2,
    ensures
        p.spec_can_drop(),
{
    assert forall|i: int| 0 <= i < p.pixels@.len() implies {
        let q = #[trigger] p.pixels@[i];
        q.y + 1 >= 0 ==> !p.blocking(q.x as int, q.y + 1)
    } by {
        let q = p.pixels@[i];
        if q.y + 1 >= 0 && p.blocking(q.x as int, q.y + 1) {
            assert(!Canvas::is_border(q.x as int, q.y + 1));
            assert(!p.cvs().occ(q.x as int, q.y + 1));
        }
    }
}

/// Law: a piece with a cell just above the floor cannot drop — the floor,
/// permanently occupied, blocks it.
pub proof fn lemma_floor_stops_drop(p: CanvasPiece)
    requires
        p.wf(),
        exists|i: int|
            0 <= i < p.pixels@.len() && (#[trigger] p.pixels@[i]).y == CANVAS_HEIGHT - 2,
    ensures
        !p.spec_can_drop(),
{
    let i = choose|i: int|
        0 <= i < p.pixels@.len() && (#[trigger] p.pixels@[i]).y == CANVAS_HEIGHT - 2;
    let q = p.pixels@[i];
    assert(Canvas::in_bounds(q.x as int, q.y + 1));
    assert(Canvas::is_border(q.x as int, q.y + 1));
    assert(p.cvs().occ(q.x as int, q.y + 1));
    if p.in_cells(q.x as int, q.y + 1) {
        let j = choose|j: int|
            0 <= j < p.pixels@.len() && (#[trigger] p.pixels@[j]).x == q.x && p.pixels@[j].y == q.y
                + 1;
        assert(p.pixels@[j].y <= CANVAS_HEIGHT - 2);
        assert(false);
    }
    assert(p.blocking(q.x as int, q.y + 1));
}

} // verus!

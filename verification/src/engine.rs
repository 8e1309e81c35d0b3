use vstd::prelude::*;
use crate::canvas::{Canvas, INIT_COORDINATE_X, INIT_COORDINATE_Y};
use crate::canvas_piece::{spawn_pixels, CanvasPiece, Direction, DropOutcome};

verus! {

/// Whether the game still accepts movement commands.
#[derive(Clone, Copy, Debug, PartialEq, Eq, Structural)]
pub enum GameState {
    Running,
    Over,
}

/// The engine: it owns the playfield (through the falling piece) and the
/// game state, and serializes every command — a driver feeds it user input
/// and timer ticks one at a time and renders the snapshot it exposes.
pub struct Game {
    pub piece: CanvasPiece,
    pub state: GameState,
}

impl Game {
    /// Well-formedness of the whole game.
    pub open spec fn wf(self) -> bool {
        self.piece.wf()
    }

    /// A fresh game: an empty bordered playfield and a piece of a random
    /// type at the spawn anchor.
    pub fn new() -> (r: Game)
        ensures
            r.wf(),
            r.state == GameState::Running,
            r.piece.direction == Direction::Up,
            r.piece.x == INIT_COORDINATE_X,
            r.piece.y == INIT_COORDINATE_Y,
            r.piece.pixels@ == spawn_pixels(r.piece.piece_type),
            forall|x: int, y: int|
                Canvas::in_bounds(x, y) && !Canvas::is_border(x, y) ==> !(#[trigger] r.piece.cvs().occ(
                    x,
                    y,
                )),
    {
        let canvas = Canvas::new();
        let piece = CanvasPiece::next(Some(canvas));
        Game { piece, state: GameState::Running }
    }

    /// Move the falling piece one column left; ignored after game over, and
    /// a silent no-op when the way is blocked.
    pub fn move_left(&mut self)
        requires
            old(self).wf(),
        ensures
            final(self).wf(),
            final(self).state == old(self).state,
            old(self).state == GameState::Over ==> *final(self) == *old(self),
            old(self).state == GameState::Running ==> {
                &&& old(self).piece.spec_can_move(true) ==> CanvasPiece::shift_post(
                    old(self).piece,
                    final(self).piece,
                    -1,
                    0,
                )
                &&& !old(self).piece.spec_can_move(true) ==> final(self).piece == old(self).piece
            },
    {
        match self.state {
            GameState::Running => self.piece.horizontal_move(true),
            GameState::Over => (),
        }
    }

    /// Move the falling piece one column right; ignored after game over, and
    /// a silent no-op when the way is blocked.
    pub fn move_right(&mut self)
        requires
            old(self).wf(),
        ensures
            final(self).wf(),
            final(self).state == old(self).state,
            old(self).state == GameState::Over ==> *final(self) == *old(self),
            old(self).state == GameState::Running ==> {
                &&& old(self).piece.spec_can_move(false) ==> CanvasPiece::shift_post(
                    old(self).piece,
                    final(self).piece,
                    1,
                    0,
                )
                &&& !old(self).piece.spec_can_move(false) ==> final(self).piece == old(self).piece
            },
    {
        match self.state {
            GameState::Running => self.piece.horizontal_move(false),
            GameState::Over => (),
        }
    }

    /// Rotate the falling piece a quarter turn; ignored after game over, and
    /// a silent no-op when the rotation is blocked.
    pub fn rotate(&mut self)
        requires
            old(self).wf(),
        ensures
            final(self).wf(),
            final(self).state == old(self).state,
            old(self).state == GameState::Over ==> *final(self) == *old(self),
            old(self).state == GameState::Running ==> {
                &&& old(self).piece.spec_can_rotate() ==> CanvasPiece::rotate_post(
                    old(self).piece,
                    final(self).piece,
                )
                &&& !old(self).piece.spec_can_rotate() ==> final(self).piece == old(self).piece
            },
    {
        match self.state {
            GameState::Running => self.piece.rotate(),
            GameState::Over => (),
        }
    }

    /// One gravity step, driven by the timer or by the player's soft drop.
    /// Once the game is over it changes nothing and keeps answering
    /// `GameOver`; a landing with a cell still on the spawn row ends the
    /// game without touching the playfield.
    pub fn tick(&mut self) -> (r: DropOutcome)
        requires
            old(self).wf(),
        ensures
            final(self).wf(),
            old(self).state == GameState::Over ==> *final(self) == *old(self) && r
                == DropOutcome::GameOver,
            old(self).state == GameState::Running ==> match r {
                DropOutcome::Dropped => final(self).state == GameState::Running && old(
                    self,
                ).piece.spec_can_drop() && CanvasPiece::shift_post(
                    old(self).piece,
                    final(self).piece,
                    0,
                    1,
                ),
                DropOutcome::GameOver => final(self).state == GameState::Over && !old(
                    self,
                ).piece.spec_can_drop() && old(self).piece.at_spawn_row() && final(self).piece
                    == old(self).piece,
                DropOutcome::Locked(lines) => final(self).state == GameState::Running && !old(
                    self,
                ).piece.spec_can_drop() && !old(self).piece.at_spawn_row()
                    && CanvasPiece::locked_post(old(self).piece, final(self).piece, lines as int),
            },
    {
        match self.state {
            GameState::Over => DropOutcome::GameOver,
            GameState::Running => {
                let r = self.piece.drop_down();
                match r {
                    DropOutcome::GameOver => {
                        self.state = GameState::Over;
                    },
                    _ => (),
                }
                r
            },
        }
    }

    /// The player's soft drop: one gravity step now.
    pub fn soft_drop(&mut self) -> (r: DropOutcome)
        requires
            old(self).wf(),
        ensures
            final(self).wf(),
            old(self).state == GameState::Over ==> *final(self) == *old(self) && r
                == DropOutcome::GameOver,
            old(self).state == GameState::Running ==> match r {
                DropOutcome::Dropped => final(self).state == GameState::Running && old(
                    self,
                ).piece.spec_can_drop() && CanvasPiece::shift_post(
                    old(self).piece,
                    final(self).piece,
                    0,
                    1,
                ),
                DropOutcome::GameOver => final(self).state == GameState::Over && !old(
                    self,
                ).piece.spec_can_drop() && old(self).piece.at_spawn_row() && final(self).piece
                    == old(self).piece,
                DropOutcome::Locked(lines) => final(self).state == GameState::Running && !old(
                    self,
                ).piece.spec_can_drop() && !old(self).piece.at_spawn_row()
                    && CanvasPiece::locked_post(old(self).piece, final(self).piece, lines as int),
            },
    {
        self.tick()
    }

    /// Read-only copy of the playfield for the presentation layer.
    pub fn render_snapshot(&self) -> (r: Canvas)
        requires
            self.wf(),
        ensures
            r.wf(),
            r.grid() == self.piece.cvs().grid(),
    {
        match &self.piece.canvas {
            Some(c) => c.render_snapshot(),
            None => Canvas::new(),
        }
    }
}

} // verus!

use tetris_core::canvas::{Canvas, CANVAS_HEIGHT, CANVAS_WIDTH, INIT_COORDINATE_X, INIT_COORDINATE_Y};
use tetris_core::canvas_piece::{CanvasPiece, Direction, DropOutcome, PieceType};
use tetris_core::canvas_pixel::{CanvasPixel, Colorable};
use tetris_core::color::Color;
use tetris_core::engine::{Game, GameState};

fn cells_of(piece: &CanvasPiece) -> Vec<(i32, i32)> {
    piece.pixels.iter().map(|p| (p.x, p.y)).collect()
}

fn occupancy(canvas: &Canvas) -> Vec<Vec<bool>> {
    let mut rows = Vec::new();
    for y in 0..CANVAS_HEIGHT {
        let mut row = Vec::new();
        for x in 0..CANVAS_WIDTH {
            row.push(canvas.pixel_at(x, y).occupied);
        }
        rows.push(row);
    }
    rows
}

#[test]
fn fresh_canvas_has_occupied_borders_only() {
    let canvas = Canvas::new();
    for y in 0..CANVAS_HEIGHT {
        for x in 0..CANVAS_WIDTH {
            let border = x == 0 || x == CANVAS_WIDTH - 1 || y == CANVAS_HEIGHT - 1;
            assert_eq!(canvas.pixel_at(x, y).occupied, border, "cell ({x}, {y})");
            if border {
                assert_eq!(canvas.pixel_at(x, y).color, Color::Red);
            }
        }
    }
}

#[test]
fn borders_block_and_own_cells_do_not() {
    let mut piece = CanvasPiece::spawn(PieceType::T, Some(Canvas::new()));
    for _ in 0..4 {
        assert_eq!(piece.drop_down(), DropOutcome::Dropped);
    }
    // walls and floor block
    assert!(piece.is_blocking(0, 5));
    assert!(piece.is_blocking(CANVAS_WIDTH - 1, 5));
    assert!(piece.is_blocking(3, CANVAS_HEIGHT - 1));
    // the piece's own visible cells never block it
    for &(x, y) in cells_of(&piece).iter() {
        if y >= 0 {
            assert!(!piece.is_blocking(x, y), "own cell ({x}, {y})");
        }
    }
    // an empty interior cell does not block
    assert!(!piece.is_blocking(2, 2));
}

#[test]
fn o_piece_never_rotates() {
    let mut piece = CanvasPiece::spawn(PieceType::O, Some(Canvas::new()));
    for _ in 0..6 {
        piece.drop_down();
    }
    assert!(!piece.can_rotate());
    let before = cells_of(&piece);
    piece.rotate();
    assert_eq!(cells_of(&piece), before);
    assert_eq!(piece.direction, Direction::Up);
}

#[test]
fn rotation_transforms_t_piece_and_advances_direction() {
    let mut piece = CanvasPiece::spawn(PieceType::T, Some(Canvas::new()));
    for _ in 0..5 {
        assert_eq!(piece.drop_down(), DropOutcome::Dropped);
    }
    let (ax, ay) = (piece.x, piece.y);
    let before = cells_of(&piece);
    assert!(piece.can_rotate());
    piece.rotate();
    assert_eq!(piece.direction, Direction::Right);
    let after = cells_of(&piece);
    for (i, &(x, y)) in before.iter().enumerate() {
        assert_eq!(after[i], (ay - y + ax, x - ax + ay));
    }
}

#[test]
fn move_left_then_right_restores_cells_and_grid() {
    let mut piece = CanvasPiece::spawn(PieceType::T, Some(Canvas::new()));
    for _ in 0..4 {
        piece.drop_down();
    }
    let before = cells_of(&piece);
    let occ_before = occupancy(piece.canvas.as_ref().unwrap());
    assert!(piece.can_horizontal_move(true));
    piece.horizontal_move(true);
    assert!(piece.can_horizontal_move(false));
    piece.horizontal_move(false);
    assert_eq!(cells_of(&piece), before);
    assert_eq!(occupancy(piece.canvas.as_ref().unwrap()), occ_before);
}

#[test]
fn left_wall_stops_movement() {
    let mut piece = CanvasPiece::spawn(PieceType::T, Some(Canvas::new()));
    for _ in 0..4 {
        piece.drop_down();
    }
    for _ in 0..20 {
        piece.horizontal_move(true);
    }
    // the T piece's leftmost cell rests against the wall column
    assert!(!piece.can_horizontal_move(true));
    assert_eq!(cells_of(&piece).iter().map(|c| c.0).min(), Some(1));
    let before = cells_of(&piece);
    piece.horizontal_move(true);
    assert_eq!(cells_of(&piece), before);
}

#[test]
fn i_piece_falls_one_row_per_tick_then_locks() {
    let mut piece = CanvasPiece::spawn(PieceType::I, Some(Canvas::new()));
    // the lowest cell starts on the spawn row; it reaches the row above the
    // floor after CANVAS_HEIGHT - 1 drops
    let mut expected = cells_of(&piece);
    for _ in 0..(CANVAS_HEIGHT - 1) {
        assert!(piece.can_drop_down());
        assert_eq!(piece.drop_down(), DropOutcome::Dropped);
        for c in expected.iter_mut() {
            c.1 += 1;
        }
        assert_eq!(cells_of(&piece), expected);
    }
    assert!(!piece.can_drop_down());
    // no row fills up, so locking clears nothing and spawns a fresh piece
    assert_eq!(piece.drop_down(), DropOutcome::Locked(0));
    assert_eq!(piece.x, INIT_COORDINATE_X);
    assert_eq!(piece.y, INIT_COORDINATE_Y);
    assert_eq!(piece.direction, Direction::Up);
    let canvas = piece.canvas.as_ref().unwrap();
    for dy in 0..4 {
        assert!(canvas.pixel_at(INIT_COORDINATE_X, CANVAS_HEIGHT - 2 - dy).occupied);
    }
}

#[test]
fn full_row_is_cleared_and_rows_above_shift_down() {
    let mut canvas = Canvas::new();
    for x in 1..=(CANVAS_WIDTH - 2) {
        canvas.set_cell(x, CANVAS_HEIGHT - 2, true);
    }
    // a lone block one row higher must fall onto the floor row
    canvas.set_cell(3, CANVAS_HEIGHT - 3, true);
    assert_eq!(canvas.clear_full_lines(), 1);
    assert!(canvas.pixel_at(3, CANVAS_HEIGHT - 2).occupied);
    assert!(!canvas.pixel_at(3, CANVAS_HEIGHT - 3).occupied);
    for x in 1..=(CANVAS_WIDTH - 2) {
        if x != 3 {
            assert!(!canvas.pixel_at(x, CANVAS_HEIGHT - 2).occupied, "column {x}");
        }
    }
}

#[test]
fn almost_full_row_is_never_cleared() {
    let mut canvas = Canvas::new();
    for x in 1..=(CANVAS_WIDTH - 3) {
        canvas.set_cell(x, CANVAS_HEIGHT - 2, true);
    }
    assert_eq!(canvas.clear_full_lines(), 0);
    for x in 1..=(CANVAS_WIDTH - 3) {
        assert!(canvas.pixel_at(x, CANVAS_HEIGHT - 2).occupied, "column {x}");
    }
    assert!(!canvas.pixel_at(CANVAS_WIDTH - 2, CANVAS_HEIGHT - 2).occupied);
}

#[test]
fn two_full_rows_clear_together() {
    let mut canvas = Canvas::new();
    for x in 1..=(CANVAS_WIDTH - 2) {
        canvas.set_cell(x, CANVAS_HEIGHT - 2, true);
        canvas.set_cell(x, CANVAS_HEIGHT - 3, true);
    }
    canvas.set_cell(7, CANVAS_HEIGHT - 4, true);
    assert_eq!(canvas.clear_full_lines(), 2);
    assert!(canvas.pixel_at(7, CANVAS_HEIGHT - 2).occupied);
    assert!(!canvas.pixel_at(7, CANVAS_HEIGHT - 3).occupied);
    assert!(!canvas.pixel_at(7, CANVAS_HEIGHT - 4).occupied);
}

#[test]
fn stack_reaching_spawn_row_ends_the_game() {
    let mut canvas = Canvas::new();
    for y in 0..=(CANVAS_HEIGHT - 2) {
        canvas.set_cell(INIT_COORDINATE_X, y, true);
    }
    let piece = CanvasPiece::spawn(PieceType::I, Some(canvas));
    let mut game = Game { piece, state: GameState::Running };
    let before = occupancy(&game.render_snapshot());
    assert_eq!(game.tick(), DropOutcome::GameOver);
    assert_eq!(game.state, GameState::Over);
    assert_eq!(occupancy(&game.render_snapshot()), before);
    // once the game is over, no command mutates the grid or the piece
    let cells = cells_of(&game.piece);
    game.move_left();
    game.move_right();
    game.rotate();
    assert_eq!(game.tick(), DropOutcome::GameOver);
    assert_eq!(game.soft_drop(), DropOutcome::GameOver);
    assert_eq!(occupancy(&game.render_snapshot()), before);
    assert_eq!(cells_of(&game.piece), cells);
}

#[test]
fn spawn_lays_out_each_shape_table() {
    let ax = INIT_COORDINATE_X;
    let ay = INIT_COORDINATE_Y;
    let table: Vec<(PieceType, [(i32, i32); 4])> = vec![
        (PieceType::I, [(ax, ay), (ax, ay - 1), (ax, ay - 2), (ax, ay - 3)]),
        (PieceType::T, [(ax, ay), (ax - 1, ay), (ax + 1, ay), (ax, ay - 1)]),
        (PieceType::Z, [(ax, ay), (ax + 1, ay), (ax, ay - 1), (ax - 1, ay - 1)]),
        (PieceType::S, [(ax, ay), (ax - 1, ay), (ax, ay - 1), (ax + 1, ay - 1)]),
        (PieceType::O, [(ax, ay), (ax - 1, ay), (ax, ay - 1), (ax - 1, ay - 1)]),
        (PieceType::L, [(ax, ay), (ax + 1, ay), (ax, ay - 1), (ax, ay - 2)]),
        (PieceType::J, [(ax, ay), (ax - 1, ay), (ax, ay - 1), (ax, ay - 2)]),
    ];
    for (piece_type, expected) in table {
        let piece = CanvasPiece::spawn(piece_type, Some(Canvas::new()));
        assert_eq!(piece.piece_type, piece_type);
        assert_eq!(piece.direction, Direction::Up);
        assert_eq!((piece.x, piece.y), (ax, ay));
        assert_eq!(cells_of(&piece), expected.to_vec());
        for p in piece.pixels.iter() {
            assert_eq!(p.color, Color::Green);
            assert!(p.occupied);
        }
    }
}

#[test]
fn random_spawn_matches_its_own_shape_table() {
    for _ in 0..50 {
        let piece = CanvasPiece::next(Some(Canvas::new()));
        let reference = CanvasPiece::spawn(piece.piece_type, None);
        assert_eq!(cells_of(&piece), cells_of(&reference));
        assert_eq!(piece.direction, Direction::Up);
        assert_eq!((piece.x, piece.y), (INIT_COORDINATE_X, INIT_COORDINATE_Y));
    }
}

#[test]
fn in_self_recognizes_only_own_cells() {
    let piece = CanvasPiece::spawn(PieceType::J, Some(Canvas::new()));
    for p in piece.pixels.iter() {
        assert!(piece.in_self(p));
    }
    let stranger = CanvasPixel { color: Color::Green, occupied: true, x: 2, y: 7 };
    assert!(!piece.in_self(&stranger));
}

#[test]
fn next_direction_cycles() {
    assert_eq!(CanvasPiece::next_direction(&Direction::Up), Direction::Right);
    assert_eq!(CanvasPiece::next_direction(&Direction::Right), Direction::Down);
    assert_eq!(CanvasPiece::next_direction(&Direction::Down), Direction::Left);
    assert_eq!(CanvasPiece::next_direction(&Direction::Left), Direction::Up);
}

#[test]
fn clear_all_empties_interior_and_keeps_borders() {
    let mut canvas = Canvas::new();
    canvas.set_cell(4, 10, true);
    canvas.set_cell(9, 3, true);
    canvas.clear_all();
    for y in 0..CANVAS_HEIGHT {
        for x in 0..CANVAS_WIDTH {
            let border = x == 0 || x == CANVAS_WIDTH - 1 || y == CANVAS_HEIGHT - 1;
            assert_eq!(canvas.pixel_at(x, y).occupied, border, "cell ({x}, {y})");
        }
    }
}

#[test]
fn lock_marks_visible_cells_only() {
    let mut canvas = Canvas::new();
    let cells = vec![
        CanvasPixel { color: Color::Green, occupied: true, x: 4, y: 10 },
        CanvasPixel { color: Color::Green, occupied: true, x: 5, y: -2 },
    ];
    canvas.lock(&cells);
    assert!(canvas.pixel_at(4, 10).occupied);
    assert!(!canvas.pixel_at(5, 0).occupied);
}

#[test]
fn render_snapshot_copies_the_grid() {
    let mut game = Game::new();
    game.tick();
    game.tick();
    let snap = game.render_snapshot();
    let live = game.piece.canvas.as_ref().unwrap();
    assert_eq!(occupancy(&snap), occupancy(live));
}

#[test]
fn piece_locks_on_top_of_a_stack() {
    let mut canvas = Canvas::new();
    canvas.set_cell(INIT_COORDINATE_X, 10, true);
    let mut piece = CanvasPiece::spawn(PieceType::I, Some(canvas));
    // the lowest cell starts at the spawn row and stops one row above the block
    for _ in 0..10 {
        assert_eq!(piece.drop_down(), DropOutcome::Dropped);
    }
    assert!(!piece.can_drop_down());
    assert_eq!(piece.drop_down(), DropOutcome::Locked(0));
    let grid = piece.canvas.as_ref().unwrap();
    for y in 6..=9 {
        assert!(grid.pixel_at(INIT_COORDINATE_X, y).occupied, "row {y}");
    }
}

#[test]
fn occupied_cell_blocks_sideways_movement() {
    let mut canvas = Canvas::new();
    canvas.set_cell(INIT_COORDINATE_X - 1, 10, true);
    let mut piece = CanvasPiece::spawn(PieceType::I, Some(canvas));
    for _ in 0..11 {
        assert_eq!(piece.drop_down(), DropOutcome::Dropped);
    }
    // one of the piece's cells now sits beside the block
    assert!(!piece.can_horizontal_move(true));
    assert!(piece.can_horizontal_move(false));
    let before = cells_of(&piece);
    piece.horizontal_move(true);
    assert_eq!(cells_of(&piece), before);
}

#[test]
fn colorable_exposes_the_cell_color() {
    let p = CanvasPixel { color: Color::White, occupied: true, x: 1, y: 1 };
    assert_eq!(*p.color(), Color::White);
}

#[test]
fn default_values_are_the_documented_ones() {
    assert_eq!(Color::default(), Color::Red);
    assert_eq!(Direction::default(), Direction::Up);
    let p = CanvasPixel::default();
    assert_eq!((p.x, p.y, p.occupied, p.color), (0, 0, false, Color::Red));
}

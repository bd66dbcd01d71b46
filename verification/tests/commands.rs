use tetris::board::{Block, ConfigError};
use tetris::game::{Tetris, Update, MARGIN};
use tetris::shape::Tetromino;

fn game(rows: usize, cols: usize, t: Tetromino) -> Tetris {
    Tetris::build(rows, cols, 30, t).unwrap()
}

fn blank(rows: usize, cols: usize) -> Vec<Vec<Block>> {
    vec![vec![Block::Blank; cols]; rows]
}

#[test]
fn build_computes_canvas_geometry() {
    let t = game(20, 10, Tetromino::S);
    assert_eq!(t.delta, 31);
    assert_eq!(t.width, 310);
    assert_eq!(t.height, 680);
    assert_eq!(MARGIN, 60);
    assert_eq!(t.board.rows, 20);
    assert_eq!(t.board.cols, 10);
    assert_eq!(t.board.block_width, 30);
    assert_eq!(t.board.matrix, blank(20, 10));
    assert_eq!(t.board.current_tetro, Tetromino::S);
    assert_eq!(t.board.current_x, 4);
    assert_eq!(t.board.current_y, 0);
    assert_eq!(t.board.current_rotation, 0);
    assert!(!t.board.game_over);
    assert!(t.is_valid());
}

#[test]
fn build_refuses_bad_dimensions() {
    assert_eq!(Tetris::build(0, 10, 30, Tetromino::I).unwrap_err(), ConfigError::ZeroRows);
    assert_eq!(Tetris::build(20, 0, 30, Tetromino::I).unwrap_err(), ConfigError::ZeroCols);
    assert_eq!(
        Tetris::build(20, 10, u32::MAX, Tetromino::I).unwrap_err(),
        ConfigError::CanvasTooLarge
    );
    assert_eq!(
        Tetris::build(2, 10, 429_496_729, Tetromino::I).unwrap_err(),
        ConfigError::CanvasTooLarge
    );
    assert_eq!(
        Tetris::build(20, 1, 214_748_361, Tetromino::I).unwrap_err(),
        ConfigError::CanvasTooLarge
    );
    assert_eq!(
        Tetris::build(0, 10, u32::MAX, Tetromino::I).unwrap_err(),
        ConfigError::ZeroRows
    );
}

#[test]
fn build_accepts_the_largest_canvas() {
    let wide = Tetris::build(2, 10, 429_496_728, Tetromino::I).unwrap();
    assert_eq!(wide.delta, 429_496_729);
    assert_eq!(wide.width, 4_294_967_290);
    assert_eq!(wide.height, 858_993_518);
    let high = Tetris::build(20, 1, 214_748_360, Tetromino::I).unwrap();
    assert_eq!(high.delta, 214_748_361);
    assert_eq!(high.width, 214_748_361);
    assert_eq!(high.height, 4_294_967_280);
    assert!(high.is_valid());
}

#[test]
fn validity_check_sees_wrong_geometry() {
    let mut t = game(20, 10, Tetromino::I);
    assert!(t.is_valid());
    t.width += 1;
    assert!(!t.is_valid());
    t.width -= 1;
    t.delta = 30;
    assert!(!t.is_valid());
    t.delta = 31;
    t.height = 620;
    assert!(!t.is_valid());
}

#[test]
fn i_piece_falls_to_the_floor_and_locks() {
    let mut t = game(20, 10, Tetromino::I);
    assert_eq!(t.board.current_x, 4);
    assert_eq!(t.board.current_y, 0);
    for step in 1..=18 {
        assert_eq!(t.move_down(Tetromino::T), Update::Redraw);
        assert_eq!(t.board.current_y, step);
        assert_eq!(t.board.matrix, blank(20, 10));
        assert_eq!(t.board.current_tetro, Tetromino::I);
    }
    assert_eq!(t.move_down(Tetromino::T), Update::Redraw);
    let mut want = blank(20, 10);
    for col in 4..8 {
        want[19][col] = Block::Fill;
    }
    assert_eq!(t.board.matrix, want);
    assert_eq!(t.board.current_y, 0);
    assert_eq!(t.board.current_x, 4);
    assert_eq!(t.board.current_rotation, 0);
    assert_eq!(t.board.current_tetro, Tetromino::T);
    assert!(!t.board.game_over);
    assert!(t.is_valid());
}

#[test]
fn four_row_board_ends_and_ticks_become_no_ops() {
    let mut t = game(4, 10, Tetromino::I);
    assert_eq!(t.tick(Tetromino::I), Update::Redraw);
    assert_eq!(t.tick(Tetromino::I), Update::Redraw);
    assert_eq!(t.board.current_y, 2);
    assert_eq!(t.tick(Tetromino::I), Update::Redraw);
    assert_eq!(t.board.current_y, 0);
    assert_eq!(t.board.current_x, 4);
    assert_eq!(t.tick(Tetromino::I), Update::Redraw);
    assert_eq!(t.board.current_y, 1);
    assert_eq!(t.tick(Tetromino::I), Update::Redraw);
    assert_eq!(t.board.current_y, 0);
    let mut want = blank(4, 10);
    for col in 4..8 {
        want[3][col] = Block::Fill;
    }
    for col in 4..8 {
        want[2][col] = Block::Fill;
    }
    assert_eq!(t.board.matrix, want);
    assert!(!t.board.game_over);
    assert_eq!(t.tick(Tetromino::J), Update::GameOver);
    assert!(t.board.game_over);
    assert_eq!(t.board.matrix, want);
    assert_eq!(t.board.current_tetro, Tetromino::I);
    assert_eq!(t.board.current_y, 0);
    for _ in 0..5 {
        assert_eq!(t.tick(Tetromino::J), Update::Unchanged);
        assert!(t.board.game_over);
        assert_eq!(t.board.matrix, want);
        assert_eq!(t.board.current_tetro, Tetromino::I);
        assert_eq!(t.board.current_x, 4);
        assert_eq!(t.board.current_y, 0);
        assert_eq!(t.board.current_rotation, 0);
    }
}

#[test]
fn lock_at_the_top_of_four_rows_ends_the_game() {
    let mut t = game(4, 10, Tetromino::I);
    assert!(t.board.lock(Tetromino::L));
    assert!(t.board.game_over);
    assert_eq!(t.board.matrix, blank(4, 10));
    assert_eq!(t.tick(Tetromino::L), Update::Unchanged);
    assert_eq!(t.board.matrix, blank(4, 10));
    assert_eq!(t.board.current_y, 0);
}

#[test]
fn rotate_turns_through_the_four_states() {
    let mut t = game(20, 10, Tetromino::T);
    t.board.current_y = 5;
    for want in [1, 2, 3, 0, 1] {
        assert_eq!(t.rotate(), Update::Redraw);
        assert_eq!(t.board.current_rotation, want);
        assert_eq!(t.board.current_x, 4);
        assert_eq!(t.board.current_y, 5);
    }
}

#[test]
fn rotate_into_the_wall_changes_nothing() {
    let mut t = game(20, 10, Tetromino::I);
    t.board.current_rotation = 1;
    t.board.current_x = -2;
    t.board.current_y = 5;
    assert!(t.is_valid());
    assert_eq!(t.rotate(), Update::Unchanged);
    assert_eq!(t.board.current_rotation, 1);
    assert_eq!(t.board.current_x, -2);
    assert_eq!(t.board.current_y, 5);
    assert_eq!(t.board.matrix, blank(20, 10));
}

#[test]
fn rotate_into_a_settled_block_changes_nothing() {
    let mut t = game(20, 10, Tetromino::I);
    t.board.current_y = 5;
    t.board.matrix[8][6] = Block::Fill;
    assert_eq!(t.rotate(), Update::Unchanged);
    assert_eq!(t.board.current_rotation, 0);
    t.board.matrix[8][6] = Block::Blank;
    assert_eq!(t.rotate(), Update::Redraw);
    assert_eq!(t.board.current_rotation, 1);
}

#[test]
fn left_wall_stops_the_piece() {
    let mut t = game(20, 10, Tetromino::I);
    for want in [3, 2, 1, 0] {
        assert_eq!(t.move_left(), Update::Redraw);
        assert_eq!(t.board.current_x, want);
    }
    for _ in 0..10 {
        assert_eq!(t.move_left(), Update::Unchanged);
        assert_eq!(t.board.current_x, 0);
        assert_eq!(t.board.current_y, 0);
    }
}

#[test]
fn upright_piece_reaches_the_wall_with_negative_origin() {
    let mut t = game(20, 10, Tetromino::I);
    t.board.current_rotation = 1;
    t.board.current_x = 0;
    assert_eq!(t.move_left(), Update::Redraw);
    assert_eq!(t.board.current_x, -1);
    assert_eq!(t.move_left(), Update::Redraw);
    assert_eq!(t.board.current_x, -2);
    for _ in 0..5 {
        assert_eq!(t.move_left(), Update::Unchanged);
        assert_eq!(t.board.current_x, -2);
    }
}

#[test]
fn right_wall_stops_the_piece() {
    let mut t = game(20, 10, Tetromino::I);
    assert_eq!(t.move_right(), Update::Redraw);
    assert_eq!(t.board.current_x, 5);
    assert_eq!(t.move_right(), Update::Redraw);
    assert_eq!(t.board.current_x, 6);
    for _ in 0..5 {
        assert_eq!(t.move_right(), Update::Unchanged);
        assert_eq!(t.board.current_x, 6);
    }
}

#[test]
fn sideways_moves_probe_one_row_down() {
    let mut t = game(20, 10, Tetromino::I);
    t.board.current_y = 18;
    assert!(t.is_valid());
    assert_eq!(t.move_left(), Update::Unchanged);
    assert_eq!(t.move_right(), Update::Unchanged);
    assert_eq!(t.board.current_x, 4);
    t.board.current_y = 17;
    assert_eq!(t.move_left(), Update::Redraw);
    assert_eq!(t.board.current_x, 3);
    t.board.matrix[19][8] = Block::Fill;
    t.board.current_x = 4;
    assert_eq!(t.move_right(), Update::Unchanged);
    assert_eq!(t.board.current_x, 4);
    t.board.current_y = 16;
    assert_eq!(t.move_right(), Update::Redraw);
    assert_eq!(t.board.current_x, 5);
}

#[test]
fn move_down_locks_on_a_settled_block() {
    let mut t = game(20, 10, Tetromino::O);
    t.board.matrix[10][5] = Block::Fill;
    for step in 1..=7 {
        assert_eq!(t.move_down(Tetromino::I), Update::Redraw);
        assert_eq!(t.board.current_y, step);
    }
    assert_eq!(t.move_down(Tetromino::I), Update::Redraw);
    let mut want = blank(20, 10);
    want[10][5] = Block::Fill;
    want[8][5] = Block::Fill;
    want[8][6] = Block::Fill;
    want[9][5] = Block::Fill;
    want[9][6] = Block::Fill;
    assert_eq!(t.board.matrix, want);
    assert_eq!(t.board.current_tetro, Tetromino::I);
    assert_eq!(t.board.current_y, 0);
}

#[test]
fn narrow_board_ends_on_the_first_tick() {
    let mut t = game(20, 3, Tetromino::I);
    assert_eq!(t.tick(Tetromino::J), Update::GameOver);
    assert!(t.board.game_over);
    assert_eq!(t.board.matrix, blank(20, 3));
    assert_eq!(t.tick(Tetromino::J), Update::Unchanged);
}

#[test]
fn commands_leave_the_canvas_geometry() {
    let mut t = game(20, 10, Tetromino::L);
    t.move_down(Tetromino::I);
    t.move_left();
    t.move_right();
    t.rotate();
    t.tick(Tetromino::I);
    assert_eq!((t.width, t.height, t.delta), (310, 680, 31));
    assert!(t.is_valid());
}

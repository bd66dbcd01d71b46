//! The command surface: the game as a presentation layer drives it, one
//! command per timer tick or key press.

use crate::board::{
    blocked, grid_error, lemma_outside_collides, too_high, Block, Board, ConfigError, SPAWN_X,
};
use crate::shape::{cell, lemma_shape_nonempty, next_rotation, shape_mask, shape_of, Tetromino};
use vstd::prelude::*;

verus! {

/// Height in pixels of the strip that the drawing surface has beside the grid.
pub const MARGIN: u32 = 60;

/// What the presentation layer owes the player after a command.
#[derive(Debug, Clone, Copy, PartialEq, Eq, Structural)]
pub enum Update {
    /// Nothing changed: there is nothing to draw.
    Unchanged,
    /// The state changed: draw it.
    Redraw,
    /// The game has just ended: tell the player once, then draw.
    GameOver,
}

/// A game: the board and the pixel geometry of the surface it is drawn on.
#[derive(Debug, Clone)]
pub struct Tetris {
    pub board: Board,
    /// Width of the drawing surface in pixels.
    pub width: u32,
    /// Height of the drawing surface in pixels.
    pub height: u32,
    /// Distance in pixels from one cell to the next.
    pub delta: u32,
}

/// Whether the drawing surface of a `rows` x `cols` grid with cells of
/// `block_width` pixels has a size that fits in 32 bits.
pub open spec fn canvas_fits(rows: usize, cols: usize, block_width: u32) -> bool {
    &&& cols * (block_width + 1) <= u32::MAX
    &&& MARGIN + rows * (block_width + 1) <= u32::MAX
}

/// The error, if any, that a game with these dimensions is refused with.
pub open spec fn build_error(rows: usize, cols: usize, block_width: u32) -> Option<ConfigError> {
    match grid_error(rows, cols) {
        Some(e) => Some(e),
        None => if canvas_fits(rows, cols, block_width) {
            None
        } else {
            Some(ConfigError::CanvasTooLarge)
        },
    }
}

impl Tetris {
    /// The board is well formed, the falling piece can be locked where it
    /// is, and the pixel geometry is that of the grid.
    pub open spec fn well_formed(&self) -> bool {
        &&& self.board.well_formed()
        &&& self.board.placed()
        &&& self.delta == self.board.block_width + 1
        &&& self.width == self.board.cols * self.delta
        &&& self.height == MARGIN + self.board.rows * self.delta
    }

    /// Whether two games are drawn on surfaces of the same geometry.
    pub open spec fn same_canvas(pre: Tetris, post: Tetris) -> bool {
        post.width == pre.width && post.height == pre.height && post.delta == pre.delta
    }

    /// Whether the falling piece of `b`, moved by `dx` columns and probed
    /// one row further down, would be in collision.
    pub open spec fn side_blocked(b: Board, dx: int) -> bool {
        b.collides(b.current_x + dx, b.current_y + 1, b.shape())
    }

    /// Whether `post` and `update` are what a soft drop makes of `pre`: the
    /// piece moves down one row if it can; if it cannot, it is locked.
    pub open spec fn dropped(pre: Tetris, post: Tetris, next: Tetromino, update: Update) -> bool {
        let b = pre.board;
        &&& Tetris::same_canvas(pre, post)
        &&& if !b.collides(b.current_x as int, b.current_y + 1, b.shape()) {
            &&& post.board == (Board { current_y: (b.current_y + 1) as i32, ..b })
            &&& update == Update::Redraw
        } else if too_high(b.current_y as int, b.shape()) {
            &&& post.board == (Board { game_over: true, ..b })
            &&& update == Update::GameOver
        } else {
            &&& Board::relocked(b, post.board, next)
            &&& update == Update::Redraw
        }
    }

    /// Whether `post` and `update` are what a sideways move by `dx` columns
    /// makes of `pre`: the piece moves unless the probe is in collision.
    pub open spec fn shifted(pre: Tetris, post: Tetris, dx: int, update: Update) -> bool {
        let b = pre.board;
        if Tetris::side_blocked(b, dx) {
            post == pre && update == Update::Unchanged
        } else {
            &&& Tetris::same_canvas(pre, post)
            &&& post.board == (Board { current_x: (b.current_x + dx) as i32, ..b })
            &&& update == Update::Redraw
        }
    }

    /// A new game on an empty `rows` x `cols` grid with `first` as the
    /// falling piece, or the reason why there is none.
    pub fn build(rows: usize, cols: usize, block_width: u32, first: Tetromino) -> (made: Result<
        Tetris,
        ConfigError,
    >)
        ensures
            match build_error(rows, cols, block_width) {
                Some(e) => made == Err::<Tetris, ConfigError>(e),
                None => made is Ok && ({
                    let t = made->Ok_0;
                    &&& t.well_formed()
                    &&& t.board.rows == rows
                    &&& t.board.cols == cols
                    &&& t.board.block_width == block_width
                    &&& t.board.grid() == Seq::new(
                        rows as nat,
                        |i: int| Seq::new(cols as nat, |j: int| Block::Blank),
                    )
                    &&& t.board.current_tetro == first
                    &&& t.board.current_x == SPAWN_X
                    &&& t.board.current_y == 0
                    &&& t.board.current_rotation == 0
                    &&& !t.board.game_over
                }),
            },
    {
        let board = match Board::new(rows, cols, block_width, first) {
            Ok(board) => board,
            Err(e) => {
                return Err(e);
            },
        };
        let step: u64 = block_width as u64 + 1;
        assert(cols * step <= 0x7fff_ffff * 0x1_0000_0000) by (nonlinear_arith)
            requires
                0 <= cols <= 0x7fff_ffff,
                0 <= step <= 0x1_0000_0000,
        ;
        assert(rows * step <= 0x7fff_ffff * 0x1_0000_0000) by (nonlinear_arith)
            requires
                0 <= rows <= 0x7fff_ffff,
                0 <= step <= 0x1_0000_0000,
        ;
        let wide: u64 = cols as u64 * step;
        let high: u64 = MARGIN as u64 + rows as u64 * step;
        if wide > u32::MAX as u64 || high > u32::MAX as u64 {
            return Err(ConfigError::CanvasTooLarge);
        }
        assert(step <= u32::MAX) by (nonlinear_arith)
            requires
                cols * step <= u32::MAX,
                cols >= 1,
                step >= 0,
        ;
        Ok(Tetris { board, width: wide as u32, height: high as u32, delta: step as u32 })
    }

    /// Whether the game is well formed: what every command asks of it.
    pub fn is_valid(&self) -> (ok: bool)
        ensures
            ok == self.well_formed(),
    {
        if !self.board.is_valid() {
            return false;
        }
        let step: u64 = self.board.block_width as u64 + 1;
        assert(self.board.cols * step <= 0x7fff_ffff * 0x1_0000_0000) by (nonlinear_arith)
            requires
                0 <= self.board.cols <= 0x7fff_ffff,
                0 <= step <= 0x1_0000_0000,
        ;
        assert(self.board.rows * step <= 0x7fff_ffff * 0x1_0000_0000) by (nonlinear_arith)
            requires
                0 <= self.board.rows <= 0x7fff_ffff,
                0 <= step <= 0x1_0000_0000,
        ;
        self.delta as u64 == step && self.width as u64 == self.board.cols as u64 * step
            && self.height as u64 == MARGIN as u64 + self.board.rows as u64 * step
    }

    /// Soft drop: the falling piece moves down one row if it can, and is
    /// locked if it cannot. `next` is the piece that appears after a lock.
    pub fn move_down(&mut self, next: Tetromino) -> (update: Update)
        requires
            old(self).well_formed(),
        ensures
            final(self).well_formed(),
            Tetris::dropped(*old(self), *final(self), next, update),
    {
        let rotated_piece = shape_mask(self.board.current_tetro, self.board.current_rotation);
        let hit = self.board.collision_at(
            self.board.current_x as i64,
            self.board.current_y as i64 + 1,
            rotated_piece,
        );
        if !hit {
            proof {
                lemma_shape_nonempty(
                    self.board.current_tetro,
                    self.board.current_rotation as int,
                );
            }
            self.board.down();
            Update::Redraw
        } else if self.board.lock(next) {
            Update::GameOver
        } else {
            Update::Redraw
        }
    }

    /// A timer tick: nothing once the game is over, a soft drop before.
    pub fn tick(&mut self, next: Tetromino) -> (update: Update)
        requires
            old(self).well_formed(),
        ensures
            final(self).well_formed(),
            old(self).board.game_over ==> *final(self) == *old(self) && update
                == Update::Unchanged,
            !old(self).board.game_over ==> Tetris::dropped(*old(self), *final(self), next, update),
    {
        if self.board.game_over {
            return Update::Unchanged;
        }
        self.move_down(next)
    }

    /// Turns the falling piece to its next rotation state, where it stays,
    /// unless it would be in collision there: then nothing changes.
    pub fn rotate(&mut self) -> (update: Update)
        requires
            old(self).well_formed(),
        ensures
            final(self).well_formed(),
            ({
                let b = old(self).board;
                let turned = (b.current_rotation + 1) % 4;
                if b.collides(
                    b.current_x as int,
                    b.current_y as int,
                    shape_of(b.current_tetro, turned),
                ) {
                    *final(self) == *old(self) && update == Update::Unchanged
                } else {
                    &&& Tetris::same_canvas(*old(self), *final(self))
                    &&& final(self).board == (Board { current_rotation: turned as u32, ..b })
                    &&& update == Update::Redraw
                }
            }),
    {
        let next = next_rotation(self.board.current_rotation);
        let rotated_piece = shape_mask(self.board.current_tetro, next);
        let hit = self.board.collision_at(
            self.board.current_x as i64,
            self.board.current_y as i64,
            rotated_piece,
        );
        if hit {
            return Update::Unchanged;
        }
        self.board.current_rotation = next;
        Update::Redraw
    }

    /// Moves the falling piece one column to the left, unless one column to
    /// the left and one row down it would be in collision.
    pub fn move_left(&mut self) -> (update: Update)
        requires
            old(self).well_formed(),
        ensures
            final(self).well_formed(),
            Tetris::shifted(*old(self), *final(self), -1, update),
    {
        let rotated_piece = shape_mask(self.board.current_tetro, self.board.current_rotation);
        let hit = self.board.collision_at(
            self.board.current_x as i64 - 1,
            self.board.current_y as i64 + 1,
            rotated_piece,
        );
        if hit {
            return Update::Unchanged;
        }
        proof {
            lemma_shape_nonempty(self.board.current_tetro, self.board.current_rotation as int);
        }
        self.board.current_x = self.board.current_x - 1;
        Update::Redraw
    }

    /// Moves the falling piece one column to the right, unless one column
    /// to the right and one row down it would be in collision.
    pub fn move_right(&mut self) -> (update: Update)
        requires
            old(self).well_formed(),
        ensures
            final(self).well_formed(),
            Tetris::shifted(*old(self), *final(self), 1, update),
    {
        let rotated_piece = shape_mask(self.board.current_tetro, self.board.current_rotation);
        let hit = self.board.collision_at(
            self.board.current_x as i64 + 1,
            self.board.current_y as i64 + 1,
            rotated_piece,
        );
        if hit {
            return Update::Unchanged;
        }
        proof {
            lemma_shape_nonempty(self.board.current_tetro, self.board.current_rotation as int);
        }
        self.board.current_x = self.board.current_x + 1;
        Update::Redraw
    }
}

/// The left wall holds: a piece with a cell in the leftmost column of the
/// grid is not moved by a move to the left.
pub proof fn lemma_left_wall_holds(pre: Tetris, post: Tetris, update: Update, r: int, c: int)
    requires
        Tetris::shifted(pre, post, -1, update),
        cell(pre.board.shape(), r, c),
        pre.board.current_x + c == 0,
    ensures
        post == pre,
        update == Update::Unchanged,
{
    lemma_outside_collides(
        pre.board,
        pre.board.current_x - 1,
        pre.board.current_y + 1,
        pre.board.shape(),
        r,
        c,
    );
}

/// A sideways move never takes a cell of the falling piece off the grid to
/// the left or to the right.
pub proof fn lemma_side_move_stays_between_walls(
    pre: Tetris,
    post: Tetris,
    dx: int,
    update: Update,
)
    requires
        pre.well_formed(),
        Tetris::shifted(pre, post, dx, update),
        forall|r: int, c: int| #[trigger]
            cell(pre.board.shape(), r, c) ==> 0 <= pre.board.current_x + c < pre.board.cols,
    ensures
        forall|r: int, c: int| #[trigger]
            cell(post.board.shape(), r, c) ==> 0 <= post.board.current_x + c < post.board.cols,
{
    let b = pre.board;
    if !Tetris::side_blocked(b, dx) {
        assert forall|r: int, c: int| #[trigger] cell(post.board.shape(), r, c) implies 0
            <= post.board.current_x + c < post.board.cols by {
            assert(cell(b.shape(), r, c));
            assert(!blocked(
                b.grid(),
                b.rows as int,
                b.cols as int,
                b.current_y + 1 + r,
                b.current_x + dx + c,
            ));
        }
    }
}

/// A soft drop never changes the dimensions of the grid, and never revives
/// a game that is over.
pub proof fn lemma_drop_keeps_dimensions(pre: Tetris, post: Tetris, next: Tetromino, update: Update)
    requires
        Tetris::dropped(pre, post, next, update),
    ensures
        post.board.rows == pre.board.rows,
        post.board.cols == pre.board.cols,
        pre.board.game_over ==> post.board.game_over,
{
}

/// A sideways move changes nothing but the column of the falling piece.
pub proof fn lemma_side_move_keeps_grid(pre: Tetris, post: Tetris, dx: int, update: Update)
    requires
        Tetris::shifted(pre, post, dx, update),
    ensures
        post.board == (Board { current_x: post.board.current_x, ..pre.board }),
        Tetris::same_canvas(pre, post),
{
}

} // verus!

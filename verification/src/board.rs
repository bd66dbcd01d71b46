//! The board: the grid of settled blocks, the falling piece, the collision
//! test, and the lock with its line clear.

use crate::shape::{
    cell, lemma_spawn_shape_near_top, mask_view, shape_mask, shape_of, ShapeMask, Tetromino,
};
use vstd::prelude::*;

verus! {

/// One grid position: empty, or holding a settled block.
#[derive(Debug, Clone, Copy, PartialEq, Eq, Structural)]
pub enum Block {
    Blank,
    Fill,
}

/// Why a board cannot be made with the dimensions asked for.
#[derive(Debug, Clone, Copy, PartialEq, Eq, Structural)]
pub enum ConfigError {
    /// The grid would have no rows.
    ZeroRows,
    /// The grid would have no columns.
    ZeroCols,
    /// A dimension is beyond what the signed 32-bit piece coordinates reach.
    GridTooLarge,
    /// The pixel size of the drawing surface does not fit in 32 bits.
    CanvasTooLarge,
}

/// Column at which every piece appears: the first of a game, and each one
/// that follows a lock.
pub const SPAWN_X: i32 = 4;

/// A piece that locks with a cell in this row or above ends the game.
pub const DANGER_ROW: i32 = 1;

/// Largest number of rows, and of columns, that a board can have.
pub const MAX_DIM: usize = 0x7fff_ffff;

/// The game state: settled blocks and the falling piece.
#[derive(Debug, Clone)]
pub struct Board {
    pub rows: usize,
    pub cols: usize,
    pub block_width: u32,
    /// Settled blocks only, indexed `[row][col]`; never the falling piece.
    pub matrix: Vec<Vec<Block>>,
    pub current_tetro: Tetromino,
    /// Column of the origin of the falling piece's bounding box.
    pub current_x: i32,
    /// Row of the origin of the falling piece's bounding box.
    pub current_y: i32,
    pub current_rotation: u32,
    pub game_over: bool,
}

/// What a matrix holds, as rows of cells.
pub open spec fn grid_of(matrix: Vec<Vec<Block>>) -> Seq<Seq<Block>> {
    Seq::new(matrix.len() as nat, |i: int| matrix[i]@)
}

/// Whether `g` has `rows` rows of `cols` cells each.
pub open spec fn is_rect(g: Seq<Seq<Block>>, rows: int, cols: int) -> bool {
    g.len() == rows && forall|i: int| 0 <= i < rows ==> (#[trigger] g[i]).len() == cols
}

/// Whether a piece cell at `(row, col)` of a `rows` x `cols` grid `g` is in
/// collision: beside the grid, below it, or on a settled block. Above the
/// grid nothing is in the way.
pub open spec fn blocked(g: Seq<Seq<Block>>, rows: int, cols: int, row: int, col: int) -> bool {
    col < 0 || col >= cols || row >= rows || (row >= 0 && g[row][col] == Block::Fill)
}

/// Whether a piece of shape `s` whose origin is at row `y` has a cell in the
/// danger zone at the top of the grid.
pub open spec fn too_high(y: int, s: Seq<Seq<bool>>) -> bool {
    exists|r: int, c: int| #[trigger] cell(s, r, c) && y + r <= DANGER_ROW
}

/// The grid `g` with the first `k` cells of shape `s`, counted row by row,
/// written into it as settled blocks, the shape's origin being at column
/// `x`, row `y`.
pub open spec fn stamp_upto(g: Seq<Seq<Block>>, x: int, y: int, s: Seq<Seq<bool>>, k: int) -> Seq<
    Seq<Block>,
> {
    Seq::new(
        g.len(),
        |i: int|
            Seq::new(
                g[i].len(),
                |j: int|
                    if cell(s, i - y, j - x) && (i - y) * 4 + (j - x) < k {
                        Block::Fill
                    } else {
                        g[i][j]
                    },
            ),
    )
}

/// The grid `g` with every cell of shape `s` written into it.
pub open spec fn stamp(g: Seq<Seq<Block>>, x: int, y: int, s: Seq<Seq<bool>>) -> Seq<Seq<Block>> {
    stamp_upto(g, x, y, s, 16)
}

/// Whether every cell of a row is settled.
pub open spec fn row_full(row: Seq<Block>) -> bool {
    forall|j: int| 0 <= j < row.len() ==> #[trigger] row[j] == Block::Fill
}

/// The gravity shift that removes row `row`: each of the rows 1 to `row`
/// takes the content of the row above it. Row 0 keeps what it held.
pub open spec fn shift_down(g: Seq<Seq<Block>>, row: int) -> Seq<Seq<Block>> {
    Seq::new(
        g.len(),
        |i: int|
            if 1 <= i <= row {
                g[i - 1]
            } else {
                g[i]
            },
    )
}

/// The scan for full rows from row `row` to the bottom: a full row is
/// removed by a gravity shift before the scan goes on with the next row.
pub open spec fn clear_from(g: Seq<Seq<Block>>, row: int) -> Seq<Seq<Block>>
    decreases g.len() - row,
{
    if 0 <= row < g.len() {
        clear_from(
            if row_full(g[row]) {
                shift_down(g, row)
            } else {
                g
            },
            row + 1,
        )
    } else {
        g
    }
}

/// The grid after the scan for full rows, from the top row to the bottom.
pub open spec fn clear_rows(g: Seq<Seq<Block>>) -> Seq<Seq<Block>> {
    clear_from(g, 0)
}

/// The error, if any, that a board of `rows` x `cols` cells is refused with.
pub open spec fn grid_error(rows: usize, cols: usize) -> Option<ConfigError> {
    if rows == 0 {
        Some(ConfigError::ZeroRows)
    } else if cols == 0 {
        Some(ConfigError::ZeroCols)
    } else if rows > MAX_DIM || cols > MAX_DIM {
        Some(ConfigError::GridTooLarge)
    } else {
        None
    }
}

/// A row of `cols` empty cells.
fn blank_row(cols: usize) -> (row: Vec<Block>)
    ensures
        row@ == Seq::new(cols as nat, |j: int| Block::Blank),
{
    let mut row: Vec<Block> = Vec::new();
    let mut j: usize = 0;
    while j < cols
        invariant
            j <= cols,
            row@ == Seq::new(j as nat, |j: int| Block::Blank),
        decreases cols - j,
    {
        row.push(Block::Blank);
        j += 1;
        assert(row@ =~= Seq::new(j as nat, |j: int| Block::Blank));
    }
    row
}

/// A copy of a row.
fn copy_row(src: &Vec<Block>) -> (row: Vec<Block>)
    ensures
        row@ == src@,
{
    let mut row: Vec<Block> = Vec::new();
    let mut j: usize = 0;
    while j < src.len()
        invariant
            j <= src.len(),
            row@ == src@.take(j as int),
        decreases src.len() - j,
    {
        row.push(src[j]);
        j += 1;
        assert(row@ =~= src@.take(j as int));
    }
    assert(src@.take(src.len() as int) =~= src@);
    row
}

/// Whether every cell of `row` is settled.
fn is_full(row: &Vec<Block>) -> (full: bool)
    ensures
        full == row_full(row@),
{
    let mut full = true;
    let mut j: usize = 0;
    while j < row.len()
        invariant
            j <= row.len(),
            full == (forall|i: int| 0 <= i < j ==> #[trigger] row@[i] == Block::Fill),
        decreases row.len() - j,
    {
        if row[j] == Block::Blank {
            full = false;
        }
        j += 1;
    }
    full
}

/// Whether a piece with mask `mask` and origin row `y` has a cell in the
/// danger zone.
fn reaches_danger(y: i32, mask: ShapeMask) -> (danger: bool)
    ensures
        danger == too_high(y as int, mask_view(mask)),
{
    let ghost s = mask_view(mask);
    let mut row: usize = 0;
    while row < 4
        invariant
            row <= 4,
            s == mask_view(mask),
            forall|r: int, c: int| 0 <= r < row && #[trigger] cell(s, r, c) ==> y + r > DANGER_ROW,
        decreases 4 - row,
    {
        let mut col: usize = 0;
        while col < 4
            invariant
                row < 4,
                col <= 4,
                s == mask_view(mask),
                forall|r: int, c: int|
                    0 <= r < row && #[trigger] cell(s, r, c) ==> y + r > DANGER_ROW,
                forall|c: int| 0 <= c < col && #[trigger] cell(s, row as int, c) ==> y + row > DANGER_ROW,
            decreases 4 - col,
        {
            if mask[row][col] && y as i64 + row as i64 <= DANGER_ROW as i64 {
                assert(cell(s, row as int, col as int));
                return true;
            }
            col += 1;
        }
        row += 1;
    }
    false
}

/// Writes `b` into the cell at `(row, col)`.
fn set_cell(matrix: &mut Vec<Vec<Block>>, row: usize, col: usize, b: Block)
    requires
        row < old(matrix).len(),
        col < old(matrix)[row as int].len(),
    ensures
        grid_of(*final(matrix)) == grid_of(*old(matrix)).update(
            row as int,
            grid_of(*old(matrix))[row as int].update(col as int, b),
        ),
{
    matrix[row][col] = b;
    assert(grid_of(*matrix) =~= grid_of(*old(matrix)).update(
        row as int,
        grid_of(*old(matrix))[row as int].update(col as int, b),
    ));
}

/// The gravity shift that removes row `row`.
fn shift_rows(matrix: &mut Vec<Vec<Block>>, row: usize)
    requires
        row < old(matrix).len(),
    ensures
        grid_of(*final(matrix)) == shift_down(grid_of(*old(matrix)), row as int),
        final(matrix).len() == old(matrix).len(),
{
    let ghost g0 = grid_of(*matrix);
    let mut y: usize = row;
    while y > 0
        invariant
            y <= row < matrix.len(),
            matrix.len() == g0.len(),
            forall|i: int|
                0 <= i < g0.len() ==> #[trigger] grid_of(*matrix)[i] == if y < i <= row {
                    g0[i - 1]
                } else {
                    g0[i]
                },
        decreases y,
    {
        let ghost before = grid_of(*matrix);
        let above = copy_row(&matrix[y - 1]);
        assert(above@ == before[y - 1]);
        matrix[y] = above;
        assert forall|i: int| 0 <= i < g0.len() implies #[trigger] grid_of(*matrix)[i] == if y - 1
            < i <= row {
            g0[i - 1]
        } else {
            g0[i]
        } by {
            if i != y {
                assert(grid_of(*matrix)[i] == before[i]);
            }
        }
        y -= 1;
    }
    assert(grid_of(*matrix) =~= shift_down(g0, row as int));
}

/// The scan for full rows, from the top row to the bottom.
fn clear_full_rows(matrix: &mut Vec<Vec<Block>>)
    ensures
        grid_of(*final(matrix)) == clear_rows(grid_of(*old(matrix))),
        final(matrix).len() == old(matrix).len(),
        forall|rows: int, cols: int|
            is_rect(grid_of(*old(matrix)), rows, cols) ==> is_rect(
                grid_of(*final(matrix)),
                rows,
                cols,
            ),
{
    let ghost g0 = grid_of(*matrix);
    let mut row: usize = 0;
    while row < matrix.len()
        invariant
            row <= matrix.len(),
            matrix.len() == g0.len(),
            clear_from(grid_of(*matrix), row as int) == clear_rows(g0),
            forall|rows: int, cols: int|
                is_rect(g0, rows, cols) ==> is_rect(grid_of(*matrix), rows, cols),
        decreases matrix.len() - row,
    {
        let ghost before = grid_of(*matrix);
        assert(before[row as int] == matrix[row as int]@);
        if is_full(&matrix[row]) {
            shift_rows(matrix, row);
            assert forall|rows: int, cols: int| is_rect(g0, rows, cols) implies is_rect(
                grid_of(*matrix),
                rows,
                cols,
            ) by {
                assert(is_rect(before, rows, cols));
                assert forall|i: int| 0 <= i < rows implies (#[trigger] grid_of(
                    *matrix,
                )[i]).len() == cols by {
                    if 1 <= i <= row {
                        assert(before[i - 1].len() == cols);
                    } else {
                        assert(before[i].len() == cols);
                    }
                }
            }
        }
        row += 1;
    }
}

impl Board {
    /// The grid of settled blocks.
    pub open spec fn grid(&self) -> Seq<Seq<Block>> {
        grid_of(self.matrix)
    }

    /// The shape of the falling piece in its present rotation state.
    pub open spec fn shape(&self) -> Seq<Seq<bool>> {
        shape_of(self.current_tetro, self.current_rotation as int)
    }

    /// The matrix has the board's dimensions, the dimensions are positive
    /// and within reach of the piece coordinates, and the rotation state is
    /// one of the four.
    pub open spec fn well_formed(&self) -> bool {
        &&& 0 < self.rows <= MAX_DIM
        &&& 0 < self.cols <= MAX_DIM
        &&& is_rect(self.grid(), self.rows as int, self.cols as int)
        &&& self.current_rotation < 4
    }

    /// Whether a piece of shape `s` with its origin at column `x`, row `y`
    /// is in collision with the walls, the floor or a settled block.
    pub open spec fn collides(&self, x: int, y: int, s: Seq<Seq<bool>>) -> bool {
        exists|r: int, c: int|
            #[trigger] cell(s, r, c) && blocked(
                self.grid(),
                self.rows as int,
                self.cols as int,
                y + r,
                x + c,
            )
    }

    /// Whether every cell of shape `s` at column `x`, row `y` lies on the
    /// grid.
    pub open spec fn in_bounds(&self, x: int, y: int, s: Seq<Seq<bool>>) -> bool {
        forall|r: int, c: int| #[trigger]
            cell(s, r, c) ==> 0 <= x + c < self.cols && 0 <= y + r < self.rows
    }

    /// The falling piece can be locked where it is: either it lies on the
    /// grid, or it reaches into the danger zone and locking it ends the game
    /// before anything is written.
    pub open spec fn placed(&self) -> bool {
        too_high(self.current_y as int, self.shape()) || self.in_bounds(
            self.current_x as int,
            self.current_y as int,
            self.shape(),
        )
    }

    /// A board of `rows` x `cols` empty cells on which `first` falls from
    /// the top, or the reason why there is no such board.
    pub fn new(rows: usize, cols: usize, block_width: u32, first: Tetromino) -> (made: Result<
        Board,
        ConfigError,
    >)
        ensures
            match grid_error(rows, cols) {
                Some(e) => made == Err::<Board, ConfigError>(e),
                None => made is Ok && ({
                    let b = made->Ok_0;
                    &&& b.rows == rows
                    &&& b.cols == cols
                    &&& b.block_width == block_width
                    &&& b.grid() == Seq::new(
                        rows as nat,
                        |i: int| Seq::new(cols as nat, |j: int| Block::Blank),
                    )
                    &&& b.current_tetro == first
                    &&& b.current_x == SPAWN_X
                    &&& b.current_y == 0
                    &&& b.current_rotation == 0
                    &&& !b.game_over
                    &&& b.well_formed()
                    &&& b.placed()
                }),
            },
    {
        if rows == 0 {
            return Err(ConfigError::ZeroRows);
        }
        if cols == 0 {
            return Err(ConfigError::ZeroCols);
        }
        if rows > MAX_DIM || cols > MAX_DIM {
            return Err(ConfigError::GridTooLarge);
        }
        let mut matrix: Vec<Vec<Block>> = Vec::new();
        let mut i: usize = 0;
        while i < rows
            invariant
                i <= rows,
                matrix.len() == i,
                grid_of(matrix) == Seq::new(
                    i as nat,
                    |i: int| Seq::new(cols as nat, |j: int| Block::Blank),
                ),
            decreases rows - i,
        {
            let row = blank_row(cols);
            let ghost before = grid_of(matrix);
            matrix.push(row);
            i += 1;
            assert forall|k: int| 0 <= k < i implies grid_of(matrix)[k] == Seq::new(
                cols as nat,
                |j: int| Block::Blank,
            ) by {
                if k < i - 1 {
                    assert(grid_of(matrix)[k] == before[k]);
                }
            }
            assert(grid_of(matrix) =~= Seq::new(
                i as nat,
                |i: int| Seq::new(cols as nat, |j: int| Block::Blank),
            ));
        }
        let board = Board {
            rows,
            cols,
            block_width,
            matrix,
            current_tetro: first,
            current_x: SPAWN_X,
            current_y: 0,
            current_rotation: 0,
            game_over: false,
        };
        proof {
            lemma_spawn_shape_near_top(first);
        }
        Ok(board)
    }

    /// The collision test at coordinates of any size: whether a piece with
    /// mask `rotated_piece` and origin `(x, y)` would be in collision.
    pub(crate) fn collision_at(&self, x: i64, y: i64, rotated_piece: ShapeMask) -> (hit: bool)
        requires
            self.well_formed(),
            -0x1_0000_0000 <= x <= 0x1_0000_0000,
            -0x1_0000_0000 <= y <= 0x1_0000_0000,
        ensures
            hit == self.collides(x as int, y as int, mask_view(rotated_piece)),
    {
        let ghost s = mask_view(rotated_piece);
        let ghost g = self.grid();
        let mut row: usize = 0;
        while row < 4
            invariant
                row <= 4,
                self.well_formed(),
                s == mask_view(rotated_piece),
                g == self.grid(),
                -0x1_0000_0000 <= x <= 0x1_0000_0000,
                -0x1_0000_0000 <= y <= 0x1_0000_0000,
                forall|r: int, c: int|
                    0 <= r < row && #[trigger] cell(s, r, c) ==> !blocked(
                        g,
                        self.rows as int,
                        self.cols as int,
                        y + r,
                        x + c,
                    ),
            decreases 4 - row,
        {
            let mut col: usize = 0;
            while col < 4
                invariant
                    row < 4,
                    col <= 4,
                    self.well_formed(),
                    s == mask_view(rotated_piece),
                    g == self.grid(),
                    -0x1_0000_0000 <= x <= 0x1_0000_0000,
                    -0x1_0000_0000 <= y <= 0x1_0000_0000,
                    forall|r: int, c: int|
                        0 <= r < row && #[trigger] cell(s, r, c) ==> !blocked(
                            g,
                            self.rows as int,
                            self.cols as int,
                            y + r,
                            x + c,
                        ),
                    forall|c: int|
                        0 <= c < col && #[trigger] cell(s, row as int, c) ==> !blocked(
                            g,
                            self.rows as int,
                            self.cols as int,
                            y + row,
                            x + c,
                        ),
                decreases 4 - col,
            {
                if rotated_piece[row][col] {
                    let new_x: i64 = x + col as i64;
                    let new_y: i64 = y + row as i64;
                    assert(cell(s, row as int, col as int));
                    if new_x < 0 || new_x >= self.cols as i64 || new_y >= self.rows as i64 {
                        return true;
                    }
                    if new_y >= 0 {
                        assert(g[new_y as int] == self.matrix[new_y as int]@);
                        if self.matrix[new_y as usize][new_x as usize] == Block::Fill {
                            return true;
                        }
                    }
                }
                col += 1;
            }
            row += 1;
        }
        false
    }

    /// The collision test: whether a piece with mask `rotated_piece` and
    /// origin at column `x`, row `y` would be beside the grid, below it, or
    /// on a settled block.
    pub fn collision(&self, x: i32, y: i32, rotated_piece: ShapeMask) -> (hit: bool)
        requires
            self.well_formed(),
        ensures
            hit == self.collides(x as int, y as int, mask_view(rotated_piece)),
    {
        self.collision_at(x as i64, y as i64, rotated_piece)
    }

    /// Whether every cell of a piece with mask `mask` and origin `(x, y)`
    /// lies on the grid.
    fn lies_on_grid(&self, x: i32, y: i32, mask: ShapeMask) -> (inside: bool)
        ensures
            inside == self.in_bounds(x as int, y as int, mask_view(mask)),
    {
        let ghost s = mask_view(mask);
        let mut row: usize = 0;
        while row < 4
            invariant
                row <= 4,
                s == mask_view(mask),
                forall|r: int, c: int|
                    0 <= r < row && #[trigger] cell(s, r, c) ==> 0 <= x + c < self.cols && 0 <= y
                        + r < self.rows,
            decreases 4 - row,
        {
            let mut col: usize = 0;
            while col < 4
                invariant
                    row < 4,
                    col <= 4,
                    s == mask_view(mask),
                    forall|r: int, c: int|
                        0 <= r < row && #[trigger] cell(s, r, c) ==> 0 <= x + c < self.cols && 0
                            <= y + r < self.rows,
                    forall|c: int|
                        0 <= c < col && #[trigger] cell(s, row as int, c) ==> 0 <= x + c
                            < self.cols && 0 <= y + row < self.rows,
                decreases 4 - col,
            {
                if mask[row][col] {
                    let at_x: i64 = x as i64 + col as i64;
                    let at_y: i64 = y as i64 + row as i64;
                    if at_x < 0 || at_y < 0 || at_x as u64 >= self.cols as u64 || at_y as u64
                        >= self.rows as u64 {
                        assert(cell(s, row as int, col as int));
                        return false;
                    }
                }
                col += 1;
            }
            row += 1;
        }
        true
    }

    /// Whether the board is well formed and its falling piece can be locked
    /// where it is: what every command asks of a board.
    pub fn is_valid(&self) -> (ok: bool)
        ensures
            ok == (self.well_formed() && self.placed()),
    {
        if self.rows == 0 || self.rows > MAX_DIM || self.cols == 0 || self.cols > MAX_DIM {
            return false;
        }
        if self.matrix.len() != self.rows || self.current_rotation >= 4 {
            return false;
        }
        let mut i: usize = 0;
        while i < self.rows
            invariant
                i <= self.rows,
                self.matrix.len() == self.rows,
                forall|k: int| 0 <= k < i ==> (#[trigger] self.grid()[k]).len() == self.cols,
            decreases self.rows - i,
        {
            if self.matrix[i].len() != self.cols {
                assert(self.grid()[i as int].len() != self.cols);
                return false;
            }
            assert(self.grid()[i as int].len() == self.cols);
            i += 1;
        }
        let mask = shape_mask(self.current_tetro, self.current_rotation);
        reaches_danger(self.current_y, mask) || self.lies_on_grid(
            self.current_x,
            self.current_y,
            mask,
        )
    }

    /// Moves the falling piece one row down, whatever is there.
    pub fn down(&mut self)
        requires
            old(self).current_y < i32::MAX,
        ensures
            *final(self) == (Board { current_y: (old(self).current_y + 1) as i32, ..*old(self) }),
    {
        self.current_y += 1;
    }
    /// Whether `post` is `pre` after a completed lock: the falling piece was
    /// written into the grid, the full rows were cleared, and `next` appeared
    /// at the top.
    pub open spec fn relocked(pre: Board, post: Board, next: Tetromino) -> bool {
        &&& post.rows == pre.rows
        &&& post.cols == pre.cols
        &&& post.block_width == pre.block_width
        &&& post.grid() == clear_rows(
            stamp(pre.grid(), pre.current_x as int, pre.current_y as int, pre.shape()),
        )
        &&& post.current_tetro == next
        &&& post.current_x == SPAWN_X
        &&& post.current_y == 0
        &&& post.current_rotation == 0
        &&& post.game_over == pre.game_over
    }

    /// Locks the falling piece where it is. If one of its cells lies in the
    /// danger zone the game ends and nothing else changes: the cells are
    /// visited from the top row down, so the first of them already ends the
    /// lock. Otherwise the piece becomes settled blocks, full rows are
    /// cleared, and `next` appears at the top. Returns whether the game
    /// ended.
    pub fn lock(&mut self, next: Tetromino) -> (ended: bool)
        requires
            old(self).well_formed(),
            old(self).placed(),
        ensures
            ended == too_high(old(self).current_y as int, old(self).shape()),
            ended ==> *final(self) == (Board { game_over: true, ..*old(self) }),
            !ended ==> Board::relocked(*old(self), *final(self), next),
            final(self).well_formed(),
            final(self).placed(),
    {
        let rotated_piece = shape_mask(self.current_tetro, self.current_rotation);
        if reaches_danger(self.current_y, rotated_piece) {
            self.game_over = true;
            return true;
        }
        let ghost s = self.shape();
        let ghost g0 = self.grid();
        let ghost x0 = self.current_x as int;
        let ghost y0 = self.current_y as int;
        assert(g0 =~~= stamp_upto(g0, x0, y0, s, 0));
        let mut row: usize = 0;
        while row < 4
            invariant
                row <= 4,
                self.well_formed(),
                self.in_bounds(x0, y0, s),
                s == mask_view(rotated_piece),
                x0 == self.current_x,
                y0 == self.current_y,
                is_rect(g0, self.rows as int, self.cols as int),
                self.grid() == stamp_upto(g0, x0, y0, s, row * 4),
                *self == (Board { matrix: self.matrix, ..*old(self) }),
            decreases 4 - row,
        {
            let mut col: usize = 0;
            while col < 4
                invariant
                    row < 4,
                    col <= 4,
                    self.well_formed(),
                    self.in_bounds(x0, y0, s),
                    s == mask_view(rotated_piece),
                    x0 == self.current_x,
                    y0 == self.current_y,
                    is_rect(g0, self.rows as int, self.cols as int),
                    self.grid() == stamp_upto(g0, x0, y0, s, row * 4 + col),
                    *self == (Board { matrix: self.matrix, ..*old(self) }),
                decreases 4 - col,
            {
                let ghost before = self.grid();
                if rotated_piece[row][col] {
                    assert(cell(s, row as int, col as int));
                    let y: i32 = self.current_y + row as i32;
                    let x: i32 = self.current_x + col as i32;
                    assert(before[y as int].len() == self.cols);
                    set_cell(&mut self.matrix, y as usize, x as usize, Block::Fill);
                }
                assert(self.grid() =~~= stamp_upto(g0, x0, y0, s, row * 4 + col + 1));
                col += 1;
            }
            row += 1;
        }
        clear_full_rows(&mut self.matrix);
        self.current_rotation = 0;
        self.current_y = 0;
        self.current_x = SPAWN_X;
        self.current_tetro = next;
        proof {
            lemma_spawn_shape_near_top(next);
        }
        false
    }
}

/// A piece with a cell beside the grid or below its floor is in collision.
pub proof fn lemma_outside_collides(b: Board, x: int, y: int, s: Seq<Seq<bool>>, r: int, c: int)
    requires
        cell(s, r, c),
        x + c < 0 || x + c >= b.cols || y + r >= b.rows,
    ensures
        b.collides(x, y, s),
{
    assert(blocked(b.grid(), b.rows as int, b.cols as int, y + r, x + c));
}

/// On a board without settled blocks a piece that lies on the grid is not in
/// collision.
pub proof fn lemma_inside_empty_is_free(b: Board, x: int, y: int, s: Seq<Seq<bool>>)
    requires
        b.grid() == Seq::new(b.rows as nat, |i: int| Seq::new(b.cols as nat, |j: int| Block::Blank)),
        b.in_bounds(x, y, s),
    ensures
        !b.collides(x, y, s),
{
    assert forall|r: int, c: int| #[trigger] cell(s, r, c) implies !blocked(
        b.grid(),
        b.rows as int,
        b.cols as int,
        y + r,
        x + c,
    ) by {
        assert(b.grid()[y + r][x + c] == Block::Blank);
    }
}

/// A scan that meets no full row leaves the grid as it is.
pub proof fn lemma_scan_without_full_row(g: Seq<Seq<Block>>, row: int)
    requires
        forall|i: int| row <= i < g.len() && 0 <= i ==> !row_full(#[trigger] g[i]),
    ensures
        clear_from(g, row) == g,
    decreases g.len() - row,
{
    if 0 <= row < g.len() {
        lemma_scan_without_full_row(g, row + 1);
    }
}

/// A scan from `row` that meets one full row, `full`, removes that row by
/// one gravity shift and changes nothing else.
pub proof fn lemma_scan_with_one_full_row(g: Seq<Seq<Block>>, row: int, full: int)
    requires
        0 <= row <= full < g.len(),
        row_full(g[full]),
        forall|i: int| row <= i < g.len() && i != full ==> !row_full(#[trigger] g[i]),
    ensures
        clear_from(g, row) == shift_down(g, full),
    decreases full - row,
{
    if row == full {
        let shifted = shift_down(g, full);
        assert forall|i: int| full + 1 <= i < shifted.len() && 0 <= i implies !row_full(
            #[trigger] shifted[i],
        ) by {
            assert(shifted[i] == g[i]);
        }
        lemma_scan_without_full_row(shifted, full + 1);
    } else {
        lemma_scan_with_one_full_row(g, row + 1, full);
    }
}

/// A lock that completes exactly one row: if the falling piece, written
/// into the grid, makes row `full` the one full row, then after the lock
/// every row down to `full` holds what the row above it held with the piece
/// written in, the rows below `full` hold the piece, and the grid has the
/// dimensions it had.
pub proof fn lemma_lock_clears_completed_row(pre: Board, post: Board, next: Tetromino, full: int)
    requires
        pre.well_formed(),
        Board::relocked(pre, post, next),
        0 <= full < pre.rows,
        ({
            let written = stamp(
                pre.grid(),
                pre.current_x as int,
                pre.current_y as int,
                pre.shape(),
            );
            &&& row_full(written[full])
            &&& forall|i: int| 0 <= i < pre.rows && i != full ==> !row_full(#[trigger] written[i])
        }),
    ensures
        post.grid() == shift_down(
            stamp(pre.grid(), pre.current_x as int, pre.current_y as int, pre.shape()),
            full,
        ),
        post.rows == pre.rows,
        post.cols == pre.cols,
        is_rect(post.grid(), pre.rows as int, pre.cols as int),
{
    let written = stamp(pre.grid(), pre.current_x as int, pre.current_y as int, pre.shape());
    lemma_scan_with_one_full_row(written, 0, full);
    assert forall|i: int| 0 <= i < pre.rows implies (#[trigger] post.grid()[i]).len()
        == pre.cols by {
        if 1 <= i <= full {
            assert(written[i - 1].len() == pre.grid()[i - 1].len());
        } else {
            assert(written[i].len() == pre.grid()[i].len());
        }
    }
}

} // verus!

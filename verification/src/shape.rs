//! The seven piece kinds and their occupancy masks in the four rotation states.

use vstd::prelude::*;

verus! {

/// The identity of a piece.
#[derive(Debug, Clone, Copy, PartialEq, Eq, Structural)]
pub enum Tetromino {
    I,
    J,
    L,
    O,
    S,
    T,
    Z,
}

/// Occupancy of one rotation state inside the 4x4 bounding box, indexed
/// `[row][col]`.
pub type ShapeMask = [[bool; 4]; 4];

/// The masks of one piece kind, indexed by rotation state.
pub type TetroValues = [ShapeMask; 4];

/// Whether `(r, c)` lies inside the 4x4 bounding box.
pub open spec fn in_box(r: int, c: int) -> bool {
    0 <= r < 4 && 0 <= c < 4
}

/// The geometry of every piece: whether kind `t` in rotation state `rot`
/// occupies row `r`, column `c` of its bounding box.
pub open spec fn occupied(t: Tetromino, rot: int, r: int, c: int) -> bool {
    in_box(r, c) && match t {
        Tetromino::I => {
            if rot == 0 {
                r == 1
            } else if rot == 1 {
                c == 2
            } else if rot == 2 {
                r == 2
            } else if rot == 3 {
                c == 1
            } else {
                false
            }
        },
        Tetromino::J => {
            if rot == 0 {
                (r == 0 && c == 0) || (r == 1 && c <= 2)
            } else if rot == 1 {
                (c == 1 && r <= 2) || (r == 0 && c == 2)
            } else if rot == 2 {
                (r == 1 && c <= 2) || (r == 2 && c == 2)
            } else if rot == 3 {
                (c == 1 && r <= 2) || (r == 2 && c == 0)
            } else {
                false
            }
        },
        Tetromino::L => {
            if rot == 0 {
                (r == 0 && c == 2) || (r == 1 && c <= 2)
            } else if rot == 1 {
                (c == 1 && r <= 2) || (r == 2 && c == 2)
            } else if rot == 2 {
                (r == 1 && c <= 2) || (r == 2 && c == 0)
            } else if rot == 3 {
                (c == 1 && r <= 2) || (r == 0 && c == 0)
            } else {
                false
            }
        },
        Tetromino::O => 0 <= rot < 4 && 1 <= r <= 2 && 1 <= c <= 2,
        Tetromino::S => {
            if rot == 0 {
                (r == 0 && 1 <= c <= 2) || (r == 1 && c <= 1)
            } else if rot == 1 {
                (c == 1 && r <= 1) || (c == 2 && 1 <= r <= 2)
            } else if rot == 2 {
                (r == 1 && 1 <= c <= 2) || (r == 2 && c <= 1)
            } else if rot == 3 {
                (c == 0 && r <= 1) || (c == 1 && 1 <= r <= 2)
            } else {
                false
            }
        },
        Tetromino::T => {
            if rot == 0 {
                (r == 0 && c == 1) || (r == 1 && c <= 2)
            } else if rot == 1 {
                (c == 1 && r <= 2) || (r == 1 && c == 2)
            } else if rot == 2 {
                (r == 1 && c <= 2) || (r == 2 && c == 1)
            } else if rot == 3 {
                (c == 1 && r <= 2) || (r == 1 && c == 0)
            } else {
                false
            }
        },
        Tetromino::Z => {
            if rot == 0 {
                (r == 0 && c <= 1) || (r == 1 && 1 <= c <= 2)
            } else if rot == 1 {
                (c == 2 && r <= 1) || (c == 1 && 1 <= r <= 2)
            } else if rot == 2 {
                (r == 1 && c <= 1) || (r == 2 && 1 <= c <= 2)
            } else if rot == 3 {
                (c == 1 && r <= 1) || (c == 0 && 1 <= r <= 2)
            } else {
                false
            }
        },
    }
}

/// The shape of kind `t` in rotation state `rot` as a 4x4 grid of booleans,
/// indexed `[row][col]`.
pub open spec fn shape_of(t: Tetromino, rot: int) -> Seq<Seq<bool>> {
    Seq::new(4, |r: int| Seq::new(4, |c: int| occupied(t, rot, r, c)))
}

/// What a mask holds: its 4x4 grid of booleans, indexed `[row][col]`.
pub open spec fn mask_view(mask: ShapeMask) -> Seq<Seq<bool>> {
    Seq::new(4, |r: int| Seq::new(4, |c: int| mask[r][c]))
}

/// Whether shape `s` marks row `r`, column `c` as occupied. Nothing outside
/// the bounding box is occupied.
pub open spec fn cell(s: Seq<Seq<bool>>, r: int, c: int) -> bool {
    in_box(r, c) && s[r][c]
}

/// The four masks of a piece kind, in rotation order.
pub fn tetro_values(t: Tetromino) -> (v: TetroValues)
    ensures
        forall|rot: int| 0 <= rot < 4 ==> mask_view(#[trigger] v[rot]) == shape_of(t, rot),
{
    let o: bool = false;
    let x: bool = true;
    let v: TetroValues = match t {
        Tetromino::I => [
            [[o, o, o, o], [x, x, x, x], [o, o, o, o], [o, o, o, o]],
            [[o, o, x, o], [o, o, x, o], [o, o, x, o], [o, o, x, o]],
            [[o, o, o, o], [o, o, o, o], [x, x, x, x], [o, o, o, o]],
            [[o, x, o, o], [o, x, o, o], [o, x, o, o], [o, x, o, o]],
        ],
        Tetromino::J => [
            [[x, o, o, o], [x, x, x, o], [o, o, o, o], [o, o, o, o]],
            [[o, x, x, o], [o, x, o, o], [o, x, o, o], [o, o, o, o]],
            [[o, o, o, o], [x, x, x, o], [o, o, x, o], [o, o, o, o]],
            [[o, x, o, o], [o, x, o, o], [x, x, o, o], [o, o, o, o]],
        ],
        Tetromino::L => [
            [[o, o, x, o], [x, x, x, o], [o, o, o, o], [o, o, o, o]],
            [[o, x, o, o], [o, x, o, o], [o, x, x, o], [o, o, o, o]],
            [[o, o, o, o], [x, x, x, o], [x, o, o, o], [o, o, o, o]],
            [[x, x, o, o], [o, x, o, o], [o, x, o, o], [o, o, o, o]],
        ],
        Tetromino::O => [
            [[o, o, o, o], [o, x, x, o], [o, x, x, o], [o, o, o, o]],
            [[o, o, o, o], [o, x, x, o], [o, x, x, o], [o, o, o, o]],
            [[o, o, o, o], [o, x, x, o], [o, x, x, o], [o, o, o, o]],
            [[o, o, o, o], [o, x, x, o], [o, x, x, o], [o, o, o, o]],
        ],
        Tetromino::S => [
            [[o, x, x, o], [x, x, o, o], [o, o, o, o], [o, o, o, o]],
            [[o, x, o, o], [o, x, x, o], [o, o, x, o], [o, o, o, o]],
            [[o, o, o, o], [o, x, x, o], [x, x, o, o], [o, o, o, o]],
            [[x, o, o, o], [x, x, o, o], [o, x, o, o], [o, o, o, o]],
        ],
        Tetromino::T => [
            [[o, x, o, o], [x, x, x, o], [o, o, o, o], [o, o, o, o]],
            [[o, x, o, o], [o, x, x, o], [o, x, o, o], [o, o, o, o]],
            [[o, o, o, o], [x, x, x, o], [o, x, o, o], [o, o, o, o]],
            [[o, x, o, o], [x, x, o, o], [o, x, o, o], [o, o, o, o]],
        ],
        Tetromino::Z => [
            [[x, x, o, o], [o, x, x, o], [o, o, o, o], [o, o, o, o]],
            [[o, o, x, o], [o, x, x, o], [o, x, o, o], [o, o, o, o]],
            [[o, o, o, o], [x, x, o, o], [o, x, x, o], [o, o, o, o]],
            [[o, x, o, o], [x, x, o, o], [x, o, o, o], [o, o, o, o]],
        ],
    };
    assert forall|rot: int| 0 <= rot < 4 implies mask_view(#[trigger] v[rot]) == shape_of(
        t,
        rot,
    ) by {
        assert(mask_view(v[rot]) =~~= shape_of(t, rot));
    }
    v
}

/// The mask of kind `t` in rotation state `rotation`.
pub fn shape_mask(t: Tetromino, rotation: u32) -> (mask: ShapeMask)
    requires
        rotation < 4,
    ensures
        mask_view(mask) == shape_of(t, rotation as int),
{
    let v = tetro_values(t);
    v[rotation as usize]
}

/// The rotation state that follows `v`: the states cycle 0, 1, 2, 3, 0.
/// Anything that is no rotation state is followed by state 0.
pub fn next_rotation(v: u32) -> (next: u32)
    ensures
        next < 4,
        v < 4 ==> next == (v + 1) % 4,
        v >= 4 ==> next == 0,
{
    if v >= 3 {
        return 0;
    }
    v + 1
}

/// The piece kind at position `index` of the order I, J, L, O, S, T, Z.
pub open spec fn kind_at(index: int) -> Tetromino {
    if index == 0 {
        Tetromino::I
    } else if index == 1 {
        Tetromino::J
    } else if index == 2 {
        Tetromino::L
    } else if index == 3 {
        Tetromino::O
    } else if index == 4 {
        Tetromino::S
    } else if index == 5 {
        Tetromino::T
    } else {
        Tetromino::Z
    }
}

/// Turns a draw from `0..7` into a piece kind, so that a uniform draw gives
/// a uniformly chosen kind.
pub fn tetro_from_index(index: usize) -> (t: Tetromino)
    requires
        index < 7,
    ensures
        t == kind_at(index as int),
{
    let kinds: [Tetromino; 7] = [
        Tetromino::I,
        Tetromino::J,
        Tetromino::L,
        Tetromino::O,
        Tetromino::S,
        Tetromino::T,
        Tetromino::Z,
    ];
    kinds[index]
}

/// No rotation state of any piece is empty: each occupies at least one cell
/// of its bounding box.
pub proof fn lemma_shape_nonempty(t: Tetromino, rot: int)
    requires
        0 <= rot < 4,
    ensures
        exists|r: int, c: int| cell(shape_of(t, rot), r, c),
{
    let s = shape_of(t, rot);
    assert(cell(s, 1, 1) || cell(s, 1, 2) || cell(s, 2, 1));
}

/// The O piece looks the same in all four rotation states.
pub proof fn lemma_o_rotation_invariant(rot_a: int, rot_b: int)
    requires
        0 <= rot_a < 4,
        0 <= rot_b < 4,
    ensures
        shape_of(Tetromino::O, rot_a) == shape_of(Tetromino::O, rot_b),
{
    assert(shape_of(Tetromino::O, rot_a) =~~= shape_of(Tetromino::O, rot_b));
}

/// In its spawn orientation every piece has an occupied cell in one of the
/// top two rows of its bounding box.
pub proof fn lemma_spawn_shape_near_top(t: Tetromino)
    ensures
        exists|r: int, c: int| cell(shape_of(t, 0), r, c) && r <= 1,
{
    let s = shape_of(t, 0);
    assert(cell(s, 1, 1));
}

} // verus!

use tetris::shape::{next_rotation, shape_mask, tetro_from_index, tetro_values, Tetromino};

fn expect_table(t: Tetromino, rows: [[u8; 4]; 16]) {
    let v = tetro_values(t);
    for rot in 0..4 {
        for r in 0..4 {
            for c in 0..4 {
                assert_eq!(v[rot][r][c], rows[rot * 4 + r][c] == 1, "{:?} {} {} {}", t, rot, r, c);
            }
        }
    }
}

#[test]
fn table_of_i() {
    expect_table(
        Tetromino::I,
        [
            [0, 0, 0, 0],
            [1, 1, 1, 1],
            [0, 0, 0, 0],
            [0, 0, 0, 0],
            [0, 0, 1, 0],
            [0, 0, 1, 0],
            [0, 0, 1, 0],
            [0, 0, 1, 0],
            [0, 0, 0, 0],
            [0, 0, 0, 0],
            [1, 1, 1, 1],
            [0, 0, 0, 0],
            [0, 1, 0, 0],
            [0, 1, 0, 0],
            [0, 1, 0, 0],
            [0, 1, 0, 0],
        ],
    );
}

#[test]
fn table_of_j() {
    expect_table(
        Tetromino::J,
        [
            [1, 0, 0, 0],
            [1, 1, 1, 0],
            [0, 0, 0, 0],
            [0, 0, 0, 0],
            [0, 1, 1, 0],
            [0, 1, 0, 0],
            [0, 1, 0, 0],
            [0, 0, 0, 0],
            [0, 0, 0, 0],
            [1, 1, 1, 0],
            [0, 0, 1, 0],
            [0, 0, 0, 0],
            [0, 1, 0, 0],
            [0, 1, 0, 0],
            [1, 1, 0, 0],
            [0, 0, 0, 0],
        ],
    );
}

#[test]
fn table_of_l() {
    expect_table(
        Tetromino::L,
        [
            [0, 0, 1, 0],
            [1, 1, 1, 0],
            [0, 0, 0, 0],
            [0, 0, 0, 0],
            [0, 1, 0, 0],
            [0, 1, 0, 0],
            [0, 1, 1, 0],
            [0, 0, 0, 0],
            [0, 0, 0, 0],
            [1, 1, 1, 0],
            [1, 0, 0, 0],
            [0, 0, 0, 0],
            [1, 1, 0, 0],
            [0, 1, 0, 0],
            [0, 1, 0, 0],
            [0, 0, 0, 0],
        ],
    );
}

#[test]
fn table_of_o() {
    expect_table(
        Tetromino::O,
        [
            [0, 0, 0, 0],
            [0, 1, 1, 0],
            [0, 1, 1, 0],
            [0, 0, 0, 0],
            [0, 0, 0, 0],
            [0, 1, 1, 0],
            [0, 1, 1, 0],
            [0, 0, 0, 0],
            [0, 0, 0, 0],
            [0, 1, 1, 0],
            [0, 1, 1, 0],
            [0, 0, 0, 0],
            [0, 0, 0, 0],
            [0, 1, 1, 0],
            [0, 1, 1, 0],
            [0, 0, 0, 0],
        ],
    );
}

#[test]
fn table_of_s() {
    expect_table(
        Tetromino::S,
        [
            [0, 1, 1, 0],
            [1, 1, 0, 0],
            [0, 0, 0, 0],
            [0, 0, 0, 0],
            [0, 1, 0, 0],
            [0, 1, 1, 0],
            [0, 0, 1, 0],
            [0, 0, 0, 0],
            [0, 0, 0, 0],
            [0, 1, 1, 0],
            [1, 1, 0, 0],
            [0, 0, 0, 0],
            [1, 0, 0, 0],
            [1, 1, 0, 0],
            [0, 1, 0, 0],
            [0, 0, 0, 0],
        ],
    );
}

#[test]
fn table_of_t() {
    expect_table(
        Tetromino::T,
        [
            [0, 1, 0, 0],
            [1, 1, 1, 0],
            [0, 0, 0, 0],
            [0, 0, 0, 0],
            [0, 1, 0, 0],
            [0, 1, 1, 0],
            [0, 1, 0, 0],
            [0, 0, 0, 0],
            [0, 0, 0, 0],
            [1, 1, 1, 0],
            [0, 1, 0, 0],
            [0, 0, 0, 0],
            [0, 1, 0, 0],
            [1, 1, 0, 0],
            [0, 1, 0, 0],
            [0, 0, 0, 0],
        ],
    );
}

#[test]
fn table_of_z() {
    expect_table(
        Tetromino::Z,
        [
            [1, 1, 0, 0],
            [0, 1, 1, 0],
            [0, 0, 0, 0],
            [0, 0, 0, 0],
            [0, 0, 1, 0],
            [0, 1, 1, 0],
            [0, 1, 0, 0],
            [0, 0, 0, 0],
            [0, 0, 0, 0],
            [1, 1, 0, 0],
            [0, 1, 1, 0],
            [0, 0, 0, 0],
            [0, 1, 0, 0],
            [1, 1, 0, 0],
            [1, 0, 0, 0],
            [0, 0, 0, 0],
        ],
    );
}

const KINDS: [Tetromino; 7] = [
    Tetromino::I,
    Tetromino::J,
    Tetromino::L,
    Tetromino::O,
    Tetromino::S,
    Tetromino::T,
    Tetromino::Z,
];

#[test]
fn every_rotation_has_four_cells() {
    for t in KINDS {
        let v = tetro_values(t);
        for rot in 0..4 {
            let mut n = 0;
            for r in 0..4 {
                for c in 0..4 {
                    if v[rot][r][c] {
                        n += 1;
                    }
                }
            }
            assert_eq!(n, 4, "{:?} rotation {}", t, rot);
        }
    }
}

#[test]
fn o_piece_is_rotation_invariant() {
    let v = tetro_values(Tetromino::O);
    assert_eq!(v[0], v[1]);
    assert_eq!(v[1], v[2]);
    assert_eq!(v[2], v[3]);
    assert_eq!(
        v[0],
        [
            [false, false, false, false],
            [false, true, true, false],
            [false, true, true, false],
            [false, false, false, false],
        ]
    );
}

#[test]
fn shape_mask_picks_the_rotation() {
    for t in KINDS {
        let v = tetro_values(t);
        for rot in 0..4u32 {
            assert_eq!(shape_mask(t, rot), v[rot as usize]);
        }
    }
    assert_eq!(
        shape_mask(Tetromino::I, 1),
        [
            [false, false, true, false],
            [false, false, true, false],
            [false, false, true, false],
            [false, false, true, false],
        ]
    );
    assert_ne!(shape_mask(Tetromino::T, 0), shape_mask(Tetromino::T, 2));
}

#[test]
fn rotation_states_cycle() {
    assert_eq!(next_rotation(0), 1);
    assert_eq!(next_rotation(1), 2);
    assert_eq!(next_rotation(2), 3);
    assert_eq!(next_rotation(3), 0);
    assert_eq!(next_rotation(4), 0);
    assert_eq!(next_rotation(u32::MAX), 0);
}

#[test]
fn draws_map_to_kinds_in_order() {
    for (i, t) in KINDS.iter().enumerate() {
        assert_eq!(tetro_from_index(i), *t);
    }
}

use pocket_cube::color::Color;
use pocket_cube::corner::Corner;
use pocket_cube::cube::{Cube, Pocket};
use pocket_cube::pocket_cube::PocketCube;
use pocket_cube::rotation::Rotation;

#[test]
fn pocket_rotations_correct() {
    check_rotation(
        Rotation::L,
        [
            [0, 0, 1, 5, 0, 3],
            [0, 1, 1, 5, 1, 3],
            [0, 0, 0, 4, 0, 3],
            [0, 1, 0, 4, 1, 3],
            [1, 0, 0, 0, 5, 2],
            [1, 0, 1, 1, 5, 2],
            [1, 1, 0, 0, 4, 2],
            [1, 1, 1, 1, 4, 2],
        ],
    );
    check_rotation(
        Rotation::Lc,
        [
            [0, 1, 0, 5, 0, 3],
            [0, 0, 0, 5, 1, 3],
            [0, 1, 1, 4, 0, 3],
            [0, 0, 1, 4, 1, 3],
            [1, 0, 0, 0, 5, 2],
            [1, 0, 1, 1, 5, 2],
            [1, 1, 0, 0, 4, 2],
            [1, 1, 1, 1, 4, 2],
        ],
    );
    check_rotation(
        Rotation::R,
        [
            [0, 0, 0, 0, 5, 3],
            [0, 0, 1, 1, 5, 3],
            [0, 1, 0, 0, 4, 3],
            [0, 1, 1, 1, 4, 3],
            [1, 1, 0, 5, 0, 2],
            [1, 0, 0, 5, 1, 2],
            [1, 1, 1, 4, 0, 2],
            [1, 0, 1, 4, 1, 2],
        ],
    );
    check_rotation(
        Rotation::Bo,
        [
            [0, 1, 0, 0, 3, 5],
            [0, 0, 1, 1, 5, 3],
            [1, 1, 0, 0, 3, 4],
            [0, 1, 1, 1, 4, 3],
            [0, 0, 0, 0, 2, 5],
            [1, 0, 1, 1, 5, 2],
            [1, 0, 0, 0, 2, 4],
            [1, 1, 1, 1, 4, 2],
        ],
    );
}

fn check_rotation(r: Rotation, a: [[u8; 6]; 8]) {
    let cube = Pocket::new().rotate(r);
    let ref_cube = Pocket::from_array(a);
    assert_eq!(cube, ref_cube, "cube: {:?}, ref: {:?}", cube, ref_cube)
}

#[test]
fn rotates_left_clockwise_correctly() {
    let cube = PocketCube::new().rotate(0);
    let ref_cube = PocketCube::from_array([
        [0, 0, 1, 5, 0, 3],
        [0, 1, 1, 5, 1, 3],
        [0, 0, 0, 4, 0, 3],
        [0, 1, 0, 4, 1, 3],
        [1, 0, 0, 0, 5, 2],
        [1, 0, 1, 1, 5, 2],
        [1, 1, 0, 0, 4, 2],
        [1, 1, 1, 1, 4, 2],
    ]);
    assert_eq!(cube, ref_cube, "cube: {:?}, ref: {:?}", cube, ref_cube);
}

#[test]
fn rotates_0_correctly() {
    let cube = PocketCube::new();
    let cube = cube.rotate(0);
    let reference_cube = PocketCube {
        cube: Pocket {
            corners: [
                Corner {
                    position: [0, 0, 1],
                    orientation: [Color::Green, Color::White, Color::Orange],
                },
                Corner {
                    position: [0, 1, 1],
                    orientation: [Color::Green, Color::Yellow, Color::Orange],
                },
                Corner {
                    position: [0, 0, 0],
                    orientation: [Color::Blue, Color::White, Color::Orange],
                },
                Corner {
                    position: [0, 1, 0],
                    orientation: [Color::Blue, Color::Yellow, Color::Orange],
                },
                Corner {
                    position: [1, 0, 0],
                    orientation: [Color::White, Color::Green, Color::Red],
                },
                Corner {
                    position: [1, 0, 1],
                    orientation: [Color::Yellow, Color::Green, Color::Red],
                },
                Corner {
                    position: [1, 1, 0],
                    orientation: [Color::White, Color::Blue, Color::Red],
                },
                Corner {
                    position: [1, 1, 1],
                    orientation: [Color::Yellow, Color::Blue, Color::Red],
                },
            ],
        },
    };
    assert_eq!(cube, reference_cube);
}

#[test]
fn new_cube_is_solved() {
    assert!(Pocket::new().is_solved());
    assert!(PocketCube::new().is_solved());
}

#[test]
fn rotated_cube_is_not_solved() {
    for r in Rotation::array() {
        assert!(!Pocket::new().rotate(r).is_solved());
    }
}

#[test]
fn array_encoding_round_trips() {
    let a = [
        [0, 0, 1, 5, 0, 3],
        [0, 1, 1, 5, 1, 3],
        [0, 0, 0, 4, 0, 3],
        [0, 1, 0, 4, 1, 3],
        [1, 0, 0, 0, 5, 2],
        [1, 0, 1, 1, 5, 2],
        [1, 1, 0, 0, 4, 2],
        [1, 1, 1, 1, 4, 2],
    ];
    assert_eq!(Pocket::from_array(a).to_array(), a);
    assert_eq!(PocketCube::from_array(a).to_array(), a);
}

#[test]
fn rotate_then_reverse_restores_any_reachable_cube() {
    // inverse round-trip, from the solved cube and from a scrambled one
    for r in Rotation::array() {
        let cube = Pocket::new();
        assert_eq!(cube.rotate(r).rotate(r.reverse()), cube);
    }
    let scrambled = Pocket::new().rotate(Rotation::F).rotate(Rotation::T).rotate(Rotation::Rc);
    for r in Rotation::array() {
        assert_eq!(scrambled.rotate(r).rotate(r.reverse()), scrambled);
    }
}

#[test]
fn four_identical_quarter_turns_restore_the_cube() {
    let scrambled = Pocket::new().rotate(Rotation::Bo).rotate(Rotation::Lc);
    for r in Rotation::array() {
        let cube = scrambled.rotate(r).rotate(r).rotate(r).rotate(r);
        assert_eq!(cube, scrambled);
    }
}

#[test]
fn positions_stay_a_bijection_after_rotations() {
    let cube = Pocket::new()
        .rotate(Rotation::L)
        .rotate(Rotation::F)
        .rotate(Rotation::T)
        .rotate(Rotation::Bac)
        .rotate(Rotation::R);
    let mut positions: Vec<[u8; 3]> = cube
        .to_array()
        .iter()
        .map(|row| [row[0], row[1], row[2]])
        .collect();
    positions.sort();
    let expected: Vec<[u8; 3]> = vec![
        [0, 0, 0],
        [0, 0, 1],
        [0, 1, 0],
        [0, 1, 1],
        [1, 0, 0],
        [1, 0, 1],
        [1, 1, 0],
        [1, 1, 1],
    ];
    assert_eq!(positions, expected);
}

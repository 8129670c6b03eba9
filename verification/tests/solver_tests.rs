use pocket_cube::cube::{Cube, Pocket};
use pocket_cube::pocket_cube::PocketCube;
use pocket_cube::rotation::Rotation;
use pocket_cube::solver::{brute_force, maybe_solve_in, scramble};

/// The one-move solution the search finds for a cube scrambled by `r`.
///
/// The solved-state test is anchored at corner 0, so a whole-cube
/// reorientation counts as solved. Turning the opposite face of the same
/// axis in the same geometric direction therefore also solves a one-move
/// scramble, and for the value-1 faces that companion move precedes the
/// plain inverse in canonical order, so the depth-first search returns it.
fn expected_solution(r: Rotation) -> Rotation {
    match r {
        Rotation::L => Rotation::Lc,
        Rotation::Lc => Rotation::L,
        Rotation::R => Rotation::Lc,
        Rotation::Rc => Rotation::L,
        Rotation::Ba => Rotation::Bac,
        Rotation::Bac => Rotation::Ba,
        Rotation::F => Rotation::Bac,
        Rotation::Fc => Rotation::Ba,
        Rotation::Bo => Rotation::Boc,
        Rotation::Boc => Rotation::Bo,
        Rotation::T => Rotation::Boc,
        Rotation::Tc => Rotation::Bo,
    }
}

#[test]
fn pocket_brute_force_single_rotation() {
    for r in Rotation::array() {
        check_brute_force(r);
    }
}

fn check_brute_force(r: Rotation) {
    let cube = Pocket::new().rotate(r);
    let (moves, c) = brute_force(&cube, 1);
    assert_eq!(
        moves,
        Some(vec![expected_solution(r)]),
        "r: {:?}, moves: {:?}, count: {}",
        r,
        moves,
        c
    )
}

#[test]
fn one_move_scrambles_solve_to_the_inverse_for_value_zero_faces() {
    for r in [Rotation::L, Rotation::Lc, Rotation::Ba, Rotation::Bac, Rotation::Bo, Rotation::Boc]
    {
        let cube = Pocket::new().rotate(r);
        let (moves, _) = brute_force(&cube, 1);
        assert_eq!(moves, Some(vec![r.reverse()]));
    }
}

#[test]
fn a_face_turn_and_its_companion_turn_the_whole_cube() {
    // turning the opposite face the same way about the axis re-solves the
    // cube: a pocket cube has no centers, so a whole-cube turn reads as
    // solved
    let pairs = [
        (Rotation::L, Rotation::Rc),
        (Rotation::R, Rotation::Lc),
        (Rotation::Ba, Rotation::Fc),
        (Rotation::F, Rotation::Bac),
        (Rotation::Bo, Rotation::Tc),
        (Rotation::T, Rotation::Boc),
    ];
    for (r, companion) in pairs {
        assert!(Pocket::new().rotate(r).rotate(companion).is_solved());
        assert!(Pocket::new().rotate(companion).rotate(r).is_solved());
    }
}

#[test]
fn solved_cube_solves_with_the_empty_path() {
    let cube = Pocket::new();
    let (moves, nodes) = brute_force(&cube, 3);
    assert_eq!(moves, Some(vec![]));
    assert_eq!(nodes, 1);
}

#[test]
fn solution_found_at_its_depth_is_minimal() {
    // two quarter turns of different axes need exactly two moves to undo
    let cube = Pocket::new().rotate(Rotation::L).rotate(Rotation::F);
    let (moves, _) = brute_force(&cube, 3);
    let moves = moves.expect("a two-move scramble solves within depth 3");
    assert_eq!(moves.len(), 2);
    let mut check = cube;
    for r in &moves {
        check = check.rotate(*r);
    }
    assert!(check.is_solved());
    // depth 1 alone does not reach it
    let (too_shallow, _) = brute_force(&cube, 1);
    assert_eq!(too_shallow, None);
}

#[test]
fn exhausted_search_reports_no_solution() {
    let cube = Pocket::new().rotate(Rotation::L).rotate(Rotation::F);
    let (moves, nodes) = brute_force(&cube, 0);
    assert_eq!(moves, None);
    assert_eq!(nodes, 1);
}

#[test]
fn node_count_is_monotonic_in_the_depth_bound() {
    let cube = Pocket::new().rotate(Rotation::L).rotate(Rotation::F).rotate(Rotation::T);
    let mut previous: u64 = 0;
    for depth in 0..4u8 {
        let (_, nodes) = brute_force(&cube, depth);
        assert!(nodes >= previous, "depth {}: {} < {}", depth, nodes, previous);
        previous = nodes;
    }
}

#[test]
fn maybe_solve_in_matches_brute_force() {
    let cube = Pocket::new().rotate(Rotation::T);
    assert_eq!(maybe_solve_in(&cube, 1), brute_force(&cube, 1));
}

#[test]
fn scramble_of_length_zero_returns_the_cube_unchanged() {
    let cube = Pocket::new().rotate(Rotation::F);
    let (scrambled, moves) = scramble(&cube, 0);
    assert_eq!(scrambled, cube);
    assert_eq!(moves, vec![]);
    let indexed = PocketCube::new();
    let (scrambled, moves) = indexed.scramble(0);
    assert_eq!(scrambled, indexed);
    assert_eq!(moves, vec![]);
}

#[test]
fn scramble_applies_exactly_its_reported_moves() {
    let cube = Pocket::new();
    let (scrambled, moves) = scramble(&cube, 6);
    assert_eq!(moves.len(), 6);
    let mut replay = cube;
    for r in &moves {
        replay = replay.rotate(*r);
    }
    assert_eq!(replay, scrambled);
}

#[test]
fn indexed_scramble_reports_valid_indexes_and_replays() {
    let cube = PocketCube::new();
    let (scrambled, moves) = cube.scramble(5);
    assert_eq!(moves.len(), 5);
    let mut replay = cube;
    for i in &moves {
        assert!(*i < 12);
        replay = replay.rotate(*i);
    }
    assert_eq!(replay, scrambled);
}

#[test]
fn indexed_solver_reports_index_paths() {
    for i in 0..12u8 {
        let cube = PocketCube::new().rotate(i);
        let (moves, _) = cube.maybe_solve_in(1);
        let moves = moves.expect("a one-move scramble solves at depth 1");
        assert_eq!(moves, vec![expected_solution(Rotation::by_index(i)).index()]);
    }
}

#[test]
fn end_to_end_first_canonical_rotation() {
    // the first canonical rotation turns the axis-0/value-0 face clockwise
    let solved = Pocket::new();
    let start = solved.to_array();
    assert_eq!(start[0], [0, 0, 0, 0, 5, 3]);
    let cube = solved.rotate(Rotation::by_index(0));
    let after = cube.to_array();
    // the piece that sat at (0,0,0) moved to (0,0,1); its three colors are
    // the same set, re-seated by the turn
    assert_eq!([after[0][0], after[0][1], after[0][2]], [0, 0, 1]);
    let mut colors = [after[0][3], after[0][4], after[0][5]];
    colors.sort();
    assert_eq!(colors, [0, 3, 5]);
    // the scrambled cube solves at depth 1 with the single inverse move
    let (moves, _) = brute_force(&cube, 1);
    assert_eq!(moves, Some(vec![Rotation::by_index(0).reverse()]));
    assert!(cube.rotate(Rotation::Lc).is_solved());
}

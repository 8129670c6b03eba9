//! Scrambling and the iterative-deepening depth-first solver, written
//! generically against the `Cube` trait.

use vstd::prelude::*;

use crate::cube::{lemma_apply_push, spec_apply, Cube};
use crate::rotation::Rotation;

verus! {

/// Whether candidate move `r` is pruned at a search node whose path so far
/// is `moves`: a move is skipped when it would undo the immediately
/// preceding move, or when the preceding three moves are all identical to it
/// (a fourth repetition returns to the state before the first of the four).
pub open spec fn spec_pruned(moves: Seq<Rotation>, r: Rotation) -> bool {
    ||| (moves.len() > 0 && r.spec_is_reverse(moves.last()))
    ||| (moves.len() >= 3 && moves[moves.len() - 1] == r && moves[moves.len() - 2] == r
        && moves[moves.len() - 3] == r)
}

/// Result of the depth-limited search rooted at state `v` with path `moves`
/// and `n` moves left: the solving path, if the leftmost solved leaf exists,
/// and the number of leaves examined in this subtree.
pub open spec fn spec_dls<T: Cube>(v: T::V, moves: Seq<Rotation>, n: nat) -> (
    Option<Seq<Rotation>>,
    nat,
)
    decreases n, 1int, 0int,
{
    if n == 0 {
        if T::spec_solved(v) {
            (Some(moves), 1)
        } else {
            (None, 1)
        }
    } else {
        spec_dls_children::<T>(v, moves, n, 0)
    }
}

/// Result of searching the children of a node in canonical move order,
/// starting from child index `i`.
pub open spec fn spec_dls_children<T: Cube>(v: T::V, moves: Seq<Rotation>, n: nat, i: int) -> (
    Option<Seq<Rotation>>,
    nat,
)
    recommends
        n >= 1,
        0 <= i <= 12,
    decreases n, 0int, 12 - i,
{
    if n == 0 || i < 0 || i >= 12 {
        (None, 0)
    } else {
        let r = Rotation::spec_by_index(i as u8);
        if spec_pruned(moves, r) {
            spec_dls_children::<T>(v, moves, n, i + 1)
        } else {
            let child = spec_dls::<T>(T::spec_rotate(v, r), moves.push(r), (n - 1) as nat);
            if child.0 is Some {
                child
            } else {
                let rest = spec_dls_children::<T>(v, moves, n, i + 1);
                (rest.0, child.1 + rest.1)
            }
        }
    }
}

/// Result of iterative deepening from depth `d` up to and including `max`:
/// the first depth with a solution wins, and the leaf counts of all depths
/// tried are accumulated.
pub open spec fn spec_solve_from<T: Cube>(v: T::V, d: nat, max: nat) -> (
    Option<Seq<Rotation>>,
    nat,
)
    decreases max + 1 - d,
{
    if d > max {
        (None, 0)
    } else {
        let here = spec_dls::<T>(v, Seq::empty(), d);
        if here.0 is Some {
            here
        } else {
            let rest = spec_solve_from::<T>(v, (d + 1) as nat, max);
            (rest.0, here.1 + rest.1)
        }
    }
}

/// Result of the full iterative-deepening search with depth bound `max`.
pub open spec fn spec_solve<T: Cube>(v: T::V, max: nat) -> (Option<Seq<Rotation>>, nat) {
    spec_solve_from::<T>(v, 0, max)
}

/// `a + b` capped at the largest `u64` value; the node counter saturates
/// instead of wrapping.
pub open spec fn spec_sat_add(a: u64, b: nat) -> u64 {
    if a + b <= u64::MAX {
        (a + b) as u64
    } else {
        u64::MAX
    }
}

/// Perform `n` random rotations on a cube and return the result together
/// with the ordered list of moves applied. A scramble of length 0 returns
/// the cube unchanged with an empty move list.
pub fn scramble<T: Cube + Copy>(cube: &T, n: u8) -> (res: (T, Vec<Rotation>))
    requires
        cube.inv(),
    ensures
        res.1@.len() == n as nat,
        res.0@ == spec_apply::<T>(cube@, res.1@),
        res.0.inv(),
        n == 0 ==> res.0@ == cube@ && res.1@ == Seq::<Rotation>::empty(),
{
    let mut rotations: Vec<Rotation> = Vec::new();
    let mut new_cube = *cube;
    let mut k: u8 = 0;
    while k < n
        invariant
            k <= n,
            rotations@.len() == k as nat,
            new_cube.inv(),
            new_cube@ == spec_apply::<T>(cube@, rotations@),
        decreases n - k,
    {
        let r = Rotation::random();
        let ghost prior = rotations@;
        rotations.push(r);
        proof {
            lemma_apply_push::<T>(cube@, prior, r);
        }
        new_cube = new_cube.rotate(r);
        k += 1;
    }
    proof {
        if n == 0 {
            assert(rotations@ =~= Seq::<Rotation>::empty());
        }
    }
    (new_cube, rotations)
}

/// Brute force every move sequence, iterative deepening depth first: try
/// depth 0, then 1, and so on up to `n`; the first depth at which a solution
/// exists wins, so a returned path is move-count minimal within the bound.
/// Returns the solving path, or `None` when no depth up to `n` yields one,
/// together with the cumulative count of leaf nodes examined.
pub fn brute_force<T: Cube + Copy>(cube: &T, n: u8) -> (res: (Option<Vec<Rotation>>, u64))
    requires
        cube.inv(),
    ensures
        ({
            let s = spec_solve::<T>(cube@, n as nat);
            &&& (s.0 matches Some(m) ==> res.0 matches Some(v) && v@ == m)
            &&& (s.0 is None ==> res.0 is None)
            &&& res.1 == spec_sat_add(0, s.1)
        }),
{
    let mut depth: u16 = 0;
    let mut nodes_checked: u64 = 0;
    let ghost mut acc: nat = 0nat;
    while depth <= n as u16
        invariant
            cube.inv(),
            depth <= n as u16 + 1,
            spec_solve_from::<T>(cube@, 0, n as nat).0 == spec_solve_from::<T>(
                cube@,
                depth as nat,
                n as nat,
            ).0,
            spec_solve_from::<T>(cube@, 0, n as nat).1 == acc + spec_solve_from::<T>(
                cube@,
                depth as nat,
                n as nat,
            ).1,
            nodes_checked == spec_sat_add(0, acc),
        decreases n as int + 1 - depth as int,
    {
        let moves: Vec<Rotation> = Vec::new();
        let (returned_moves, is_solved, nodes_checked_r) = depth_limited_search(
            *cube,
            &moves,
            depth as u8,
            nodes_checked,
        );
        proof {
            assert(moves@ =~= Seq::<Rotation>::empty());
        }
        let ghost here = spec_dls::<T>(cube@, Seq::empty(), depth as nat);
        nodes_checked = nodes_checked_r;
        if is_solved {
            return (Some(returned_moves), nodes_checked);
        }
        proof {
            acc = acc + here.1;
        }
        depth = depth + 1;
    }
    (None, nodes_checked)
}

/// Iterative-deepening search with depth bound `n`; behaves exactly as
/// `brute_force`.
pub fn maybe_solve_in<T: Cube + Copy>(cube: &T, n: u8) -> (res: (Option<Vec<Rotation>>, u64))
    requires
        cube.inv(),
    ensures
        ({
            let s = spec_solve::<T>(cube@, n as nat);
            &&& (s.0 matches Some(m) ==> res.0 matches Some(v) && v@ == m)
            &&& (s.0 is None ==> res.0 is None)
            &&& res.1 == spec_sat_add(0, s.1)
        }),
{
    brute_force(cube, n)
}

/// One node of the depth-limited search. With no moves left this is a leaf:
/// count it and test for solvedness. Otherwise try all twelve moves in
/// canonical order, skipping pruned ones, and propagate the first success.
fn depth_limited_search<T: Cube + Copy>(
    cube: T,
    moves: &Vec<Rotation>,
    n: u8,
    nodes_checked: u64,
) -> (res: (Vec<Rotation>, bool, u64))
    requires
        cube.inv(),
    ensures
        ({
            let s = spec_dls::<T>(cube@, moves@, n as nat);
            &&& (s.0 matches Some(m) ==> res.1 && res.0@ == m)
            &&& (s.0 is None ==> !res.1 && res.0@ == moves@)
            &&& res.2 == spec_sat_add(nodes_checked, s.1)
        }),
    decreases n,
{
    // end of line, check if solved
    if n == 0 {
        let counted = if nodes_checked < u64::MAX {
            nodes_checked + 1
        } else {
            u64::MAX
        };
        if cube.is_solved() {
            return (moves.clone(), true, counted);
        } else {
            return (moves.clone(), false, counted);
        }
    }
    // do check on children (rotations)
    let mut nodes = nodes_checked;
    let ghost mut acc: nat = 0nat;
    let mut i: u8 = 0;
    while i < 12
        invariant
            cube.inv(),
            i <= 12,
            1 <= n,
            spec_dls_children::<T>(cube@, moves@, n as nat, 0).0 == spec_dls_children::<T>(
                cube@,
                moves@,
                n as nat,
                i as int,
            ).0,
            spec_dls_children::<T>(cube@, moves@, n as nat, 0).1 == acc + spec_dls_children::<T>(
                cube@,
                moves@,
                n as nat,
                i as int,
            ).1,
            nodes == spec_sat_add(nodes_checked, acc),
        decreases 12 - i,
    {
        let r = Rotation::by_index(i);
        let move_len = moves.len();
        let mut skip = false;
        // don't reverse the prior move
        if move_len > 0 && r.is_reverse(moves[move_len - 1]) {
            skip = true;
        }
        // don't do the same move 4 times in a row
        if move_len >= 3 && moves[move_len - 1] == r && moves[move_len - 2] == r && moves[move_len
            - 3] == r {
            skip = true;
        }
        if !skip {
            assert(!spec_pruned(moves@, r));
            let mut new_moves = moves.clone();
            new_moves.push(r);
            let ncube = cube.rotate(r);
            let (ret_moves, solved, nodes_r) = depth_limited_search(
                ncube,
                &new_moves,
                n - 1,
                nodes,
            );
            let ghost child = spec_dls::<T>(
                T::spec_rotate(cube@, r),
                moves@.push(r),
                (n - 1) as nat,
            );
            if solved {
                return (ret_moves, true, nodes_r);
            }
            nodes = nodes_r;
            proof {
                acc = acc + child.1;
            }
        } else {
            assert(spec_pruned(moves@, r));
        }
        i = i + 1;
    }
    (moves.clone(), false, nodes)
}

/// Monotonic node count: for a fixed cube, raising the depth bound never
/// lowers the number of leaf nodes examined, neither in the exact count nor
/// in the saturating `u64` counter the solver returns.
pub proof fn lemma_nodes_monotonic<T: Cube>(v: T::V, m: nat, n: nat)
    requires
        m <= n,
    ensures
        spec_solve::<T>(v, m).1 <= spec_solve::<T>(v, n).1,
        spec_sat_add(0, spec_solve::<T>(v, m).1) <= spec_sat_add(0, spec_solve::<T>(v, n).1),
{
    lemma_solve_from_monotonic::<T>(v, 0, m, n);
}

proof fn lemma_solve_from_monotonic<T: Cube>(v: T::V, d: nat, m: nat, n: nat)
    requires
        m <= n,
    ensures
        spec_solve_from::<T>(v, d, m).1 <= spec_solve_from::<T>(v, d, n).1,
    decreases n + 1 - d,
{
    if d > n {
    } else if d > m {
    } else {
        let here = spec_dls::<T>(v, Seq::empty(), d);
        if here.0 is Some {
        } else {
            lemma_solve_from_monotonic::<T>(v, (d + 1) as nat, m, n);
        }
    }
}

/// Soundness of one search node: a path returned from a node extends the
/// node's own path by exactly the remaining depth and, applied from the
/// root state the node's path came from, solves the cube.
proof fn lemma_dls_sound<T: Cube>(root: T::V, v: T::V, moves: Seq<Rotation>, n: nat)
    requires
        v == spec_apply::<T>(root, moves),
    ensures
        spec_dls::<T>(v, moves, n).0 matches Some(m) ==> m.len() == moves.len() + n
            && T::spec_solved(spec_apply::<T>(root, m)),
    decreases n, 1int, 0int,
{
    if n == 0 {
    } else {
        lemma_dls_children_sound::<T>(root, v, moves, n, 0);
    }
}

proof fn lemma_dls_children_sound<T: Cube>(
    root: T::V,
    v: T::V,
    moves: Seq<Rotation>,
    n: nat,
    i: int,
)
    requires
        v == spec_apply::<T>(root, moves),
    ensures
        spec_dls_children::<T>(v, moves, n, i).0 matches Some(m) ==> m.len() == moves.len() + n
            && T::spec_solved(spec_apply::<T>(root, m)),
    decreases n, 0int, 12 - i,
{
    if n == 0 || i < 0 || i >= 12 {
    } else {
        let r = Rotation::spec_by_index(i as u8);
        if spec_pruned(moves, r) {
            lemma_dls_children_sound::<T>(root, v, moves, n, i + 1);
        } else {
            lemma_apply_push::<T>(root, moves, r);
            lemma_dls_sound::<T>(root, T::spec_rotate(v, r), moves.push(r), (n - 1) as nat);
            let child = spec_dls::<T>(T::spec_rotate(v, r), moves.push(r), (n - 1) as nat);
            if child.0 is Some {
            } else {
                lemma_dls_children_sound::<T>(root, v, moves, n, i + 1);
            }
        }
    }
}

/// Solver soundness: a path returned by the iterative-deepening search
/// solves the cube, and is no longer than the depth bound.
pub proof fn lemma_solve_sound<T: Cube>(v: T::V, max: nat)
    ensures
        spec_solve::<T>(v, max).0 matches Some(m) ==> m.len() <= max && T::spec_solved(
            spec_apply::<T>(v, m),
        ),
{
    lemma_solve_from_sound::<T>(v, 0, max);
}

proof fn lemma_solve_from_sound<T: Cube>(v: T::V, d: nat, max: nat)
    ensures
        spec_solve_from::<T>(v, d, max).0 matches Some(m) ==> d <= m.len() <= max
            && T::spec_solved(spec_apply::<T>(v, m)),
    decreases max + 1 - d,
{
    if d > max {
    } else {
        assert(spec_apply::<T>(v, Seq::<Rotation>::empty()) == v);
        lemma_dls_sound::<T>(v, v, Seq::empty(), d);
        let here = spec_dls::<T>(v, Seq::empty(), d);
        if here.0 is Some {
        } else {
            lemma_solve_from_sound::<T>(v, (d + 1) as nat, max);
        }
    }
}

/// Minimality within the bound: a path the search returns has the first
/// length at which any depth-limited pass succeeds; every shallower pass
/// comes up empty.
pub proof fn lemma_solve_minimal<T: Cube>(v: T::V, max: nat)
    ensures
        spec_solve::<T>(v, max).0 matches Some(m) ==> forall|d: nat|
            d < m.len() ==> spec_dls::<T>(v, Seq::empty(), d).0 is None,
{
    lemma_solve_from_minimal::<T>(v, 0, max);
}

proof fn lemma_solve_from_minimal<T: Cube>(v: T::V, d: nat, max: nat)
    ensures
        spec_solve_from::<T>(v, d, max).0 matches Some(m) ==> forall|e: nat|
            d <= e < m.len() ==> spec_dls::<T>(v, Seq::empty(), e).0 is None,
    decreases max + 1 - d,
{
    if d > max {
    } else {
        assert(spec_apply::<T>(v, Seq::<Rotation>::empty()) == v);
        lemma_dls_sound::<T>(v, v, Seq::empty(), d);
        let here = spec_dls::<T>(v, Seq::empty(), d);
        if here.0 is Some {
        } else {
            lemma_solve_from_minimal::<T>(v, (d + 1) as nat, max);
        }
    }
}

/// An empty result is a definitive negative relative to the bound: when the
/// search returns no path, no depth-limited pass up to and including the
/// bound finds one.
pub proof fn lemma_solve_exhaustive<T: Cube>(v: T::V, max: nat)
    ensures
        spec_solve::<T>(v, max).0 is None ==> forall|d: nat|
            d <= max ==> spec_dls::<T>(v, Seq::empty(), d).0 is None,
{
    lemma_solve_from_exhaustive::<T>(v, 0, max);
}

proof fn lemma_solve_from_exhaustive<T: Cube>(v: T::V, d: nat, max: nat)
    ensures
        spec_solve_from::<T>(v, d, max).0 is None ==> forall|e: nat|
            d <= e <= max ==> spec_dls::<T>(v, Seq::empty(), e).0 is None,
    decreases max + 1 - d,
{
    if d > max {
    } else {
        lemma_solve_from_exhaustive::<T>(v, (d + 1) as nat, max);
    }
}

/// If some non-pruned child of a node yields a solution, the node yields
/// one.
proof fn lemma_children_finds<T: Cube>(v: T::V, moves: Seq<Rotation>, n: nat, i: int, j: int)
    requires
        1 <= n,
        0 <= i <= j < 12,
        !spec_pruned(moves, Rotation::spec_by_index(j as u8)),
        spec_dls::<T>(
            T::spec_rotate(v, Rotation::spec_by_index(j as u8)),
            moves.push(Rotation::spec_by_index(j as u8)),
            (n - 1) as nat,
        ).0 is Some,
    ensures
        spec_dls_children::<T>(v, moves, n, i).0 is Some,
    decreases 12 - i,
{
    if i == j {
    } else {
        lemma_children_finds::<T>(v, moves, n, i + 1, j);
    }
}

/// At a root node with one move left, when the first solving move in
/// canonical order is `j`, the search returns exactly that single move.
proof fn lemma_depth_one_children<T: Cube>(v: T::V, j: int, i: int)
    requires
        0 <= i <= j < 12,
        forall|k: int|
            0 <= k < j ==> !T::spec_solved(
                T::spec_rotate(v, Rotation::spec_by_index(#[trigger] (k as u8))),
            ),
        T::spec_solved(T::spec_rotate(v, Rotation::spec_by_index(j as u8))),
    ensures
        spec_dls_children::<T>(v, Seq::empty(), 1, i).0 == Some(
            Seq::<Rotation>::empty().push(Rotation::spec_by_index(j as u8)),
        ),
    decreases 12 - i,
{
    let r = Rotation::spec_by_index(i as u8);
    let path = Seq::<Rotation>::empty().push(r);
    assert(!spec_pruned(Seq::empty(), r));
    let child = spec_dls::<T>(T::spec_rotate(v, r), path, 0);
    if i == j {
        assert(T::spec_solved(T::spec_rotate(v, r)));
        assert(child.0 == Some(path));
        assert(spec_dls_children::<T>(v, Seq::empty(), 1, i) == child);
    } else {
        assert(!T::spec_solved(T::spec_rotate(v, Rotation::spec_by_index(i as u8))));
        assert(child.0 is None);
        lemma_depth_one_children::<T>(v, j, i + 1);
        let rest = spec_dls_children::<T>(v, Seq::empty(), 1, i + 1);
        assert(spec_dls_children::<T>(v, Seq::empty(), 1, i).0 == rest.0);
    }
}

/// With depth bound 1 on an unsolved cube, the search returns exactly the
/// first solving move in canonical order.
proof fn lemma_depth_one_result<T: Cube>(v: T::V, j: int)
    requires
        0 <= j < 12,
        !T::spec_solved(v),
        forall|k: int|
            0 <= k < j ==> !T::spec_solved(
                T::spec_rotate(v, Rotation::spec_by_index(#[trigger] (k as u8))),
            ),
        T::spec_solved(T::spec_rotate(v, Rotation::spec_by_index(j as u8))),
    ensures
        spec_solve::<T>(v, 1).0 == Some(seq![Rotation::spec_by_index(j as u8)]),
{
    lemma_depth_one_children::<T>(v, j, 0);
    assert(spec_dls::<T>(v, Seq::empty(), 0).0 is None);
    assert(Seq::<Rotation>::empty().push(Rotation::spec_by_index(j as u8)) =~= seq![
        Rotation::spec_by_index(j as u8),
    ]);
    assert(spec_dls::<T>(v, Seq::empty(), 1).0 == Some(seq![Rotation::spec_by_index(j as u8)]));
    assert(spec_solve_from::<T>(v, 0, 1).0 == spec_solve_from::<T>(v, 1, 1).0);
}

/// For a move on a value-0 face, every move preceding its inverse in
/// canonical order is either the move itself or one about another axis.
proof fn lemma_earlier_move_axis(r: Rotation, k: int)
    requires
        r.spec_details().face.value == 0,
        0 <= k < r.spec_reverse().spec_index() as int,
        Rotation::spec_by_index(k as u8) != r,
    ensures
        Rotation::spec_by_index(k as u8).spec_details().face.axis
            != r.spec_details().face.axis,
{
}

/// One-move scramble of a face at value 0 solves to exactly the inverse
/// move: for those six rotations the inverse precedes, in canonical order,
/// the opposite face's companion turn that would also read as solved, so
/// the depth-first search returns precisely the inverse.
#[verifier::rlimit(100)]
pub proof fn lemma_one_move_scramble_exact(r: Rotation)
    requires
        r.spec_details().face.value == 0,
    ensures
        spec_solve::<crate::cube::Pocket>(
            crate::cube::spec_rotate_cube(crate::cube::spec_new_cube(), r),
            1,
        ).0 == Some(seq![r.spec_reverse()]),
{
    let c0 = crate::cube::spec_new_cube();
    let c = crate::cube::spec_rotate_cube(c0, r);
    crate::cube::lemma_new_cube_solved();
    crate::cube::lemma_new_cube_proper();
    crate::cube::lemma_solved_rotate_not_solved(c0, r);
    let rev = r.spec_reverse();
    let j = rev.spec_index() as int;
    crate::rotation::lemma_index_round_trip(rev, 0);
    crate::cube::lemma_rotate_then_reverse(c0, r);
    assert(<crate::cube::Pocket as Cube>::spec_solved(<crate::cube::Pocket as Cube>::spec_rotate(
        c,
        Rotation::spec_by_index(j as u8),
    )));
    assert forall|k: int| 0 <= k < j implies !<crate::cube::Pocket as Cube>::spec_solved(
        <crate::cube::Pocket as Cube>::spec_rotate(
            c,
            Rotation::spec_by_index(#[trigger] (k as u8)),
        ),
    ) by {
        let q = Rotation::spec_by_index(k as u8);
        if q == r {
            crate::cube::lemma_solved_double_turn_not_solved(c0, r);
        } else {
            lemma_earlier_move_axis(r, k);
            crate::cube::lemma_solved_two_axes_not_solved(c0, r, q);
        }
    }
    lemma_depth_one_result::<crate::cube::Pocket>(c, j);
}

/// For a move on a value-1 face, every move preceding its companion in
/// canonical order is about another axis, or is the value-0 move of the
/// same axis turning the other way.
proof fn lemma_earlier_move_value_one(r: Rotation, k: int)
    requires
        r.spec_details().face.value == 1,
        0 <= k < r.spec_companion().spec_index() as int,
    ensures
        ({
            let q = Rotation::spec_by_index(k as u8);
            ||| q.spec_details().face.axis != r.spec_details().face.axis
            ||| (q.spec_details().face.value != r.spec_details().face.value
                && crate::corner::spec_forward_cycle(q.spec_details())
                != crate::corner::spec_forward_cycle(r.spec_details()))
        }),
{
}

/// One-move scramble of a face at value 1 solves to exactly the companion
/// turn of the opposite face: it also restores a solved configuration (the
/// whole cube has turned) and precedes the plain inverse in canonical
/// order, so the depth-first search returns it instead.
#[verifier::rlimit(100)]
pub proof fn lemma_one_move_scramble_companion(r: Rotation)
    requires
        r.spec_details().face.value == 1,
    ensures
        spec_solve::<crate::cube::Pocket>(
            crate::cube::spec_rotate_cube(crate::cube::spec_new_cube(), r),
            1,
        ).0 == Some(seq![r.spec_companion()]),
{
    let c0 = crate::cube::spec_new_cube();
    let c = crate::cube::spec_rotate_cube(c0, r);
    crate::cube::lemma_new_cube_solved();
    crate::cube::lemma_new_cube_proper();
    crate::cube::lemma_solved_rotate_not_solved(c0, r);
    let comp = r.spec_companion();
    let j = comp.spec_index() as int;
    crate::rotation::lemma_index_round_trip(comp, 0);
    crate::cube::lemma_companion_turn_stays_solved(c0, r);
    assert(<crate::cube::Pocket as Cube>::spec_solved(<crate::cube::Pocket as Cube>::spec_rotate(
        c,
        Rotation::spec_by_index(j as u8),
    )));
    assert forall|k: int| 0 <= k < j implies !<crate::cube::Pocket as Cube>::spec_solved(
        <crate::cube::Pocket as Cube>::spec_rotate(
            c,
            Rotation::spec_by_index(#[trigger] (k as u8)),
        ),
    ) by {
        let q = Rotation::spec_by_index(k as u8);
        lemma_earlier_move_value_one(r, k);
        if q.spec_details().face.axis != r.spec_details().face.axis {
            crate::cube::lemma_solved_two_axes_not_solved(c0, r, q);
        } else {
            crate::cube::lemma_opposite_turns_not_solved(c0, r, q);
        }
    }
    lemma_depth_one_result::<crate::cube::Pocket>(c, j);
}

/// One-move scramble is solvable at depth 1: after a single rotation of the
/// canonical solved cube, the search with depth bound 1 finds a path, the
/// path is a single move, and that move restores a solved cube.
pub proof fn lemma_one_move_scramble_solvable(r: Rotation)
    ensures
        ({
            let c = crate::cube::spec_rotate_cube(crate::cube::spec_new_cube(), r);
            let s = spec_solve::<crate::cube::Pocket>(c, 1);
            &&& s.0 is Some
            &&& s.0->Some_0.len() == 1
            &&& crate::cube::spec_solved_cube(
                spec_apply::<crate::cube::Pocket>(c, s.0->Some_0),
            )
        }),
{
    let c0 = crate::cube::spec_new_cube();
    let c = crate::cube::spec_rotate_cube(c0, r);
    crate::cube::lemma_new_cube_solved();
    crate::cube::lemma_new_cube_proper();
    crate::cube::lemma_solved_rotate_not_solved(c0, r);
    // depth 0 examines the scrambled cube itself, which is not solved
    assert(spec_dls::<crate::cube::Pocket>(c, Seq::empty(), 0).0 is None);
    // the inverse of the scrambling move restores the solved cube, so the
    // depth-1 pass finds a path
    let rev = r.spec_reverse();
    let j = rev.spec_index();
    crate::rotation::lemma_index_round_trip(rev, 0);
    crate::cube::lemma_rotate_then_reverse(c0, r);
    assert(spec_dls::<crate::cube::Pocket>(
        <crate::cube::Pocket as Cube>::spec_rotate(c, rev),
        Seq::<Rotation>::empty().push(rev),
        0,
    ).0 is Some);
    assert(!spec_pruned(Seq::<Rotation>::empty(), rev));
    lemma_children_finds::<crate::cube::Pocket>(c, Seq::empty(), 1, 0, j as int);
    assert(spec_dls::<crate::cube::Pocket>(c, Seq::empty(), 1).0 is Some);
    assert(spec_solve_from::<crate::cube::Pocket>(c, 1, 1).0 is Some);
    assert(spec_solve_from::<crate::cube::Pocket>(c, 0, 1).0 == spec_solve_from::<
        crate::cube::Pocket,
    >(c, 1, 1).0);
    lemma_solve_from_sound::<crate::cube::Pocket>(c, 1, 1);
    lemma_solve_sound::<crate::cube::Pocket>(c, 1);
}

} // verus!

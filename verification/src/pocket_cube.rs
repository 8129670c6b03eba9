//! Index-based interface to the pocket cube: rotations are denoted by their
//! canonical index 0..12 rather than by the `Rotation` enum.

use vstd::prelude::*;

use crate::corner::CornerView;
use crate::cube::{cube_wf, spec_apply, spec_new_cube, spec_rotate_cube, spec_solved_cube, Cube,
    Pocket};
use crate::rotation::{random_rotation_index, Rotation};
use crate::solver::{brute_force, spec_sat_add, spec_solve};

verus! {

/// The canonical indexes of a move sequence.
pub open spec fn indexes_of(moves: Seq<Rotation>) -> Seq<u8> {
    moves.map_values(|r: Rotation| r.spec_index())
}

/// The move sequence denoted by a sequence of canonical indexes.
pub open spec fn rotations_of(xs: Seq<u8>) -> Seq<Rotation> {
    xs.map_values(|i: u8| Rotation::spec_by_index(i))
}

/// The 2x2x2 pocket cube, with rotations addressed by index.
#[derive(Debug, Clone, Copy, PartialEq, Eq)]
pub struct PocketCube {
    pub cube: Pocket,
}

impl View for PocketCube {
    type V = Seq<CornerView>;

    open spec fn view(&self) -> Seq<CornerView> {
        self.cube@
    }
}

impl PocketCube {
    /// Well-formedness: 8 corners whose position coordinates are bits.
    pub open spec fn inv(&self) -> bool {
        cube_wf(self@)
    }

    /// Returns a cube with white on the bottom, green on the back, and
    /// orange on the left.
    pub fn new() -> (c: PocketCube)
        ensures
            c@ == spec_new_cube(),
            c.inv(),
    {
        PocketCube { cube: Pocket::new() }
    }

    /// Decode a cube from 8 corner encodings; see `Pocket::from_array`.
    pub fn from_array(xs: [[u8; 6]; 8]) -> (c: PocketCube)
        requires
            forall|i: int, j: int| 0 <= i < 8 && 0 <= j < 3 ==> #[trigger] (xs@[i])@[j] < 2,
            forall|i: int, j: int| 0 <= i < 8 && 3 <= j < 6 ==> #[trigger] (xs@[i])@[j] < 6,
        ensures
            forall|i: int|
                0 <= i < 8 ==> c@[i] == crate::corner::spec_corner_from_code(
                    (#[trigger] xs@[i])@,
                ),
            c.inv(),
    {
        PocketCube { cube: Pocket::from_array(xs) }
    }

    /// The 8 corners encoded as 6-tuples; see `Pocket::to_array`.
    pub fn to_array(&self) -> (a: [[u8; 6]; 8])
        ensures
            forall|i: int|
                0 <= i < 8 ==> (#[trigger] a@[i])@ == crate::corner::spec_corner_code(self@[i]),
    {
        self.cube.to_array()
    }

    /// Apply the quarter turn with canonical index `rotation_index` (0..12).
    pub fn rotate(&self, rotation_index: u8) -> (c: PocketCube)
        requires
            rotation_index < 12,
            self.inv(),
        ensures
            c@ == spec_rotate_cube(self@, Rotation::spec_by_index(rotation_index)),
            c.inv(),
    {
        let r = Rotation::by_index(rotation_index);
        PocketCube { cube: self.cube.rotate(r) }
    }

    /// Test whether every face shows a single uniform color.
    pub fn is_solved(&self) -> (b: bool)
        requires
            self.inv(),
        ensures
            b == spec_solved_cube(self@),
    {
        self.cube.is_solved()
    }

    /// Perform `n` random rotations on the cube and return the result with
    /// the ordered list of rotation indexes applied. A scramble of length 0
    /// returns the cube unchanged with an empty list.
    pub fn scramble(&self, n: u8) -> (res: (PocketCube, Vec<u8>))
        requires
            self.inv(),
        ensures
            res.1@.len() == n as nat,
            forall|j: int| 0 <= j < n as int ==> res.1@[j] < 12,
            res.0@ == spec_apply::<Pocket>(self@, rotations_of(res.1@)),
            res.0.inv(),
            n == 0 ==> res.0@ == self@ && res.1@ == Seq::<u8>::empty(),
    {
        let mut rotations: Vec<u8> = Vec::new();
        let mut new_cube = *self;
        let mut k: u8 = 0;
        while k < n
            invariant
                k <= n,
                rotations@.len() == k as nat,
                forall|j: int| 0 <= j < k as int ==> rotations@[j] < 12,
                new_cube.inv(),
                new_cube@ == spec_apply::<Pocket>(self@, rotations_of(rotations@)),
            decreases n - k,
        {
            let rotation_index = random_rotation_index();
            let ghost prior = rotations@;
            rotations.push(rotation_index);
            proof {
                assert(rotations_of(rotations@) =~= rotations_of(prior).push(
                    Rotation::spec_by_index(rotation_index),
                ));
                crate::cube::lemma_apply_push::<Pocket>(
                    self@,
                    rotations_of(prior),
                    Rotation::spec_by_index(rotation_index),
                );
            }
            new_cube = new_cube.rotate(rotation_index);
            k += 1;
        }
        proof {
            if n == 0 {
                assert(rotations@ =~= Seq::<u8>::empty());
                assert(rotations_of(rotations@) =~= Seq::<Rotation>::empty());
            }
        }
        (new_cube, rotations)
    }

    /// Iterative-deepening search with depth bound `n`, as `maybe_solve_in`
    /// on the `Rotation` interface, with the solving path reported as
    /// canonical indexes.
    pub fn maybe_solve_in(&self, n: u8) -> (res: (Option<Vec<u8>>, u64))
        requires
            self.inv(),
        ensures
            ({
                let s = spec_solve::<Pocket>(self@, n as nat);
                &&& (s.0 matches Some(m) ==> res.0 matches Some(v) && v@ == indexes_of(m))
                &&& (s.0 is None ==> res.0 is None)
                &&& res.1 == spec_sat_add(0, s.1)
            }),
    {
        let (found, nodes_checked) = brute_force(&self.cube, n);
        match found {
            Some(ms) => {
                let mut out: Vec<u8> = Vec::new();
                let mut k: usize = 0;
                while k < ms.len()
                    invariant
                        k <= ms.len(),
                        out@.len() == k as nat,
                        forall|j: int| 0 <= j < k as int ==> out@[j] == ms@[j].spec_index(),
                    decreases ms.len() - k,
                {
                    out.push(ms[k].index());
                    k += 1;
                }
                proof {
                    assert(out@ =~= indexes_of(ms@));
                }
                (Some(out), nodes_checked)
            },
            None => (None, nodes_checked),
        }
    }
}

} // verus!

//! The twelve legal quarter-turn rotations: six faces, each turned clockwise
//! or counter-clockwise (as seen looking at the face from outside the cube).

use vstd::prelude::*;

use rand::RngExt;

verus! {

/// Direction of a quarter turn, as seen from outside the rotated face.
#[derive(Debug, Copy, Clone, PartialEq, Eq, Structural)]
pub enum Rdir {
    Clockwise,
    CounterClockwise,
}

/// One face of the cube: the set of corners whose position coordinate at
/// index `axis` equals `value`. To select the bottom face, `axis` would be 2
/// and `value` would be 0.
#[derive(Debug, Clone, Copy)]
pub struct Face {
    pub axis: usize,
    pub value: u8,
}

/// A rotation decomposed into the face it turns and the turn direction.
#[derive(Debug, Clone, Copy)]
pub struct RotationDetails {
    pub face: Face,
    pub direction: Rdir,
}

/// The twelve legal moves: left, right, back, front, bottom and top face,
/// each clockwise or counter-clockwise (the `c` suffix). The declaration
/// order is the canonical enumeration order used for indexing, random
/// selection and search child ordering; each (clockwise, counter-clockwise)
/// pair of the same face is adjacent, and the two moves of a pair are mutual
/// inverses.
#[derive(Debug, Copy, Clone, PartialEq, Eq, Structural)]
pub enum Rotation {
    L,
    Lc,
    R,
    Rc,
    Ba,
    Bac,
    F,
    Fc,
    Bo,
    Boc,
    T,
    Tc,
}

impl Rotation {
    /// The (face, direction) decomposition of each move.
    pub open spec fn spec_details(self) -> RotationDetails {
        match self {
            Rotation::L => RotationDetails {
                face: Face { axis: 0, value: 0 },
                direction: Rdir::Clockwise,
            },
            Rotation::Lc => RotationDetails {
                face: Face { axis: 0, value: 0 },
                direction: Rdir::CounterClockwise,
            },
            Rotation::R => RotationDetails {
                face: Face { axis: 0, value: 1 },
                direction: Rdir::Clockwise,
            },
            Rotation::Rc => RotationDetails {
                face: Face { axis: 0, value: 1 },
                direction: Rdir::CounterClockwise,
            },
            Rotation::Ba => RotationDetails {
                face: Face { axis: 1, value: 0 },
                direction: Rdir::Clockwise,
            },
            Rotation::Bac => RotationDetails {
                face: Face { axis: 1, value: 0 },
                direction: Rdir::CounterClockwise,
            },
            Rotation::F => RotationDetails {
                face: Face { axis: 1, value: 1 },
                direction: Rdir::Clockwise,
            },
            Rotation::Fc => RotationDetails {
                face: Face { axis: 1, value: 1 },
                direction: Rdir::CounterClockwise,
            },
            Rotation::Bo => RotationDetails {
                face: Face { axis: 2, value: 0 },
                direction: Rdir::Clockwise,
            },
            Rotation::Boc => RotationDetails {
                face: Face { axis: 2, value: 0 },
                direction: Rdir::CounterClockwise,
            },
            Rotation::T => RotationDetails {
                face: Face { axis: 2, value: 1 },
                direction: Rdir::Clockwise,
            },
            Rotation::Tc => RotationDetails {
                face: Face { axis: 2, value: 1 },
                direction: Rdir::CounterClockwise,
            },
        }
    }

    /// Index of each move in the canonical enumeration order.
    pub open spec fn spec_index(self) -> u8 {
        match self {
            Rotation::L => 0,
            Rotation::Lc => 1,
            Rotation::R => 2,
            Rotation::Rc => 3,
            Rotation::Ba => 4,
            Rotation::Bac => 5,
            Rotation::F => 6,
            Rotation::Fc => 7,
            Rotation::Bo => 8,
            Rotation::Boc => 9,
            Rotation::T => 10,
            Rotation::Tc => 11,
        }
    }

    /// The move at index `i` of the canonical enumeration order.
    pub open spec fn spec_by_index(i: u8) -> Rotation
        recommends
            i < 12,
    {
        if i == 0 {
            Rotation::L
        } else if i == 1 {
            Rotation::Lc
        } else if i == 2 {
            Rotation::R
        } else if i == 3 {
            Rotation::Rc
        } else if i == 4 {
            Rotation::Ba
        } else if i == 5 {
            Rotation::Bac
        } else if i == 6 {
            Rotation::F
        } else if i == 7 {
            Rotation::Fc
        } else if i == 8 {
            Rotation::Bo
        } else if i == 9 {
            Rotation::Boc
        } else if i == 10 {
            Rotation::T
        } else {
            Rotation::Tc
        }
    }

    /// The inverse move: same face, opposite direction.
    pub open spec fn spec_reverse(self) -> Rotation {
        match self {
            Rotation::L => Rotation::Lc,
            Rotation::Lc => Rotation::L,
            Rotation::R => Rotation::Rc,
            Rotation::Rc => Rotation::R,
            Rotation::Ba => Rotation::Bac,
            Rotation::Bac => Rotation::Ba,
            Rotation::F => Rotation::Fc,
            Rotation::Fc => Rotation::F,
            Rotation::Bo => Rotation::Boc,
            Rotation::Boc => Rotation::Bo,
            Rotation::T => Rotation::Tc,
            Rotation::Tc => Rotation::T,
        }
    }

    /// Whether `other` undoes `self`.
    pub open spec fn spec_is_reverse(self, other: Rotation) -> bool {
        other == self.spec_reverse()
    }

    /// The turn of the opposite face that moves in the same sense about the
    /// shared axis: applying a move and then its companion turns the whole
    /// cube by a quarter turn, which a pocket cube (having no fixed centers)
    /// cannot tell from leaving it alone.
    pub open spec fn spec_companion(self) -> Rotation {
        match self {
            Rotation::L => Rotation::Rc,
            Rotation::Lc => Rotation::R,
            Rotation::R => Rotation::Lc,
            Rotation::Rc => Rotation::L,
            Rotation::Ba => Rotation::Fc,
            Rotation::Bac => Rotation::F,
            Rotation::F => Rotation::Bac,
            Rotation::Fc => Rotation::Ba,
            Rotation::Bo => Rotation::Tc,
            Rotation::Boc => Rotation::T,
            Rotation::T => Rotation::Boc,
            Rotation::Tc => Rotation::Bo,
        }
    }

    /// The canonical enumeration order of all twelve moves.
    pub open spec fn spec_canonical_order() -> Seq<Rotation> {
        seq![
            Rotation::L,
            Rotation::Lc,
            Rotation::R,
            Rotation::Rc,
            Rotation::Ba,
            Rotation::Bac,
            Rotation::F,
            Rotation::Fc,
            Rotation::Bo,
            Rotation::Boc,
            Rotation::T,
            Rotation::Tc,
        ]
    }

    pub fn details(&self) -> (d: RotationDetails)
        ensures
            d == self.spec_details(),
    {
        match self {
            Rotation::L => RotationDetails {
                face: Face { axis: 0, value: 0 },
                direction: Rdir::Clockwise,
            },
            Rotation::Lc => RotationDetails {
                face: Face { axis: 0, value: 0 },
                direction: Rdir::CounterClockwise,
            },
            Rotation::R => RotationDetails {
                face: Face { axis: 0, value: 1 },
                direction: Rdir::Clockwise,
            },
            Rotation::Rc => RotationDetails {
                face: Face { axis: 0, value: 1 },
                direction: Rdir::CounterClockwise,
            },
            Rotation::Ba => RotationDetails {
                face: Face { axis: 1, value: 0 },
                direction: Rdir::Clockwise,
            },
            Rotation::Bac => RotationDetails {
                face: Face { axis: 1, value: 0 },
                direction: Rdir::CounterClockwise,
            },
            Rotation::F => RotationDetails {
                face: Face { axis: 1, value: 1 },
                direction: Rdir::Clockwise,
            },
            Rotation::Fc => RotationDetails {
                face: Face { axis: 1, value: 1 },
                direction: Rdir::CounterClockwise,
            },
            Rotation::Bo => RotationDetails {
                face: Face { axis: 2, value: 0 },
                direction: Rdir::Clockwise,
            },
            Rotation::Boc => RotationDetails {
                face: Face { axis: 2, value: 0 },
                direction: Rdir::CounterClockwise,
            },
            Rotation::T => RotationDetails {
                face: Face { axis: 2, value: 1 },
                direction: Rdir::Clockwise,
            },
            Rotation::Tc => RotationDetails {
                face: Face { axis: 2, value: 1 },
                direction: Rdir::CounterClockwise,
            },
        }
    }

    /// A move drawn uniformly at random from the twelve.
    pub fn random() -> Rotation {
        let i = random_rotation_index();
        Rotation::by_index(i)
    }

    pub fn by_index(i: u8) -> (r: Rotation)
        requires
            i < 12,
        ensures
            r == Rotation::spec_by_index(i),
    {
        match i {
            0 => Rotation::L,
            1 => Rotation::Lc,
            2 => Rotation::R,
            3 => Rotation::Rc,
            4 => Rotation::Ba,
            5 => Rotation::Bac,
            6 => Rotation::F,
            7 => Rotation::Fc,
            8 => Rotation::Bo,
            9 => Rotation::Boc,
            10 => Rotation::T,
            _ => Rotation::Tc,
        }
    }

    pub fn index(&self) -> (i: u8)
        ensures
            i == self.spec_index(),
            i < 12,
    {
        match self {
            Rotation::L => 0,
            Rotation::Lc => 1,
            Rotation::R => 2,
            Rotation::Rc => 3,
            Rotation::Ba => 4,
            Rotation::Bac => 5,
            Rotation::F => 6,
            Rotation::Fc => 7,
            Rotation::Bo => 8,
            Rotation::Boc => 9,
            Rotation::T => 10,
            Rotation::Tc => 11,
        }
    }

    /// All twelve moves in canonical enumeration order.
    pub fn array() -> (a: [Rotation; 12])
        ensures
            a@ == Rotation::spec_canonical_order(),
    {
        let a = [
            Rotation::L,
            Rotation::Lc,
            Rotation::R,
            Rotation::Rc,
            Rotation::Ba,
            Rotation::Bac,
            Rotation::F,
            Rotation::Fc,
            Rotation::Bo,
            Rotation::Boc,
            Rotation::T,
            Rotation::Tc,
        ];
        proof {
            assert(a@ =~= Rotation::spec_canonical_order());
        }
        a
    }

    pub fn is_reverse(&self, other: Rotation) -> (b: bool)
        ensures
            b == self.spec_is_reverse(other),
    {
        if self.reverse() == other {
            true
        } else {
            false
        }
    }

    pub fn reverse(&self) -> (r: Rotation)
        ensures
            r == self.spec_reverse(),
    {
        match self {
            Rotation::L => Rotation::Lc,
            Rotation::Lc => Rotation::L,
            Rotation::R => Rotation::Rc,
            Rotation::Rc => Rotation::R,
            Rotation::Ba => Rotation::Bac,
            Rotation::Bac => Rotation::Ba,
            Rotation::F => Rotation::Fc,
            Rotation::Fc => Rotation::F,
            Rotation::Bo => Rotation::Boc,
            Rotation::Boc => Rotation::Bo,
            Rotation::T => Rotation::Tc,
            Rotation::Tc => Rotation::T,
        }
    }
}

/// Relies on rand::RngExt::random_range over the thread-local generator:
/// a value sampled uniformly from 0..12.
#[verifier::external_body]
pub(crate) fn random_rotation_index() -> (i: u8)
    ensures
        i < 12,
{
    rand::rng().random_range(0..12u8)
}

/// Reversing a move is an involution with no fixed point.
pub proof fn lemma_reverse_involution(r: Rotation)
    ensures
        r.spec_reverse().spec_reverse() == r,
        r.spec_reverse() != r,
{
}

/// In the canonical enumeration order the moves come in adjacent
/// (clockwise, counter-clockwise) pairs, and the two moves of each pair are
/// mutual inverses: reversing a move flips the low bit of its index.
pub proof fn lemma_reverse_pairs_index(r: Rotation)
    ensures
        r.spec_index() % 2 == 0 ==> r.spec_reverse().spec_index() == r.spec_index() + 1,
        r.spec_index() % 2 == 1 ==> r.spec_reverse().spec_index() == r.spec_index() - 1,
{
}

/// The index and the canonical order agree, and `spec_by_index` inverts
/// `spec_index`.
pub proof fn lemma_index_round_trip(r: Rotation, i: u8)
    requires
        i < 12,
    ensures
        Rotation::spec_by_index(r.spec_index()) == r,
        Rotation::spec_by_index(i).spec_index() == i,
        Rotation::spec_canonical_order()[i as int] == Rotation::spec_by_index(i),
{
}

} // verus!

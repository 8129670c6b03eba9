//! A single corner piece of the cube, and the effect of one quarter turn on
//! it.

use vstd::prelude::*;

use crate::color::Color;
use crate::rotation::{Rdir, Rotation, RotationDetails};

verus! {

/// Mathematical model of a corner piece: its three position bits and the
/// three visible face colors.
///
/// `x`, `y`, `z` are the coordinates of the piece on the unit cube, each 0 or
/// 1 for a well-formed piece. `o0`, `o1`, `o2` are the visible colors, in
/// order: the side on the x/y plane, the x/z plane, and the y/z plane.
pub struct CornerView {
    pub x: u8,
    pub y: u8,
    pub z: u8,
    pub o0: Color,
    pub o1: Color,
    pub o2: Color,
}

/// One of the 8 corner pieces.
#[derive(Debug, Copy, Clone, PartialEq, Eq)]
pub struct Corner {
    // (x, y, z) coordinates of the piece. The corner at (0, 0, 0) is touching
    // the origin point, and (0, 0, 1) is the piece above.
    pub position: [u8; 3],
    // The visible face colors of the corner in order by the side on the x/y
    // plane, the x/z plane, and the y/z plane.
    pub orientation: [Color; 3],
}

impl View for Corner {
    type V = CornerView;

    open spec fn view(&self) -> CornerView {
        CornerView {
            x: self.position@[0],
            y: self.position@[1],
            z: self.position@[2],
            o0: self.orientation@[0],
            o1: self.orientation@[1],
            o2: self.orientation@[2],
        }
    }
}

/// A corner is well formed when each position coordinate is a bit.
pub open spec fn corner_wf(c: CornerView) -> bool {
    c.x <= 1 && c.y <= 1 && c.z <= 1
}

/// The position of a corner as a coordinate triple.
pub open spec fn spec_pos(c: CornerView) -> (u8, u8, u8) {
    (c.x, c.y, c.z)
}

/// The position coordinate of a corner along `axis`.
pub open spec fn spec_coord(c: CornerView, axis: usize) -> u8 {
    if axis == 0 {
        c.x
    } else if axis == 1 {
        c.y
    } else {
        c.z
    }
}

/// The two position indexes other than `i`, in increasing order.
pub open spec fn spec_other_indexes(i: usize) -> (usize, usize) {
    if i == 0 {
        (1, 2)
    } else if i == 1 {
        (0, 2)
    } else {
        (0, 1)
    }
}

/// Indexes of arrays of size 3 are always 0, 1, 2.
pub fn get_other_indexes(i: usize) -> (r: (usize, usize))
    requires
        i < 3,
    ensures
        r == spec_other_indexes(i),
        r.0 < 3,
        r.1 < 3,
{
    match i {
        0 => (1, 2),
        1 => (0, 2),
        _ => (0, 1),
    }
}

/// One step of the four-point cycle 11 -> 10 -> 00 -> 01 -> 11 on a pair of
/// coordinate bits.
pub open spec fn spec_cycle_fwd(a: u8, b: u8) -> (u8, u8) {
    if a == 1 && b == 1 {
        (1, 0)
    } else if a == 1 && b == 0 {
        (0, 0)
    } else if a == 0 && b == 0 {
        (0, 1)
    } else if a == 0 && b == 1 {
        (1, 1)
    } else {
        (1, 1)
    }
}

/// One step of the opposite cycle 11 -> 01 -> 00 -> 10 -> 11.
pub open spec fn spec_cycle_rev(a: u8, b: u8) -> (u8, u8) {
    if a == 1 && b == 1 {
        (0, 1)
    } else if a == 0 && b == 1 {
        (0, 0)
    } else if a == 0 && b == 0 {
        (1, 0)
    } else if a == 1 && b == 0 {
        (1, 1)
    } else {
        (1, 1)
    }
}

/// The per-face sign table: for these six (face, direction) combinations the
/// moved pair of coordinates steps along the forward cycle; for the other
/// six, the reverse cycle. The flip between the two parallel faces of an
/// axis comes from viewing them from opposite sides; the table is irreducible
/// case analysis and is kept explicit.
pub open spec fn spec_forward_cycle(d: RotationDetails) -> bool {
    ||| (d.face.axis == 0 && d.face.value == 0 && d.direction == Rdir::Clockwise)
    ||| (d.face.axis == 0 && d.face.value == 1 && d.direction == Rdir::CounterClockwise)
    ||| (d.face.axis == 1 && d.face.value == 1 && d.direction == Rdir::Clockwise)
    ||| (d.face.axis == 1 && d.face.value == 0 && d.direction == Rdir::CounterClockwise)
    ||| (d.face.axis == 2 && d.face.value == 0 && d.direction == Rdir::Clockwise)
    ||| (d.face.axis == 2 && d.face.value == 1 && d.direction == Rdir::CounterClockwise)
}

/// The new values of the two moved coordinates of a corner on the rotated
/// face.
pub open spec fn spec_new_pair(a: u8, b: u8, d: RotationDetails) -> (u8, u8) {
    if spec_forward_cycle(d) {
        spec_cycle_fwd(a, b)
    } else {
        spec_cycle_rev(a, b)
    }
}

/// The effect of one quarter turn on a single corner. A corner on the
/// rotated face has its two coordinates off the rotation axis cycled and the
/// two orientation slots off the rotation axis swapped; a corner elsewhere
/// is unchanged.
pub open spec fn spec_rotate_corner(c: CornerView, d: RotationDetails) -> CornerView {
    if spec_coord(c, d.face.axis) == d.face.value {
        if d.face.axis == 0 {
            let p = spec_new_pair(c.y, c.z, d);
            CornerView { x: c.x, y: p.0, z: p.1, o0: c.o1, o1: c.o0, o2: c.o2 }
        } else if d.face.axis == 1 {
            let p = spec_new_pair(c.x, c.z, d);
            CornerView { x: p.0, y: c.y, z: p.1, o0: c.o2, o1: c.o1, o2: c.o0 }
        } else {
            let p = spec_new_pair(c.x, c.y, d);
            CornerView { x: p.0, y: p.1, z: c.z, o0: c.o0, o1: c.o2, o2: c.o1 }
        }
    } else {
        c
    }
}

/// The 6-tuple encoding of a corner: three position bits, then the three
/// orientation colors as numeric codes.
pub open spec fn spec_corner_code(c: CornerView) -> Seq<u8> {
    seq![c.x, c.y, c.z, c.o0.spec_to_num(), c.o1.spec_to_num(), c.o2.spec_to_num()]
}

/// The corner decoded from a 6-tuple encoding.
pub open spec fn spec_corner_from_code(xs: Seq<u8>) -> CornerView
    recommends
        xs.len() == 6,
{
    CornerView {
        x: xs[0],
        y: xs[1],
        z: xs[2],
        o0: Color::spec_from_num(xs[3]),
        o1: Color::spec_from_num(xs[4]),
        o2: Color::spec_from_num(xs[5]),
    }
}

/// Decode a corner from its 6-tuple encoding.
pub fn corner_from_array(xs: [u8; 6]) -> (c: Corner)
    requires
        xs@[3] < 6,
        xs@[4] < 6,
        xs@[5] < 6,
    ensures
        c@ == spec_corner_from_code(xs@),
{
    Corner {
        position: [xs[0], xs[1], xs[2]],
        orientation: [
            Color::from_num(xs[3]),
            Color::from_num(xs[4]),
            Color::from_num(xs[5]),
        ],
    }
}

/// Rotating a well-formed corner keeps it well formed.
pub proof fn lemma_rotate_corner_wf(c: CornerView, d: RotationDetails)
    requires
        corner_wf(c),
    ensures
        corner_wf(spec_rotate_corner(c, d)),
{
}

/// A quarter turn followed by its inverse restores the corner.
pub proof fn lemma_rotate_corner_reverse(c: CornerView, r: Rotation)
    requires
        corner_wf(c),
    ensures
        spec_rotate_corner(spec_rotate_corner(c, r.spec_details()), r.spec_reverse().spec_details())
            == c,
{
}

/// Four consecutive identical quarter turns restore the corner.
pub proof fn lemma_rotate_corner_order_four(c: CornerView, r: Rotation)
    requires
        corner_wf(c),
    ensures
        spec_rotate_corner(
            spec_rotate_corner(
                spec_rotate_corner(spec_rotate_corner(c, r.spec_details()), r.spec_details()),
                r.spec_details(),
            ),
            r.spec_details(),
        ) == c,
{
}

/// A quarter turn moves distinct well-formed corners to distinct positions.
pub proof fn lemma_rotate_corner_position_injective(c1: CornerView, c2: CornerView, r: Rotation)
    requires
        corner_wf(c1),
        corner_wf(c2),
        spec_pos(spec_rotate_corner(c1, r.spec_details()))
            == spec_pos(spec_rotate_corner(c2, r.spec_details())),
    ensures
        spec_pos(c1) == spec_pos(c2),
{
}

} // verus!

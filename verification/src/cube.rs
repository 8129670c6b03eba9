//! The pocket cube state: an aggregate of 8 corner pieces, the quarter-turn
//! transform, and the solved-state predicate.

use vstd::prelude::*;

use crate::color::Color;
use crate::corner::{
    corner_from_array, corner_wf, get_other_indexes, spec_corner_from_code, spec_new_pair,
    spec_coord, spec_other_indexes, spec_pos, spec_rotate_corner, Corner, CornerView,
};
use crate::corner::{
    lemma_rotate_corner_order_four, lemma_rotate_corner_position_injective,
    lemma_rotate_corner_reverse, lemma_rotate_corner_wf,
};
use crate::rotation::{Face, Rdir, Rotation, RotationDetails};

verus! {

/// A puzzle that can be turned one quarter turn at a time and tested for
/// being solved. The solver and the scrambler are written against this
/// contract alone.
pub trait Cube: View + Sized {
    /// Well-formedness of a cube value; preserved by `rotate`.
    spec fn inv(&self) -> bool;

    /// The abstract effect of one quarter turn on the cube state.
    spec fn spec_rotate(v: Self::V, r: Rotation) -> Self::V;

    /// Whether the abstract cube state is solved.
    spec fn spec_solved(v: Self::V) -> bool;

    /// Apply one quarter turn, yielding a new cube.
    fn rotate(&self, r: Rotation) -> (c: Self)
        requires
            self.inv(),
        ensures
            c.inv(),
            c@ == Self::spec_rotate(self@, r),
    ;

    /// Test whether every face shows a single uniform color.
    fn is_solved(&self) -> (b: bool)
        requires
            self.inv(),
        ensures
            b == Self::spec_solved(self@),
    ;
}

/// The 2x2x2 pocket cube: exactly 8 corner pieces.
#[derive(Debug, Clone, Copy, PartialEq, Eq)]
pub struct Pocket {
    pub corners: [Corner; 8],
}

impl View for Pocket {
    type V = Seq<CornerView>;

    open spec fn view(&self) -> Seq<CornerView> {
        self.corners@.map_values(|c: Corner| c@)
    }
}

/// A cube state is well formed when it has 8 corners whose position
/// coordinates are all bits.
pub open spec fn cube_wf(s: Seq<CornerView>) -> bool {
    &&& s.len() == 8
    &&& forall|i: int| 0 <= i < s.len() ==> corner_wf(#[trigger] s[i])
}

/// The abstract effect of one quarter turn: every corner is transformed by
/// `spec_rotate_corner` (which leaves corners off the rotated face alone).
pub open spec fn spec_rotate_cube(s: Seq<CornerView>, r: Rotation) -> Seq<CornerView> {
    s.map_values(|c: CornerView| spec_rotate_corner(c, r.spec_details()))
}

/// The canonical solved configuration: white on the bottom, green on the
/// back, and orange on the left.
pub open spec fn spec_new_cube() -> Seq<CornerView> {
    seq![
        spec_corner_from_code(seq![0, 0, 0, 0, 5, 3]),
        spec_corner_from_code(seq![0, 0, 1, 1, 5, 3]),
        spec_corner_from_code(seq![0, 1, 0, 0, 4, 3]),
        spec_corner_from_code(seq![0, 1, 1, 1, 4, 3]),
        spec_corner_from_code(seq![1, 0, 0, 0, 5, 2]),
        spec_corner_from_code(seq![1, 0, 1, 1, 5, 2]),
        spec_corner_from_code(seq![1, 1, 0, 0, 4, 2]),
        spec_corner_from_code(seq![1, 1, 1, 1, 4, 2]),
    ]
}

/// The other value of a position bit.
pub open spec fn spec_opposite_pos(x: u8) -> u8 {
    if x == 0 {
        1
    } else {
        0
    }
}

pub fn opposite_pos(x: u8) -> (r: u8)
    ensures
        r == spec_opposite_pos(x),
{
    match x {
        0 => 1,
        _ => 0,
    }
}

impl Pocket {
    /// The 8 corners encoded as 6-tuples: position bits, then color codes.
    pub fn to_array(&self) -> (a: [[u8; 6]; 8])
        ensures
            forall|i: int|
                0 <= i < 8 ==> (#[trigger] a@[i])@ == crate::corner::spec_corner_code(self@[i]),
    {
        let mut a: [[u8; 6]; 8] = [[0; 6]; 8];
        let mut i: usize = 0;
        while i < 8
            invariant
                i <= 8,
                forall|j: int|
                    0 <= j < i ==> (#[trigger] a@[j])@ == crate::corner::spec_corner_code(
                        self@[j],
                    ),
            decreases 8 - i,
        {
            let corner = &self.corners[i];
            a[i] = [
                corner.position[0],
                corner.position[1],
                corner.position[2],
                corner.orientation[0].to_num(),
                corner.orientation[1].to_num(),
                corner.orientation[2].to_num(),
            ];
            proof {
                assert(a@[i as int]@ =~= crate::corner::spec_corner_code(self@[i as int]));
            }
            i += 1;
        }
        a
    }

    /// Decode a cube from 8 corner encodings. Position entries must be bits
    /// and color entries valid color codes.
    pub fn from_array(xs: [[u8; 6]; 8]) -> (c: Pocket)
        requires
            forall|i: int, j: int| 0 <= i < 8 && 0 <= j < 3 ==> #[trigger] (xs@[i])@[j] < 2,
            forall|i: int, j: int| 0 <= i < 8 && 3 <= j < 6 ==> #[trigger] (xs@[i])@[j] < 6,
        ensures
            forall|i: int| 0 <= i < 8 ==> c@[i] == spec_corner_from_code((#[trigger] xs@[i])@),
            cube_wf(c@),
    {
        let c = Pocket {
            corners: [
                corner_from_array(xs[0]),
                corner_from_array(xs[1]),
                corner_from_array(xs[2]),
                corner_from_array(xs[3]),
                corner_from_array(xs[4]),
                corner_from_array(xs[5]),
                corner_from_array(xs[6]),
                corner_from_array(xs[7]),
            ],
        };
        c
    }

    /// The canonical solved cube: white on the bottom, green on the back,
    /// and orange on the left (color codes: w0, y1, r2, o3, b4, g5).
    pub fn new() -> (c: Pocket)
        ensures
            c@ == spec_new_cube(),
            cube_wf(c@),
    {
        let c = Pocket::from_array(
            [
                [0, 0, 0, 0, 5, 3],
                [0, 0, 1, 1, 5, 3],
                [0, 1, 0, 0, 4, 3],
                [0, 1, 1, 1, 4, 3],
                [1, 0, 0, 0, 5, 2],
                [1, 0, 1, 1, 5, 2],
                [1, 1, 0, 0, 4, 2],
                [1, 1, 1, 1, 4, 2],
            ],
        );
        proof {
            assert(c@ =~= spec_new_cube());
        }
        c
    }

    /// New position of a corner on the rotated face: the two coordinates off
    /// the rotation axis step along the cycle given by the sign table; the
    /// coordinate on the axis is unchanged.
    fn rotate_position(pos: [u8; 3], rotation: &RotationDetails) -> (np: [u8; 3])
        requires
            rotation.face.axis < 3,
        ensures
            ({
                let idx = spec_other_indexes(rotation.face.axis);
                let p = spec_new_pair(pos@[idx.0 as int], pos@[idx.1 as int], *rotation);
                &&& np@[idx.0 as int] == p.0
                &&& np@[idx.1 as int] == p.1
                &&& np@[rotation.face.axis as int] == pos@[rotation.face.axis as int]
            }),
    {
        let indexes: (usize, usize) = get_other_indexes(rotation.face.axis);
        let current_vals = (pos[indexes.0], pos[indexes.1]);
        let new_vals: (u8, u8);
        if (rotation.face.axis == 0 && rotation.face.value == 0 && rotation.direction
            == Rdir::Clockwise) || (rotation.face.axis == 0 && rotation.face.value == 1
            && rotation.direction == Rdir::CounterClockwise) || (rotation.face.axis == 1
            && rotation.face.value == 1 && rotation.direction == Rdir::Clockwise) || (
        rotation.face.axis == 1 && rotation.face.value == 0 && rotation.direction
            == Rdir::CounterClockwise) || (rotation.face.axis == 2 && rotation.face.value == 0
            && rotation.direction == Rdir::Clockwise) || (rotation.face.axis == 2
            && rotation.face.value == 1 && rotation.direction == Rdir::CounterClockwise) {
            new_vals = match current_vals {
                (1, 1) => (1, 0),
                (1, 0) => (0, 0),
                (0, 0) => (0, 1),
                (0, 1) => (1, 1),
                _ => (1, 1),
            };
        } else {
            new_vals = match current_vals {
                (1, 1) => (0, 1),
                (0, 1) => (0, 0),
                (0, 0) => (1, 0),
                (1, 0) => (1, 1),
                _ => (1, 1),
            };
        }
        let mut new_pos: [u8; 3] = [0, 0, 0];
        new_pos[indexes.0] = new_vals.0;
        new_pos[indexes.1] = new_vals.1;
        new_pos[rotation.face.axis] = pos[rotation.face.axis];
        new_pos
    }

    /// New orientation of a corner on the rotated face: the color on the
    /// side of the rotation axis does not change, and the other two swap.
    fn rotate_orientation(orientation: &[Color; 3], axis: usize) -> (no: [Color; 3])
        requires
            axis < 3,
        ensures
            axis == 0 ==> no@ =~= seq![orientation@[1], orientation@[0], orientation@[2]],
            axis == 1 ==> no@ =~= seq![orientation@[2], orientation@[1], orientation@[0]],
            axis == 2 ==> no@ =~= seq![orientation@[0], orientation@[2], orientation@[1]],
    {
        // Indexes of arrays of size 3 are always 0, 1, 2.
        match axis {
            0 => [orientation[1], orientation[0], orientation[2]],
            1 => [orientation[2], orientation[1], orientation[0]],
            _ => [orientation[0], orientation[2], orientation[1]],
        }
    }

    /// Transform one corner by a quarter turn; a corner off the rotated face
    /// is returned unchanged.
    fn rotate_corner(c: &Corner, d: &RotationDetails) -> (res: Corner)
        requires
            d.face.axis < 3,
        ensures
            res@ == spec_rotate_corner(c@, *d),
    {
        if c.position[d.face.axis] == d.face.value {
            let res = Corner {
                position: Pocket::rotate_position(c.position, d),
                orientation: Pocket::rotate_orientation(&c.orientation, d.face.axis),
            };
            res
        } else {
            *c
        }
    }
}

impl Cube for Pocket {
    open spec fn inv(&self) -> bool {
        cube_wf(self@)
    }

    open spec fn spec_rotate(v: Seq<CornerView>, r: Rotation) -> Seq<CornerView> {
        spec_rotate_cube(v, r)
    }

    open spec fn spec_solved(v: Seq<CornerView>) -> bool {
        spec_solved_cube(v)
    }

    fn rotate(&self, r: Rotation) -> (c: Pocket) {
        let d = r.details();
        let mut corners = self.corners;
        let mut i: usize = 0;
        while i < 8
            invariant
                i <= 8,
                d == r.spec_details(),
                d.face.axis < 3,
                forall|j: int|
                    0 <= j < i ==> (#[trigger] corners@[j])@ == spec_rotate_corner(
                        self.corners@[j]@,
                        d,
                    ),
                forall|j: int| i <= j < 8 ==> #[trigger] corners@[j] == self.corners@[j],
            decreases 8 - i,
        {
            let nc = Pocket::rotate_corner(&corners[i], &d);
            corners[i] = nc;
            i += 1;
        }
        let c = Pocket { corners };
        proof {
            assert(c@ =~= spec_rotate_cube(self@, r));
            assert forall|j: int| 0 <= j < 8 implies corner_wf(#[trigger] c@[j]) by {
                lemma_rotate_corner_wf(self@[j], d);
            }
        }
        c
    }

    fn is_solved(&self) -> (b: bool) {
        is_solved_impl(self)
    }
}

/// The color that face (`plane`, `value`) must show, as determined by the
/// `anchor` corner: the anchor's own color on that plane if the face is on
/// the anchor's side, and the opposite color otherwise. `plane` 0 is the
/// x/y plane (selected by the z coordinate), 1 the x/z plane (y), 2 the
/// y/z plane (x).
pub open spec fn spec_face_color(anchor: CornerView, plane: usize, value: u8) -> Color {
    if plane == 0 {
        if value == anchor.z {
            anchor.o0
        } else {
            anchor.o0.spec_opposite()
        }
    } else if plane == 1 {
        if value == anchor.y {
            anchor.o1
        } else {
            anchor.o1.spec_opposite()
        }
    } else {
        if value == anchor.x {
            anchor.o2
        } else {
            anchor.o2.spec_opposite()
        }
    }
}

/// A corner shows, on each of its three visible faces, exactly the color
/// that the anchor corner determines for that face.
pub open spec fn corner_matches_anchor(c: CornerView, anchor: CornerView) -> bool {
    &&& c.o0 == spec_face_color(anchor, 0, c.z)
    &&& c.o1 == spec_face_color(anchor, 1, c.y)
    &&& c.o2 == spec_face_color(anchor, 2, c.x)
}

/// A cube is solved when every corner agrees, on every face it shows, with
/// the full face-color assignment derived from corner 0.
pub open spec fn spec_solved_cube(s: Seq<CornerView>) -> bool {
    forall|i: int| 1 <= i < s.len() ==> corner_matches_anchor(#[trigger] s[i], s[0])
}

/// The full face-color assignment determined by one corner: its three
/// visible (face, color) pairs, and for each the opposite face paired with
/// the opposite color. For the x/y face (plane 0), the determinant
/// coordinate is z (position index 2).
pub open spec fn spec_face_colors(c: CornerView) -> Seq<(Face, Color)> {
    seq![
        (Face { axis: 0, value: c.z }, c.o0),
        (Face { axis: 0, value: spec_opposite_pos(c.z) }, c.o0.spec_opposite()),
        (Face { axis: 1, value: c.y }, c.o1),
        (Face { axis: 1, value: spec_opposite_pos(c.y) }, c.o1.spec_opposite()),
        (Face { axis: 2, value: c.x }, c.o2),
        (Face { axis: 2, value: spec_opposite_pos(c.x) }, c.o2.spec_opposite()),
    ]
}

/// A (face, color) pair is consistent with a face-color list when every list
/// entry for the same face carries the same color.
pub open spec fn spec_face_color_in_list(fc: (Face, Color), list: Seq<(Face, Color)>) -> bool {
    forall|j: int|
        0 <= j < list.len() && (#[trigger] list[j]).0.axis == fc.0.axis && list[j].0.value
            == fc.0.value ==> list[j].1 == fc.1
}

/// The face-color assignment derived from one corner, as (face, color)
/// pairs.
pub fn face_colors_by_corner(corner: &Corner) -> (list: [(Face, Color); 6])
    ensures
        list@ == spec_face_colors(corner@),
{
    let list = [
        (Face { axis: 0, value: corner.position[2] }, corner.orientation[0]),
        (
            Face { axis: 0, value: opposite_pos(corner.position[2]) },
            corner.orientation[0].opposite(),
        ),
        (Face { axis: 1, value: corner.position[1] }, corner.orientation[1]),
        (
            Face { axis: 1, value: opposite_pos(corner.position[1]) },
            corner.orientation[1].opposite(),
        ),
        (Face { axis: 2, value: corner.position[0] }, corner.orientation[2]),
        (
            Face { axis: 2, value: opposite_pos(corner.position[0]) },
            corner.orientation[2].opposite(),
        ),
    ];
    proof {
        assert(list@ =~= spec_face_colors(corner@));
    }
    list
}

/// Check one (face, color) pair against a face-color list: if the face
/// occurs in the list, its color must match.
pub fn face_color_in_list(face_color: (Face, Color), list: [(Face, Color); 6]) -> (b: bool)
    ensures
        b == spec_face_color_in_list(face_color, list@),
{
    let (face, col) = face_color;
    let mut j: usize = 0;
    while j < 6
        invariant
            j <= 6,
            face == face_color.0,
            col == face_color.1,
            forall|k: int|
                0 <= k < j && (#[trigger] list@[k]).0.axis == face_color.0.axis
                    && list@[k].0.value == face_color.0.value ==> list@[k].1 == face_color.1,
        decreases 6 - j,
    {
        let (lface, lcol) = list[j];
        // if face matches then ensure color matches
        if face.axis == lface.axis && face.value == lface.value {
            if col != lcol {
                return false;
            }
        }
        j += 1;
    }
    true
}

/// The list-based per-corner check agrees with the anchor formula on
/// well-formed corners.
proof fn lemma_corner_check_equiv(c: CornerView, anchor: CornerView)
    requires
        corner_wf(c),
        corner_wf(anchor),
    ensures
        ({
            let list = spec_face_colors(anchor);
            (spec_face_color_in_list((Face { axis: 0, value: c.z }, c.o0), list)
                && spec_face_color_in_list((Face { axis: 1, value: c.y }, c.o1), list)
                && spec_face_color_in_list((Face { axis: 2, value: c.x }, c.o2), list))
                <==> corner_matches_anchor(c, anchor)
        }),
{
    let list = spec_face_colors(anchor);
    assert(list[0] == (Face { axis: 0, value: anchor.z }, anchor.o0));
    assert(list[1] == (Face { axis: 0, value: spec_opposite_pos(anchor.z) },
        anchor.o0.spec_opposite()));
    assert(list[2] == (Face { axis: 1, value: anchor.y }, anchor.o1));
    assert(list[3] == (Face { axis: 1, value: spec_opposite_pos(anchor.y) },
        anchor.o1.spec_opposite()));
    assert(list[4] == (Face { axis: 2, value: anchor.x }, anchor.o2));
    assert(list[5] == (Face { axis: 2, value: spec_opposite_pos(anchor.x) },
        anchor.o2.spec_opposite()));
}

/// The solved-state predicate: derive the full face-color assignment from
/// corner 0 and check every other corner's visible faces against it.
fn is_solved_impl(cube: &Pocket) -> (b: bool)
    requires
        cube.inv(),
    ensures
        b == spec_solved_cube(cube@),
{
    let list = face_colors_by_corner(&cube.corners[0]);
    // for each remaining piece, ensure each side matches face
    let mut i: usize = 1;
    while i < 8
        invariant
            1 <= i <= 8,
            cube.inv(),
            list@ == spec_face_colors(cube@[0]),
            forall|j: int| 1 <= j < i ==> corner_matches_anchor(#[trigger] cube@[j], cube@[0]),
        decreases 8 - i,
    {
        let corner = &cube.corners[i];
        let ok0 = face_color_in_list(
            (Face { axis: 0, value: corner.position[2] }, corner.orientation[0]),
            list,
        );
        let ok1 = face_color_in_list(
            (Face { axis: 1, value: corner.position[1] }, corner.orientation[1]),
            list,
        );
        let ok2 = face_color_in_list(
            (Face { axis: 2, value: corner.position[0] }, corner.orientation[2]),
            list,
        );
        proof {
            lemma_corner_check_equiv(cube@[i as int], cube@[0]);
        }
        if !(ok0 && ok1 && ok2) {
            proof {
                assert(!corner_matches_anchor(cube@[i as int], cube@[0]));
            }
            return false;
        }
        i += 1;
    }
    true
}

/// The cube state after applying a sequence of quarter turns in order.
pub open spec fn spec_apply<T: Cube>(v: T::V, moves: Seq<Rotation>) -> T::V
    decreases moves.len(),
{
    if moves.len() == 0 {
        v
    } else {
        spec_apply::<T>(T::spec_rotate(v, moves[0]), moves.drop_first())
    }
}

/// Appending a move to a sequence applies it last.
pub proof fn lemma_apply_push<T: Cube>(v: T::V, moves: Seq<Rotation>, r: Rotation)
    ensures
        spec_apply::<T>(v, moves.push(r)) == T::spec_rotate(spec_apply::<T>(v, moves), r),
    decreases moves.len(),
{
    if moves.len() == 0 {
        let w = T::spec_rotate(v, r);
        assert(moves.push(r)[0] == r);
        assert(moves.push(r).drop_first() =~= Seq::<Rotation>::empty());
        assert(spec_apply::<T>(w, Seq::<Rotation>::empty()) == w);
        assert(spec_apply::<T>(v, moves.push(r)) == w);
        assert(spec_apply::<T>(v, moves) == v);
    } else {
        let w = T::spec_rotate(v, moves[0]);
        assert(moves.push(r)[0] == moves[0]);
        assert(moves.push(r).drop_first() =~= moves.drop_first().push(r));
        lemma_apply_push::<T>(w, moves.drop_first(), r);
        assert(spec_apply::<T>(v, moves.push(r)) == spec_apply::<T>(w, moves.drop_first().push(r)));
        assert(spec_apply::<T>(v, moves) == spec_apply::<T>(w, moves.drop_first()));
    }
}

/// A quarter turn keeps the cube well formed.
pub proof fn lemma_rotate_cube_wf(s: Seq<CornerView>, r: Rotation)
    requires
        cube_wf(s),
    ensures
        cube_wf(spec_rotate_cube(s, r)),
{
    assert forall|i: int| 0 <= i < s.len() implies corner_wf(#[trigger] spec_rotate_cube(s, r)[i])
        by {
        lemma_rotate_corner_wf(s[i], r.spec_details());
    }
}

/// Inverse round-trip: a quarter turn followed by its inverse restores any
/// well-formed cube state.
pub proof fn lemma_rotate_then_reverse(s: Seq<CornerView>, r: Rotation)
    requires
        cube_wf(s),
    ensures
        spec_rotate_cube(spec_rotate_cube(s, r), r.spec_reverse()) == s,
{
    let t = spec_rotate_cube(spec_rotate_cube(s, r), r.spec_reverse());
    assert forall|i: int| 0 <= i < s.len() implies t[i] == s[i] by {
        lemma_rotate_corner_reverse(s[i], r);
    }
    assert(t =~= s);
}

/// Order four: applying the same quarter turn four times in sequence
/// restores any well-formed cube state.
pub proof fn lemma_rotate_order_four(s: Seq<CornerView>, r: Rotation)
    requires
        cube_wf(s),
    ensures
        spec_rotate_cube(spec_rotate_cube(spec_rotate_cube(spec_rotate_cube(s, r), r), r), r)
            == s,
{
    let t = spec_rotate_cube(spec_rotate_cube(spec_rotate_cube(spec_rotate_cube(s, r), r), r), r);
    assert forall|i: int| 0 <= i < s.len() implies t[i] == s[i] by {
        lemma_rotate_corner_order_four(s[i], r);
    }
    assert(t =~= s);
}

/// Solved invariant: the canonical solved cube is solved, well formed, and
/// its corners occupy pairwise distinct positions.
pub proof fn lemma_new_cube_solved()
    ensures
        spec_solved_cube(spec_new_cube()),
        cube_wf(spec_new_cube()),
        distinct_positions(spec_new_cube()),
{
    let s = spec_new_cube();
    assert forall|i: int| 1 <= i < s.len() implies corner_matches_anchor(#[trigger] s[i], s[0])
        by {
        assert(corner_matches_anchor(s[1], s[0]));
        assert(corner_matches_anchor(s[2], s[0]));
        assert(corner_matches_anchor(s[3], s[0]));
        assert(corner_matches_anchor(s[4], s[0]));
        assert(corner_matches_anchor(s[5], s[0]));
        assert(corner_matches_anchor(s[6], s[0]));
        assert(corner_matches_anchor(s[7], s[0]));
    }
}

/// The corners of a cube state occupy pairwise distinct positions.
pub open spec fn distinct_positions(s: Seq<CornerView>) -> bool {
    forall|i: int, j: int|
        0 <= i < j < s.len() ==> spec_pos(#[trigger] s[i]) != spec_pos(#[trigger] s[j])
}

/// The positions of the corners, in corner order.
pub open spec fn positions_of(s: Seq<CornerView>) -> Seq<(u8, u8, u8)> {
    s.map_values(|c: CornerView| spec_pos(c))
}

/// The 8 vertices of the unit cube.
pub open spec fn all_positions() -> Set<(u8, u8, u8)> {
    set![
        (0, 0, 0),
        (0, 0, 1),
        (0, 1, 0),
        (0, 1, 1),
        (1, 0, 0),
        (1, 0, 1),
        (1, 1, 0),
        (1, 1, 1),
    ]
}

/// A quarter turn keeps the corner positions pairwise distinct.
pub proof fn lemma_rotate_preserves_distinct(s: Seq<CornerView>, r: Rotation)
    requires
        cube_wf(s),
        distinct_positions(s),
    ensures
        distinct_positions(spec_rotate_cube(s, r)),
{
    let t = spec_rotate_cube(s, r);
    assert forall|i: int, j: int| 0 <= i < j < t.len() implies spec_pos(#[trigger] t[i])
        != spec_pos(#[trigger] t[j]) by {
        if spec_pos(t[i]) == spec_pos(t[j]) {
            lemma_rotate_corner_position_injective(s[i], s[j], r);
        }
    }
}

/// In a well-formed cube whose corners occupy pairwise distinct positions,
/// those positions are exactly the 8 distinct points of {0,1}^3.
pub proof fn lemma_distinct_positions_cover(s: Seq<CornerView>)
    requires
        cube_wf(s),
        distinct_positions(s),
    ensures
        positions_of(s).to_set() == all_positions(),
{
    broadcast use vstd::seq_lib::seq_to_set_is_finite;

    let ps = positions_of(s);
    assert(ps.no_duplicates());
    ps.unique_seq_to_set();
    assert(ps.to_set().subset_of(all_positions())) by {
        assert forall|p: (u8, u8, u8)| ps.to_set().contains(p) implies all_positions().contains(p)
            by {
            let i = choose|i: int| 0 <= i < ps.len() && ps[i] == p;
            assert(corner_wf(s[i]));
        }
    }
    assert(all_positions().finite() && all_positions().len() == 8) by {
        lemma_all_positions_card();
    }
    vstd::set_lib::lemma_subset_equality(ps.to_set(), all_positions());
}

proof fn lemma_all_positions_card()
    ensures
        all_positions().finite(),
        all_positions().len() == 8,
{
    broadcast use vstd::set::group_set_axioms;

    let s0 = Set::<(u8, u8, u8)>::empty();
    let s1 = s0.insert((0, 0, 0));
    let s2 = s1.insert((0, 0, 1));
    let s3 = s2.insert((0, 1, 0));
    let s4 = s3.insert((0, 1, 1));
    let s5 = s4.insert((1, 0, 0));
    let s6 = s5.insert((1, 0, 1));
    let s7 = s6.insert((1, 1, 0));
    let s8 = s7.insert((1, 1, 1));
    assert(s1.len() == 1);
    assert(s2.len() == 2);
    assert(s3.len() == 3);
    assert(s4.len() == 4);
    assert(s5.len() == 5);
    assert(s6.len() == 6);
    assert(s7.len() == 7);
    assert(s8.len() == 8);
    assert(all_positions() =~= s8);
}

/// The three visible colors of a corner lie on three different opposite
/// pairs: no two of them are equal or opposite. This holds of every corner
/// of a physically colored cube.
pub open spec fn proper_corner_colors(c: CornerView) -> bool {
    &&& c.o0 != c.o1 && c.o0 != c.o1.spec_opposite()
    &&& c.o0 != c.o2 && c.o0 != c.o2.spec_opposite()
    &&& c.o1 != c.o2 && c.o1 != c.o2.spec_opposite()
}

/// In a well-formed cube whose corners occupy pairwise distinct positions,
/// some corner other than corner 0 lies on any given face.
proof fn lemma_witness_on_face(s: Seq<CornerView>, axis: usize, value: u8)
    requires
        cube_wf(s),
        distinct_positions(s),
        axis < 3,
        value < 2,
    ensures
        exists|j: int| 1 <= j < 8 && spec_coord(#[trigger] s[j], axis) == value,
{
    lemma_distinct_positions_cover(s);
    let ps = positions_of(s);
    let p1: (u8, u8, u8) = if axis == 0 {
        (value, 0, 0)
    } else if axis == 1 {
        (0, value, 0)
    } else {
        (0, 0, value)
    };
    let p2: (u8, u8, u8) = if axis == 0 {
        (value, 0, 1)
    } else if axis == 1 {
        (1, value, 0)
    } else {
        (0, 1, value)
    };
    assert(all_positions().contains(p1));
    assert(all_positions().contains(p2));
    assert(ps.to_set().contains(p1));
    assert(ps.to_set().contains(p2));
    let i1 = choose|i: int| 0 <= i < ps.len() && ps[i] == p1;
    let i2 = choose|i: int| 0 <= i < ps.len() && ps[i] == p2;
    assert(i1 != i2);
    if i1 >= 1 {
        assert(spec_coord(s[i1], axis) == value);
    } else {
        assert(spec_coord(s[i2], axis) == value);
    }
}

/// One quarter turn of a solved, physically colored cube leaves it
/// unsolved: a corner off the rotated face (or on it, when the anchor
/// itself stayed put) now disagrees with the assignment derived from the
/// anchor, because the turn swapped two of the anchor's (or the corner's)
/// orientation slots onto faces of different opposite pairs.
pub proof fn lemma_solved_rotate_not_solved(s: Seq<CornerView>, r: Rotation)
    requires
        cube_wf(s),
        distinct_positions(s),
        spec_solved_cube(s),
        proper_corner_colors(s[0]),
    ensures
        !spec_solved_cube(spec_rotate_cube(s, r)),
{
    let d = r.spec_details();
    let t = spec_rotate_cube(s, r);
    let anchor = s[0];
    if spec_coord(anchor, d.face.axis) == d.face.value {
        // the anchor moved: any unmoved corner now disagrees with it
        let off = spec_opposite_pos(d.face.value);
        lemma_witness_on_face(s, d.face.axis, off);
        let j = choose|j: int| 1 <= j < 8 && spec_coord(#[trigger] s[j], d.face.axis) == off;
        assert(t[j] == s[j]);
        assert(corner_matches_anchor(s[j], anchor));
        if d.face.axis == 0 {
            assert(t[j].o0 != spec_face_color(t[0], 0, t[j].z));
        } else if d.face.axis == 1 {
            assert(t[j].o0 != spec_face_color(t[0], 0, t[j].z));
        } else {
            assert(t[j].o1 != spec_face_color(t[0], 1, t[j].y));
        }
        assert(!corner_matches_anchor(t[j], t[0]));
    } else {
        // the anchor stayed put: any corner on the rotated face now
        // disagrees with it
        lemma_witness_on_face(s, d.face.axis, d.face.value);
        let j = choose|j: int|
            1 <= j < 8 && spec_coord(#[trigger] s[j], d.face.axis) == d.face.value;
        assert(t[0] == anchor);
        assert(corner_matches_anchor(s[j], anchor));
        if d.face.axis == 0 {
            assert(t[j].o0 != spec_face_color(anchor, 0, t[j].z));
        } else if d.face.axis == 1 {
            assert(t[j].o0 != spec_face_color(anchor, 0, t[j].z));
        } else {
            assert(t[j].o1 != spec_face_color(anchor, 1, t[j].y));
        }
        assert(!corner_matches_anchor(t[j], t[0]));
    }
}

/// Turning the same face of a solved, physically colored cube twice leaves
/// it unsolved: every moved corner ends diagonally opposite on its face, so
/// an unmoved corner (or, when the anchor stayed put, a moved one) now reads
/// the opposite color for one of its faces.
pub proof fn lemma_solved_double_turn_not_solved(s: Seq<CornerView>, r: Rotation)
    requires
        cube_wf(s),
        distinct_positions(s),
        spec_solved_cube(s),
        proper_corner_colors(s[0]),
    ensures
        !spec_solved_cube(spec_rotate_cube(spec_rotate_cube(s, r), r)),
{
    let d = r.spec_details();
    let t = spec_rotate_cube(spec_rotate_cube(s, r), r);
    let anchor = s[0];
    if spec_coord(anchor, d.face.axis) == d.face.value {
        let off = spec_opposite_pos(d.face.value);
        lemma_witness_on_face(s, d.face.axis, off);
        let j = choose|j: int| 1 <= j < 8 && spec_coord(#[trigger] s[j], d.face.axis) == off;
        assert(t[j] == s[j]);
        assert(corner_matches_anchor(s[j], anchor));
        if d.face.axis == 2 {
            assert(t[j].o1 != spec_face_color(t[0], 1, t[j].y));
        } else {
            assert(t[j].o0 != spec_face_color(t[0], 0, t[j].z));
        }
        assert(!corner_matches_anchor(t[j], t[0]));
    } else {
        lemma_witness_on_face(s, d.face.axis, d.face.value);
        let j = choose|j: int|
            1 <= j < 8 && spec_coord(#[trigger] s[j], d.face.axis) == d.face.value;
        assert(t[0] == anchor);
        assert(corner_matches_anchor(s[j], anchor));
        if d.face.axis == 2 {
            assert(t[j].o1 != spec_face_color(anchor, 1, t[j].y));
        } else {
            assert(t[j].o0 != spec_face_color(anchor, 0, t[j].z));
        }
        assert(!corner_matches_anchor(t[j], t[0]));
    }
}

/// Turning two faces of different axes on a solved, physically colored cube
/// leaves it unsolved: pick a corner whose membership of the first rotated
/// face differs from the anchor's. The two turns permute the anchor's and
/// the witness's orientation slots differently, so on some face the witness
/// shows a color from a different opposite pair than the anchor assigns.
#[verifier::rlimit(100)]
pub proof fn lemma_solved_two_axes_not_solved(s: Seq<CornerView>, r: Rotation, q: Rotation)
    requires
        cube_wf(s),
        distinct_positions(s),
        spec_solved_cube(s),
        proper_corner_colors(s[0]),
        r.spec_details().face.axis != q.spec_details().face.axis,
    ensures
        !spec_solved_cube(spec_rotate_cube(spec_rotate_cube(s, r), q)),
{
    let dr = r.spec_details();
    let dq = q.spec_details();
    let t = spec_rotate_cube(spec_rotate_cube(s, r), q);
    let anchor = s[0];
    let witness_side = if spec_coord(anchor, dr.face.axis) == dr.face.value {
        spec_opposite_pos(dr.face.value)
    } else {
        dr.face.value
    };
    lemma_witness_on_face(s, dr.face.axis, witness_side);
    let j = choose|j: int| 1 <= j < 8 && spec_coord(#[trigger] s[j], dr.face.axis) == witness_side;
    assert(corner_matches_anchor(s[j], anchor));
    crate::color::lemma_opposite_involution(anchor.o0);
    crate::color::lemma_opposite_involution(anchor.o1);
    crate::color::lemma_opposite_involution(anchor.o2);
    if dr.face.axis == 0 && dq.face.axis == 1 {
        assert(!corner_matches_anchor(t[j], t[0]));
    } else if dr.face.axis == 0 && dq.face.axis == 2 {
        assert(!corner_matches_anchor(t[j], t[0]));
    } else if dr.face.axis == 1 && dq.face.axis == 0 {
        assert(!corner_matches_anchor(t[j], t[0]));
    } else if dr.face.axis == 1 && dq.face.axis == 2 {
        assert(!corner_matches_anchor(t[j], t[0]));
    } else if dr.face.axis == 2 && dq.face.axis == 0 {
        assert(!corner_matches_anchor(t[j], t[0]));
    } else {
        assert(!corner_matches_anchor(t[j], t[0]));
    }
}

/// A face turn followed by its companion turns the whole cube, so a solved
/// cube stays solved: every corner lies on exactly one of the two opposite
/// faces, and both turns swap the same orientation slots and step positions
/// along the same cycle.
#[verifier::rlimit(100)]
pub proof fn lemma_companion_turn_stays_solved(s: Seq<CornerView>, r: Rotation)
    requires
        cube_wf(s),
        spec_solved_cube(s),
    ensures
        spec_solved_cube(spec_rotate_cube(spec_rotate_cube(s, r), r.spec_companion())),
{
    let t = spec_rotate_cube(spec_rotate_cube(s, r), r.spec_companion());
    assert forall|i: int| 1 <= i < t.len() implies corner_matches_anchor(
        #[trigger] t[i],
        t[0],
    ) by {
        assert(corner_matches_anchor(s[i], s[0]));
    }
}

/// Turning a face and then the opposite face in the opposite sense leaves a
/// solved, physically colored cube unsolved: every corner's orientation
/// slots swap the same way, but a corner across the axis from the anchor
/// ends with its moved coordinates stepped along the other cycle, so one of
/// its faces reads the wrong color of the pair.
#[verifier::rlimit(100)]
pub proof fn lemma_opposite_turns_not_solved(s: Seq<CornerView>, r: Rotation, q: Rotation)
    requires
        cube_wf(s),
        distinct_positions(s),
        spec_solved_cube(s),
        proper_corner_colors(s[0]),
        q.spec_details().face.axis == r.spec_details().face.axis,
        q.spec_details().face.value != r.spec_details().face.value,
        crate::corner::spec_forward_cycle(q.spec_details()) != crate::corner::spec_forward_cycle(
            r.spec_details(),
        ),
    ensures
        !spec_solved_cube(spec_rotate_cube(spec_rotate_cube(s, r), q)),
{
    let dr = r.spec_details();
    let t = spec_rotate_cube(spec_rotate_cube(s, r), q);
    let anchor = s[0];
    // a corner across the axis from the anchor
    let witness_side = spec_opposite_pos(spec_coord(anchor, dr.face.axis));
    lemma_witness_on_face(s, dr.face.axis, witness_side);
    let j = choose|j: int| 1 <= j < 8 && spec_coord(#[trigger] s[j], dr.face.axis) == witness_side;
    assert(corner_matches_anchor(s[j], anchor));
    crate::color::lemma_opposite_involution(anchor.o0);
    crate::color::lemma_opposite_involution(anchor.o1);
    crate::color::lemma_opposite_involution(anchor.o2);
    if dr.face.axis == 2 {
        assert(t[j].o1 != spec_face_color(t[0], 1, t[j].y));
    } else {
        assert(t[j].o0 != spec_face_color(t[0], 0, t[j].z));
    }
    assert(!corner_matches_anchor(t[j], t[0]));
}

/// The canonical solved cube is physically colored.
pub proof fn lemma_new_cube_proper()
    ensures
        proper_corner_colors(spec_new_cube()[0]),
{
}

/// Position bijection invariant: after any sequence of rotations from a
/// well-formed cube whose corners occupy pairwise distinct positions, the 8
/// corners' positions are still exactly the 8 distinct points of {0,1}^3.
pub proof fn lemma_position_bijection(s: Seq<CornerView>, moves: Seq<Rotation>)
    ensures
        cube_wf(s) && distinct_positions(s) ==> {
            let t = spec_apply::<Pocket>(s, moves);
            cube_wf(t) && distinct_positions(t) && positions_of(t).to_set() == all_positions()
        },
    decreases moves.len(),
{
    if cube_wf(s) && distinct_positions(s) {
        if moves.len() == 0 {
            lemma_distinct_positions_cover(s);
        } else {
            lemma_rotate_cube_wf(s, moves[0]);
            lemma_rotate_preserves_distinct(s, moves[0]);
            lemma_position_bijection(spec_rotate_cube(s, moves[0]), moves.drop_first());
        }
    }
}

} // verus!

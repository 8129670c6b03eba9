use pocket_cube::rotation::{Rdir, Rotation};

#[test]
fn reverse_is_involution_without_fixed_point() {
    for r in Rotation::array() {
        assert_eq!(r.reverse().reverse(), r);
        assert_ne!(r.reverse(), r);
    }
}

#[test]
fn reverse_pairs_are_adjacent_in_canonical_order() {
    let order = Rotation::array();
    for i in 0..12u8 {
        let r = order[i as usize];
        assert_eq!(r.index(), i);
        assert_eq!(Rotation::by_index(i), r);
        let expected_reverse = if i % 2 == 0 { i + 1 } else { i - 1 };
        assert_eq!(r.reverse().index(), expected_reverse);
        assert!(r.is_reverse(r.reverse()));
        assert!(r.reverse().is_reverse(r));
        for j in 0..12u8 {
            let other = order[j as usize];
            assert_eq!(r.is_reverse(other), j == expected_reverse);
        }
    }
}

#[test]
fn details_decompose_faces_and_directions() {
    let d = Rotation::L.details();
    assert_eq!((d.face.axis, d.face.value), (0, 0));
    assert!(matches!(d.direction, Rdir::Clockwise));
    let d = Rotation::Lc.details();
    assert_eq!((d.face.axis, d.face.value), (0, 0));
    assert!(matches!(d.direction, Rdir::CounterClockwise));
    let d = Rotation::Fc.details();
    assert_eq!((d.face.axis, d.face.value), (1, 1));
    assert!(matches!(d.direction, Rdir::CounterClockwise));
    let d = Rotation::T.details();
    assert_eq!((d.face.axis, d.face.value), (2, 1));
    assert!(matches!(d.direction, Rdir::Clockwise));
    // the twelve moves cover each (axis, value, direction) combination once
    for i in 0..12u8 {
        let d = Rotation::by_index(i).details();
        assert_eq!(d.face.axis as u8, i / 4);
        assert_eq!(d.face.value, (i / 2) % 2);
        let cw = matches!(d.direction, Rdir::Clockwise);
        assert_eq!(cw, i % 2 == 0);
    }
}

#[test]
fn random_rotation_is_one_of_the_twelve() {
    for _ in 0..100 {
        let r = Rotation::random();
        assert!(r.index() < 12);
    }
}

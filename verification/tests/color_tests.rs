use pocket_cube::color::Color;

const ALL_COLORS: [Color; 6] = [
    Color::White,
    Color::Yellow,
    Color::Red,
    Color::Orange,
    Color::Blue,
    Color::Green,
];

#[test]
fn color_codes_round_trip() {
    for c in ALL_COLORS {
        assert_eq!(Color::from_num(c.to_num()), c);
    }
    for x in 0..6u8 {
        assert_eq!(Color::from_num(x).to_num(), x);
    }
}

#[test]
fn color_codes_are_fixed() {
    assert_eq!(Color::White.to_num(), 0);
    assert_eq!(Color::Yellow.to_num(), 1);
    assert_eq!(Color::Red.to_num(), 2);
    assert_eq!(Color::Orange.to_num(), 3);
    assert_eq!(Color::Blue.to_num(), 4);
    assert_eq!(Color::Green.to_num(), 5);
}

#[test]
fn opposite_is_involution_without_fixed_point() {
    for c in ALL_COLORS {
        assert_eq!(c.opposite().opposite(), c);
        assert_ne!(c.opposite(), c);
    }
    assert_eq!(Color::White.opposite(), Color::Yellow);
    assert_eq!(Color::Red.opposite(), Color::Orange);
    assert_eq!(Color::Blue.opposite(), Color::Green);
}

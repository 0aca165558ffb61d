use ballistic_solver::printer::Adjustment;

#[test]
fn elevation_above_tolerance_dials_down() {
    // elevation +3.00 in at tolerance 1.00 in
    assert_eq!(Adjustment::Elevation(300).adjustment(100), 'D');
}

#[test]
fn windage_within_tolerance_is_neutral() {
    // windage -0.50 in at tolerance 1.00 in
    assert_eq!(Adjustment::Windage(-50).adjustment(100), '*');
}

#[test]
fn windage_exactly_at_tolerance_is_neutral() {
    // windage -0.50 in at tolerance 0.50 in: the boundary is neutral, not R
    assert_eq!(Adjustment::Windage(-50).adjustment(50), '*');
}

#[test]
fn boundary_both_sides_neutral() {
    assert_eq!(Adjustment::Elevation(100).adjustment(100), '*');
    assert_eq!(Adjustment::Elevation(-100).adjustment(100), '*');
    assert_eq!(Adjustment::Windage(100).adjustment(100), '*');
    assert_eq!(Adjustment::Windage(-100).adjustment(100), '*');
}

#[test]
fn strict_inequality_triggers_directional_symbols() {
    assert_eq!(Adjustment::Elevation(101).adjustment(100), 'D');
    assert_eq!(Adjustment::Elevation(-101).adjustment(100), 'U');
    assert_eq!(Adjustment::Windage(101).adjustment(100), 'L');
    assert_eq!(Adjustment::Windage(-101).adjustment(100), 'R');
}

#[test]
fn reflection_swaps_directional_symbols() {
    for n in [-250i64, -100, -3, 0, 3, 100, 250] {
        let e = Adjustment::Elevation(n).adjustment(100);
        let e_flip = Adjustment::Elevation(-n).adjustment(100);
        let expect = match e {
            'D' => 'U',
            'U' => 'D',
            other => other,
        };
        assert_eq!(e_flip, expect);
        let w = Adjustment::Windage(n).adjustment(100);
        let w_flip = Adjustment::Windage(-n).adjustment(100);
        let expect_w = match w {
            'L' => 'R',
            'R' => 'L',
            other => other,
        };
        assert_eq!(w_flip, expect_w);
    }
}

#[test]
fn zero_tolerance_zero_deviation_is_neutral() {
    assert_eq!(Adjustment::Elevation(0).adjustment(0), '*');
    assert_eq!(Adjustment::Windage(0).adjustment(0), '*');
    assert_eq!(Adjustment::Elevation(1).adjustment(0), 'D');
    assert_eq!(Adjustment::Elevation(-1).adjustment(0), 'U');
}

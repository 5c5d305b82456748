use render3d::fixed::ONE;
use render3d::trig::{fx_atan2, fx_cos, fx_sin, HALF_PI_FX, PI_FX};

#[test]
fn sine_hits_its_anchor_points() {
    assert_eq!(fx_sin(0), 0);
    // The approximation is exact at the quarter turn up to truncation.
    let peak = fx_sin(HALF_PI_FX);
    assert!(peak > ONE - 2_000 && peak <= ONE);
    // Antisymmetry around the half turn.
    let down = fx_sin(PI_FX + HALF_PI_FX);
    assert!(down < -(ONE - 2_000) && down >= -ONE);
}

#[test]
fn cosine_is_sine_shifted_by_a_quarter_turn() {
    let one_ish = fx_cos(0);
    assert!(one_ish > ONE - 2_000 && one_ish <= ONE);
    // Near the quarter turn the cosine crosses zero.
    let near_zero = fx_cos(HALF_PI_FX);
    assert!(near_zero.abs() < 2_000);
}

#[test]
fn atan2_places_the_axes() {
    assert_eq!(fx_atan2(0, ONE), 0);
    assert_eq!(fx_atan2(ONE, 0), HALF_PI_FX);
    assert_eq!(fx_atan2(0, -ONE), PI_FX);
    assert_eq!(fx_atan2(-ONE, 0), -HALF_PI_FX);
    // The diagonal lands near an eighth of a turn.
    let diag = fx_atan2(ONE, ONE);
    assert!(diag > 700_000 && diag < 900_000);
}

use boids::timing::{smooth, try_smooth, WINDOW};

#[test]
fn first_sample_weighs_one_sixtieth() {
    assert_eq!(smooth(0, 60), 1);
    assert_eq!(smooth(0, 6_000_000), 100_000);
}

#[test]
fn average_moves_towards_the_sample() {
    assert_eq!(smooth(120, 60), 119);
    assert_eq!(smooth(60, 120), 61);
    assert_eq!(smooth(1_000_000, 4_000_000), 1_050_000);
}

#[test]
fn average_is_rounded_down() {
    assert_eq!(smooth(0, 59), 0);
    assert_eq!(smooth(1, 0), 0);
    assert_eq!(smooth(10, 11), 10);
}

#[test]
fn steady_sample_keeps_the_average() {
    for value in [0u128, 1, 59, 60, 61, 16_666_667] {
        assert_eq!(smooth(value, value), value);
    }
}

#[test]
fn try_smooth_agrees_with_smooth() {
    assert_eq!(try_smooth(120, 60), Some(119));
    assert_eq!(try_smooth(0, 0), Some(0));
    assert_eq!(try_smooth(0, u128::MAX), Some(u128::MAX / 60));
}

#[test]
fn try_smooth_refuses_what_does_not_fit() {
    assert_eq!(try_smooth(u128::MAX, 0), None);
    assert_eq!(try_smooth(u128::MAX / 59 + 1, 0), None);
    assert_eq!(try_smooth(u128::MAX / 59, u128::MAX), None);
    assert_eq!(try_smooth(u128::MAX / 59, 0), Some(u128::MAX / 59 * 59 / 60));
}

#[test]
fn window_is_sixty_frames() {
    assert_eq!(WINDOW, 60);
}

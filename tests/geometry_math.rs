use space_shooter::geometry::{
    ceil_sqrt, closer_than_half, cosine, limit_length, quadrant_at, reflect_horizontal,
    reflect_vertical, scale, sine, wrap_into, Quadrant, WORLD_HEIGHT, WORLD_WIDTH,
};

#[test]
fn wrap_brings_values_on_screen() {
    assert_eq!(wrap_into(-1, 10), 9);
    assert_eq!(wrap_into(25, 10), 5);
    assert_eq!(wrap_into(10, 10), 0);
    assert_eq!(wrap_into(-10, 10), 0);
    let w = WORLD_WIDTH as i128;
    let mut x: i128 = -3 * w - 17;
    for _ in 0..5 {
        x = wrap_into(x, w);
        assert!(0 <= x && x < w);
    }
    assert_eq!(x, w - 17);
}

#[test]
fn trig_table_values() {
    assert_eq!(sine(0), 0);
    assert_eq!(sine(90000), 1000);
    assert_eq!(sine(180000), 0);
    assert_eq!(sine(270000), -1000);
    assert_eq!(sine(-90000), -1000);
    assert_eq!(sine(30000), 500);
    assert_eq!(sine(30999), 500);
    assert_eq!(cosine(0), 1000);
    assert_eq!(cosine(60000), 500);
    assert_eq!(cosine(180000), -1000);
    assert_eq!(sine(360000 + 45000), 707);
}

#[test]
fn quadrants_split_at_midpoints() {
    assert_eq!(quadrant_at(0, 0), Quadrant::TopLeft);
    assert_eq!(quadrant_at(WORLD_WIDTH / 2, 0), Quadrant::TopRight);
    assert_eq!(quadrant_at(WORLD_WIDTH / 2 - 1, WORLD_HEIGHT / 2), Quadrant::BottomLeft);
    assert_eq!(quadrant_at(WORLD_WIDTH - 1, WORLD_HEIGHT - 1), Quadrant::BottomRight);
}

#[test]
fn reflections_undo_themselves() {
    assert_eq!(reflect_horizontal(30000), 330000);
    assert_eq!(reflect_horizontal(reflect_horizontal(30000)), 30000);
    assert_eq!(reflect_vertical(200000), 340000);
    assert_eq!(reflect_vertical(100000), 80000);
    for rot in [0i64, 1, 45000, 90000, 179999, 180000, 180001, 270000, 359999] {
        assert_eq!(reflect_horizontal(reflect_horizontal(rot)), rot);
        assert_eq!(reflect_vertical(reflect_vertical(rot)), rot);
    }
    // A heading of exactly a full turn comes back as zero.
    assert_eq!(reflect_vertical(reflect_vertical(360000)), 0);
}

#[test]
fn overlap_is_symmetric() {
    // Centres 50 pixels apart; diameters summing to 101 and 100 pixels.
    assert!(closer_than_half(0, 0, 30000, 40000, 101));
    assert!(closer_than_half(30000, 40000, 0, 0, 101));
    assert!(!closer_than_half(0, 0, 30000, 40000, 100));
    assert!(!closer_than_half(30000, 40000, 0, 0, 100));
    assert!(!closer_than_half(i64::MIN, 0, i64::MAX, 0, 200));
}

#[test]
fn square_roots_round_up() {
    assert_eq!(ceil_sqrt(0), 0);
    assert_eq!(ceil_sqrt(1), 1);
    assert_eq!(ceil_sqrt(10), 4);
    assert_eq!(ceil_sqrt(16), 4);
    assert_eq!(ceil_sqrt(17), 5);
}

#[test]
fn scaling_rounds_toward_zero() {
    assert_eq!(scale(7, 3, 2), 10);
    assert_eq!(scale(-7, 3, 2), -10);
    assert_eq!(scale(7, -3, 2), -10);
}

#[test]
fn length_limit_keeps_direction() {
    assert_eq!(limit_length(300, 400, 100), (60, 80));
    assert_eq!(limit_length(-300, 400, 100), (-60, 80));
    assert_eq!(limit_length(30, 40, 100), (30, 40));
    let (x, y) = limit_length(1, 1, 1);
    assert!(x * x + y * y <= 1);
}

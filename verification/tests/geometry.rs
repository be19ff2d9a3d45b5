use matubokkuri::types::{isqrt, minus, pixels, plus, point2, Point2, Vector2, UNIT};

#[test]
fn unit_is_a_thousandth_of_a_pixel() {
    assert_eq!(UNIT, 1000);
    assert_eq!(pixels(1), 1000);
    assert_eq!(pixels(-60), -60_000);
    assert_eq!(pixels(i32::MAX), 2_147_483_647_000);
    assert_eq!(point2(240, 110), Point2 { x: 240_000, y: 110_000 });
}

#[test]
fn plus_adds_and_saturates() {
    assert_eq!(plus(2, 3), 5);
    assert_eq!(plus(-7, 3), -4);
    assert_eq!(plus(i64::MAX, 1), i64::MAX);
    assert_eq!(plus(i64::MAX - 1, 1), i64::MAX);
    assert_eq!(plus(i64::MIN, -1), i64::MIN);
    assert_eq!(plus(i64::MIN, i64::MAX), -1);
}

#[test]
fn minus_subtracts_and_saturates() {
    assert_eq!(minus(2, 3), -1);
    assert_eq!(minus(0, i64::MIN), i64::MAX);
    assert_eq!(minus(i64::MIN, 1), i64::MIN);
    assert_eq!(minus(i64::MAX, -1), i64::MAX);
    assert_eq!(minus(0, 5), -5);
}

#[test]
fn isqrt_rounds_down() {
    assert_eq!(isqrt(0), 0);
    assert_eq!(isqrt(1), 1);
    assert_eq!(isqrt(3), 1);
    assert_eq!(isqrt(4), 2);
    assert_eq!(isqrt(24), 4);
    assert_eq!(isqrt(25), 5);
    assert_eq!(isqrt(26), 5);
    assert_eq!(isqrt(250_000_000_000), 500_000);
    assert_eq!(isqrt(u128::MAX), u64::MAX);
    assert_eq!(isqrt((u64::MAX as u128) * (u64::MAX as u128)), u64::MAX);
    assert_eq!(isqrt((u64::MAX as u128) * (u64::MAX as u128) - 1), u64::MAX - 1);
}

#[test]
fn resize_keeps_the_direction() {
    let v = Vector2::new(300_000, 400_000).resize(2_000);
    assert_eq!(v, Vector2 { x: 1_200, y: 1_600 });
    let w = Vector2::new(-300_000, 400_000).resize(3_000);
    assert_eq!(w, Vector2 { x: -1_800, y: 2_400 });
    let along = Vector2::new(0, -7).resize(2_000);
    assert_eq!(along, Vector2 { x: 0, y: -2_000 });
}

#[test]
fn resize_rounds_toward_zero() {
    // length of (1, 1) is 1 after rounding down
    assert_eq!(Vector2::new(1, 1).resize(10), Vector2 { x: 10, y: 10 });
    // length of (2, 3) is 3: 2 * 10 / 3 = 6, 3 * 10 / 3 = 10
    assert_eq!(Vector2::new(2, 3).resize(10), Vector2 { x: 6, y: 10 });
    assert_eq!(Vector2::new(-2, -3).resize(10), Vector2 { x: -6, y: -10 });
}

#[test]
fn resize_of_nothing_is_nothing() {
    assert_eq!(Vector2::new(0, 0).resize(2_000), Vector2 { x: 0, y: 0 });
}

#[test]
fn resize_takes_the_largest_vectors() {
    let v = Vector2::new(i64::MIN, i64::MIN).resize(1_000);
    // the length is 2^63 * sqrt(2), rounded down
    assert_eq!(v, Vector2 { x: -707, y: -707 });
    let w = Vector2::new(i64::MAX, 0).resize(u32::MAX);
    assert_eq!(w, Vector2 { x: u32::MAX as i64, y: 0 });
}

#[test]
fn points_and_vectors_combine() {
    let p = Point2::new(10, 20).shift(Vector2::new(-3, 4));
    assert_eq!(p, Point2 { x: 7, y: 24 });
    let far = Point2::new(i64::MAX, i64::MIN).shift(Vector2::new(5, -5));
    assert_eq!(far, Point2 { x: i64::MAX, y: i64::MIN });
    let d = Point2::new(7, 24).offset(Point2::new(10, 20));
    assert_eq!(d, Vector2 { x: -3, y: 4 });
    let wide = Point2::new(i64::MAX, 0).offset(Point2::new(-1, 0));
    assert_eq!(wide, Vector2 { x: i64::MAX, y: 0 });
    assert_eq!(Vector2::new(1, 2).combine(Vector2::new(3, 4)), Vector2 { x: 4, y: 6 });
}

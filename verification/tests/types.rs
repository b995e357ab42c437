use fish_shoal::Scalar;
use fish_shoal::Vec2;
use fish_shoal::SCALE;

#[test]
fn scalar_ops() {
    let mut scalar: Scalar = Scalar::new(10 * SCALE);

    assert_eq!(scalar.add(Scalar::new(5 * SCALE)), Scalar::new(15 * SCALE));

    assert_eq!(scalar.sub(Scalar::new(5 * SCALE)), Scalar::new(5 * SCALE));

    assert_eq!(scalar.mul(Scalar::new(2 * SCALE)), Scalar::new(20 * SCALE));

    scalar = scalar.add(Scalar::new(2 * SCALE));
    assert_eq!(scalar, Scalar::new(12 * SCALE));
}

#[test]
fn scalar_math() {
    let scalar_a: Scalar = Scalar::new(-5 * SCALE);
    let scalar_b: Scalar = Scalar::new(10 * SCALE);

    assert_eq!(scalar_a.abs(), Scalar::new(5 * SCALE));
    assert_eq!(scalar_a.max(scalar_b), scalar_b);
    assert_eq!(scalar_a.min(scalar_b), scalar_a);

    let squared: Scalar = Scalar::new(4 * SCALE).squared();
    assert_eq!(squared, Scalar::new(16 * SCALE));

    let root: Scalar = squared.sqrt();
    assert_eq!(root, Scalar::new(4 * SCALE));
}

#[test]
fn scalar_lerp() {
    let start: Scalar = Scalar::new(0);
    let end: Scalar = Scalar::new(100 * SCALE);

    let mid: Scalar = start.lerp(end, SCALE / 2);
    assert_eq!(mid, Scalar::new(50 * SCALE));

    let clamped_low: Scalar = start.lerp(end, -SCALE / 2);
    assert_eq!(clamped_low, start);
}

#[test]
fn scalar_random() {
    let scalar: Scalar = Scalar::new_random(0, SCALE);

    assert!(scalar.value >= 0 && scalar.value < SCALE);
}

#[test]
fn scalar_clamp_and_div() {
    let mut s: Scalar = Scalar::new(7 * SCALE);
    s.clamp(Scalar::new(0), Scalar::new(5 * SCALE));
    assert_eq!(s, Scalar::new(5 * SCALE));

    let q: Scalar = Scalar::new(9 * SCALE).div(Scalar::new(2 * SCALE));
    assert_eq!(q, Scalar::new(4500));
}

#[test]
fn vec2_ops() {
    let mut vec: Vec2 = Vec2::new(SCALE, 2 * SCALE);
    assert_eq!(vec.add(Vec2::new(3 * SCALE, 4 * SCALE)), Vec2::new(4 * SCALE, 6 * SCALE));
    assert_eq!(vec.mul(Scalar::new(2 * SCALE)), Vec2::new(2 * SCALE, 4 * SCALE));
    vec = vec.add(Vec2::new(SCALE, SCALE));
    assert_eq!(vec, Vec2::new(2 * SCALE, 3 * SCALE));
}

#[test]
fn vec2_math() {
    let vec_a: Vec2 = Vec2::new(3 * SCALE, 0);
    let vec_b: Vec2 = Vec2::new(0, 4 * SCALE);
    assert_eq!(vec_a.length(), 3 * SCALE);
    assert_eq!(vec_a.distance(vec_b), 5 * SCALE);
    assert_eq!(vec_a.dot(vec_b), 0);
}

#[test]
fn vec2_random() {
    let vec: Vec2 = Vec2::new_random(0, 10 * SCALE, 0, 10 * SCALE);

    assert!(vec.x >= 0 && vec.x < 10 * SCALE);
    assert!(vec.y >= 0 && vec.y < 10 * SCALE);
}

#[test]
fn vec2_normalize_zero_vector_stays_zero() {
    let zero: Vec2 = Vec2::new(0, 0);
    assert_eq!(zero.normalized(), Vec2::new(0, 0));

    let mut z: Vec2 = Vec2::new(0, 0);
    z.normalize();
    assert_eq!(z, Vec2::new(0, 0));
}

#[test]
fn vec2_normalize_unit_length() {
    let v: Vec2 = Vec2::new(3 * SCALE, 4 * SCALE);
    let n: Vec2 = v.normalized();
    assert_eq!(n, Vec2::new(600, 800));
    assert_eq!(n.length(), SCALE);
}

#[test]
fn vec2_round_trip() {
    let v: Vec2 = Vec2::from([5 * SCALE, -7 * SCALE]);
    assert_eq!(v.to_array(), [5 * SCALE, -7 * SCALE]);

    let w: Vec2 = Vec2::from((123, -456));
    let pair: (i64, i64) = w.into();
    assert_eq!(pair, (123, -456));
}

#[test]
fn vec2_random_dir_is_near_unit_and_never_zero() {
    for _ in 0..50 {
        let d: Vec2 = Vec2::random_dir();
        assert!(!(d.x == 0 && d.y == 0));
        assert!(d.x.abs() <= SCALE && d.y.abs() <= SCALE);
        let len_sq: i64 = d.x * d.x + d.y * d.y;
        assert!(SCALE * SCALE - 2 * SCALE <= len_sq && len_sq <= SCALE * SCALE);
    }
}

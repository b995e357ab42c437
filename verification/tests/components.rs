use fish_shoal::Density;
use fish_shoal::DeltaTime;
use fish_shoal::Scalar;
use fish_shoal::Social;
use fish_shoal::Speed;
use fish_shoal::Stress;
use fish_shoal::TargetSpeed;
use fish_shoal::Vec2;
use fish_shoal::Velocity;
use fish_shoal::SCALE;

#[test]
fn velocity_component_api() {
    let random: Velocity = Velocity::new();
    assert!(random.0.x.abs() <= SCALE && random.0.y.abs() <= SCALE);
    let len_sq: i64 = random.0.x * random.0.x + random.0.y * random.0.y;
    assert!(SCALE * SCALE - 2 * SCALE <= len_sq && len_sq <= SCALE * SCALE);

    let mut v = Velocity(Vec2::new(3 * SCALE, 4 * SCALE));
    let normalized: Velocity = v.normalize();
    assert_eq!(normalized, Velocity(Vec2::new(600, 800)));
    assert_eq!(v, normalized);

    // Interpolating all the way onto the target renormalizes it.
    let mut w = Velocity(Vec2::new(SCALE, 0));
    let to = Velocity(Vec2::new(600, 800));
    let result: Velocity = w.lerp(&to, SCALE);
    assert_eq!(result, Velocity(Vec2::new(600, 800)));
}

#[test]
fn speed_component_api() {
    assert_eq!(Speed::new_zero(), Speed(Scalar::new(0)));

    let random: Speed = Speed::new_random(10 * SCALE, 100 * SCALE);
    assert!(random.0.value >= 10 * SCALE && random.0.value < 100 * SCALE);

    let mut s = Speed(Scalar::new(40 * SCALE));
    let halfway: Speed = s.lerp(&Speed(Scalar::new(60 * SCALE)), SCALE / 2);
    assert_eq!(halfway, Speed(Scalar::new(50 * SCALE)));
    assert_eq!(s, halfway);
}

#[test]
fn stress_and_social_and_density_api() {
    let stress = Stress::new(700);
    assert_eq!(stress.factor(), 700);
    assert_eq!(Stress::default(), Stress::new(SCALE / 10));

    let mut social = Social::default();
    assert!(!social.is_in_group);
    social.set_grouped();
    assert!(social.is_in_group);
    social.set_alone();
    assert!(!social.is_in_group);

    let mut density = Density::default();
    assert!(density.is_zero());
    density.set(4);
    assert_eq!(density.value, 4);
    assert!(!density.is_zero());
}

#[test]
fn delta_time_is_clamped() {
    let mut clock = DeltaTime::default();
    assert_eq!(clock.delta, 0);
    clock.calc();
    assert!(clock.delta >= 0 && clock.delta <= 1000);
}

#[test]
fn target_speed_wraps_a_scalar() {
    let target = TargetSpeed(Scalar::new(75 * SCALE));
    assert_eq!(target.0.value, 75 * SCALE);
}

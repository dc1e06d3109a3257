use particles::particle::Particle;
use particles::ALPHA_INIT;
use particles::EXTENT;

fn sample(alpha: u64, vel_y: i64, acc_y: i64) -> Particle {
    Particle {
        height: EXTENT,
        width: EXTENT,
        pos_x: 640_000_000,
        pos_y: 960_000_000,
        vel_x: 0,
        vel_y,
        acc_x: 0,
        acc_y,
        alpha,
    }
}

#[test]
fn alpha_fades_geometrically() {
    let mut p = sample(ALPHA_INIT, -1_500_000, 100_000);
    let mut expected: u64 = ALPHA_INIT;
    for _ in 0..50 {
        p.update();
        expected = expected * 995 / 1000;
        assert_eq!(p.alpha, expected);
    }
}

#[test]
fn alpha_never_increases() {
    let mut p = sample(ALPHA_INIT, -2_000_000, 149_999);
    let mut prev: u64 = p.alpha;
    for _ in 0..500 {
        p.update();
        assert!(p.alpha <= prev);
        prev = p.alpha;
    }
}

#[test]
fn alpha_strictly_decreases_while_visible() {
    let mut p = sample(ALPHA_INIT, -1_000_000, 0);
    // from near-opaque down past the 0.02 invisibility threshold, every
    // step loses ground; the lifecycle terminates on its own
    let mut steps: u32 = 0;
    while p.alpha >= 20_000 {
        let prev: u64 = p.alpha;
        p.update();
        assert!(p.alpha < prev);
        steps += 1;
        assert!(steps < 2000);
    }
    assert!(p.alpha < 20_000);
}

#[test]
fn first_fade_step_exact_value() {
    let mut p = sample(ALPHA_INIT, -1, 0);
    p.update();
    // 990_000 * 995 / 1000
    assert_eq!(p.alpha, 985_050);
}

#[test]
fn accel_decays_geometrically() {
    let mut p = sample(ALPHA_INIT, -1_000_000, 149_999);
    let mut expected: i64 = 149_999;
    for _ in 0..40 {
        p.update();
        expected = expected * 7 / 10;
        assert_eq!(p.acc_y, expected);
    }
    assert_eq!(p.acc_y, 0);
}

#[test]
fn accel_magnitude_decays_from_negative_values() {
    let mut p = sample(ALPHA_INIT, 0, -149_999);
    let mut expected_mag: i64 = 149_999;
    for _ in 0..30 {
        p.update();
        expected_mag = expected_mag * 7 / 10;
        assert_eq!(p.acc_y, -expected_mag);
        assert!(p.acc_y.abs() <= expected_mag);
    }
}

#[test]
fn update_is_euler_integration() {
    let mut p = sample(ALPHA_INIT, -1_000_000, 100_000);
    p.update();
    // velocity += acceleration, then position += velocity
    assert_eq!(p.vel_y, -900_000);
    assert_eq!(p.pos_y, 960_000_000 - 900_000);
    assert_eq!(p.vel_x, 0);
    assert_eq!(p.pos_x, 640_000_000);
    // acceleration decays by 7/10 after the motion step
    assert_eq!(p.acc_y, 70_000);
    assert_eq!(p.acc_x, 0);
}

#[test]
fn extent_is_constant_across_updates() {
    let mut p = sample(ALPHA_INIT, -2_000_000, 0);
    for _ in 0..100 {
        p.update();
        assert_eq!(p.width, EXTENT);
        assert_eq!(p.height, EXTENT);
    }
}

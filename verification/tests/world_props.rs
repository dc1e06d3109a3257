use particles::particle::Particle;
use particles::world::World;
use particles::ALPHA_INIT;
use particles::EXTENT;

const WIDTH: i64 = 1_280_000_000;
const HEIGHT: i64 = 960_000_000;

fn marked(pos_x: i64, alpha: u64) -> Particle {
    Particle {
        height: EXTENT,
        width: EXTENT,
        pos_x,
        pos_y: HEIGHT,
        vel_x: 0,
        vel_y: -1_000_000,
        acc_x: 0,
        acc_y: 50_000,
        alpha,
    }
}

#[test]
fn new_world_is_empty() {
    let w = World::new(WIDTH, HEIGHT);
    assert_eq!(w.particles.len(), 0);
    assert_eq!(w.current_turn, 0);
    assert_eq!(w.width, WIDTH);
    assert_eq!(w.height, HEIGHT);
}

#[test]
fn spawn_produces_exactly_that_many_boxed_entities() {
    let mut w = World::new(WIDTH, HEIGHT);
    w.add_shapes(1000);
    assert_eq!(w.particles.len(), 1000);
    for p in &w.particles {
        assert_eq!(p.pos_y, HEIGHT);
        assert!(0 <= p.pos_x && p.pos_x <= WIDTH);
        assert_eq!(p.vel_x, 0);
        assert!(-2_000_000 <= p.vel_y && p.vel_y <= -1);
        assert_eq!(p.acc_x, 0);
        assert!(0 <= p.acc_y && p.acc_y <= 149_999);
        assert_eq!(p.alpha, ALPHA_INIT);
        assert_eq!(p.width, EXTENT);
        assert_eq!(p.height, EXTENT);
    }
}

#[test]
fn spawn_with_negative_count_uses_magnitude() {
    let mut w = World::new(WIDTH, HEIGHT);
    w.add_shapes(-4);
    assert_eq!(w.particles.len(), 4);
}

#[test]
fn despawn_removes_invisible_front() {
    let mut w = World::new(WIDTH, HEIGHT);
    // front entity below the 0.02 threshold, a visible one behind it
    w.particles.push(Box::new(marked(111, 10_000)));
    w.particles.push(Box::new(marked(222, 900_000)));
    w.remove_shapes(1);
    assert_eq!(w.particles.len(), 1);
    assert_eq!(w.particles[0].pos_x, 222);
}

#[test]
fn despawn_removes_visible_front_despite_invisible_later() {
    let mut w = World::new(WIDTH, HEIGHT);
    // the look-ahead only examines the front: an invisible entity further
    // back does not save the oldest one
    w.particles.push(Box::new(marked(111, 900_000)));
    w.particles.push(Box::new(marked(222, 10_000)));
    w.particles.push(Box::new(marked(333, 5_000)));
    w.remove_shapes(1);
    assert_eq!(w.particles.len(), 2);
    assert_eq!(w.particles[0].pos_x, 222);
    assert_eq!(w.particles[1].pos_x, 333);
}

#[test]
fn despawn_clamps_at_empty() {
    let mut w = World::new(WIDTH, HEIGHT);
    w.remove_shapes(5);
    assert_eq!(w.particles.len(), 0);
    w.add_shapes(2);
    w.remove_shapes(-7);
    assert_eq!(w.particles.len(), 0);
}

#[test]
fn forced_draws_change_population_by_exactly_the_draw() {
    let mut w = World::new(WIDTH, HEIGHT);
    w.update_with(3);
    assert_eq!(w.particles.len(), 3);
    assert_eq!(w.current_turn, 1);
    w.update_with(-2);
    assert_eq!(w.particles.len(), 1);
    assert_eq!(w.current_turn, 2);
    w.update_with(0);
    assert_eq!(w.particles.len(), 1);
    assert_eq!(w.current_turn, 3);
}

#[test]
fn random_tick_moves_population_by_at_most_three() {
    let mut w = World::new(WIDTH, HEIGHT);
    w.add_shapes(50);
    for turn in 0..30u64 {
        let before: i64 = w.particles.len() as i64;
        w.update();
        let after: i64 = w.particles.len() as i64;
        assert!((after - before).abs() <= 3);
        assert_eq!(w.current_turn, turn + 1);
    }
}

fn assert_one_step(before: &Particle, after: &Particle) {
    // the horizontal axis of a spawned particle never moves
    assert_eq!(after.pos_x, before.pos_x);
    let vel_y: i64 = before.vel_y + before.acc_y;
    assert_eq!(after.vel_y, vel_y);
    assert_eq!(after.pos_y, before.pos_y + vel_y);
    assert_eq!(after.acc_y, before.acc_y * 7 / 10);
    assert_eq!(after.alpha, before.alpha * 995 / 1000);
}

#[test]
fn random_tick_advances_every_survivor_once() {
    let mut w = World::new(WIDTH, HEIGHT);
    w.add_shapes(10);
    for _ in 0..20 {
        let before: Vec<Particle> = w.particles.iter().map(|b| **b).collect();
        w.update();
        let delta: i64 = w.particles.len() as i64 - before.len() as i64;
        assert!(delta.abs() <= 3);
        if delta >= 0 {
            // the old entities survive in place, each advanced one step,
            // and any appended entity is one step from freshly spawned
            for i in 0..before.len() {
                assert_one_step(&before[i], &w.particles[i]);
            }
            for p in w.particles.iter().skip(before.len()) {
                assert_eq!(p.alpha, ALPHA_INIT * 995 / 1000);
                assert_eq!(p.vel_x, 0);
                assert!(0 <= p.pos_x && p.pos_x <= WIDTH);
            }
        } else {
            // the front |delta| entities were despawned; the rest each
            // advanced one step
            let removed: usize = (-delta) as usize;
            for i in 0..w.particles.len() {
                assert_one_step(&before[i + removed], &w.particles[i]);
            }
        }
    }
}

#[test]
fn end_to_end_scenario() {
    let mut w = World::new(WIDTH, HEIGHT);
    w.add_shapes(1000);
    assert_eq!(w.particles.len(), 1000);
    for p in &w.particles {
        assert_eq!(p.pos_y, HEIGHT);
        assert!(0 <= p.pos_x && p.pos_x <= WIDTH);
    }
    // remember each entity so the survivors can be identified afterwards
    let before: Vec<Particle> = w.particles.iter().map(|b| **b).collect();

    // one tick with a forced draw of -3: the tie-break rule removes the
    // front entity three times over
    w.update_with(-3);
    assert_eq!(w.particles.len(), 997);
    assert_eq!(w.current_turn, 1);
    for (i, p) in w.particles.iter().enumerate() {
        let orig = before[i + 3];
        // the horizontal axis never moves: velocity and acceleration are 0
        assert_eq!(p.pos_x, orig.pos_x);
        // one exact Euler step on the vertical axis
        let vel_y: i64 = orig.vel_y + orig.acc_y;
        assert_eq!(p.vel_y, vel_y);
        assert_eq!(p.pos_y, HEIGHT + vel_y);
        // one exact fade step
        assert_eq!(p.alpha, orig.alpha * 995 / 1000);
    }
}

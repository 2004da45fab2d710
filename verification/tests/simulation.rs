use orbit_toy::body::{Body, Rgba};
use orbit_toy::sim::{Command, Sim, SimConfig};
use orbit_toy::trail::Trail;
use orbit_toy::vec2d::Vec2d;
use orbit_toy::SCALE;

fn white() -> Rgba {
    Rgba { r: 255, g: 255, b: 255, a: 255 }
}

fn body_at(x: i64, y: i64, vx: i64, vy: i64, mass: i64, radius: i64) -> Body {
    Body::new(Vec2d::new(x, y), Vec2d::new(vx, vy), mass, radius, white())
}

#[test]
fn trail_keeps_the_most_recent_pushes() {
    let mut t = Trail::new(3);
    let p: Vec<Vec2d> = (1..=5).map(|i| Vec2d::new(i, 10 * i)).collect();
    for q in &p {
        t.update(*q);
    }
    // Capacity 3, five pushes: the contents are p3, p4, p5 in push order.
    let segs = t.draw();
    assert_eq!(segs.len(), 2);
    assert_eq!(segs[0].from, p[2]);
    assert_eq!(segs[0].to, p[3]);
    assert_eq!(segs[1].from, p[3]);
    assert_eq!(segs[1].to, p[4]);
}

#[test]
fn trail_length_is_min_of_pushes_and_capacity() {
    let mut t = Trail::new(4);
    assert_eq!(t.draw().len(), 0);
    t.update(Vec2d::new(1, 1));
    assert_eq!(t.draw().len(), 0);
    t.update(Vec2d::new(2, 2));
    assert_eq!(t.draw().len(), 1);
    for i in 3..=9 {
        t.update(Vec2d::new(i, i));
    }
    // Nine pushes with capacity 4: length 4, so three segments.
    assert_eq!(t.draw().len(), 3);
}

#[test]
fn trail_opacity_rises_with_age() {
    let mut t = Trail::new(10);
    for i in 0..4 {
        t.update(Vec2d::new(i, 0));
    }
    let segs = t.draw();
    assert_eq!(segs.len(), 3);
    for (k, seg) in segs.iter().enumerate() {
        assert_eq!(seg.opacity_num, k + 1);
        assert_eq!(seg.opacity_den, 4);
    }
}

#[test]
fn move_body_advances_by_velocity_times_dt() {
    let mut b = body_at(0, 0, 3 * SCALE, -2 * SCALE, 1, SCALE);
    b.move_body(1, 10);
    let p = b.position();
    assert_eq!((p.x(), p.y()), (3 * SCALE / 10, -2 * SCALE / 10));
    assert_eq!(b.velocity(), Vec2d::new(3 * SCALE, -2 * SCALE));
}

#[test]
fn move_body_records_the_trail() {
    let mut b = body_at(0, 0, SCALE, 0, 1, SCALE);
    b.move_body(1, 10);
    b.move_body(1, 10);
    b.move_body(1, 10);
    let segs = b.draw_trails();
    assert_eq!(segs.len(), 2);
    assert_eq!(segs[0].from, Vec2d::new(SCALE / 10, 0));
    assert_eq!(segs[2 - 1].to, Vec2d::new(3 * SCALE / 10, 0));
}

#[test]
fn boundary_reflection_negates_the_outgoing_component() {
    // A body just inside the right edge moving right: vx flips, vy stays.
    let width = 100 * SCALE;
    let height = 100 * SCALE;
    let mut b = body_at(99 * SCALE + 1, 50 * SCALE, 5, 7, 1, SCALE);
    b.check_boundary_collision(width, height);
    assert_eq!(b.velocity(), Vec2d::new(-5, 7));
}

#[test]
fn boundary_reflection_handles_the_left_and_top_edges() {
    let width = 100 * SCALE;
    let height = 100 * SCALE;
    let mut b = body_at(SCALE - 1, SCALE - 1, -3, -4, 1, SCALE);
    b.check_boundary_collision(width, height);
    assert_eq!(b.velocity(), Vec2d::new(3, 4));
}

#[test]
fn boundary_reflection_leaves_interior_bodies_alone() {
    let mut b = body_at(50 * SCALE, 50 * SCALE, 5, 7, 1, SCALE);
    b.check_boundary_collision(100 * SCALE, 100 * SCALE);
    assert_eq!(b.velocity(), Vec2d::new(5, 7));
}

#[test]
fn distance_and_overlaps_are_exact() {
    let a = body_at(0, 0, 0, 0, 1, SCALE);
    let b = body_at(3 * SCALE, 4 * SCALE, 0, 0, 1, 4 * SCALE);
    assert_eq!(a.distance(&b), 5 * SCALE);
    // Radius sum 5 * SCALE equals the distance: touching.
    assert!(a.overlaps(&b));
    // One subunit further: clear.
    let c = body_at(3 * SCALE, 4 * SCALE, 0, 0, 1, 4 * SCALE - 1);
    assert!(!a.overlaps(&c));
}

#[test]
fn collision_conserves_momentum_with_unequal_masses() {
    // Masses 3 and 1, velocities 4 and -2 units per tick along the line of
    // centers: the classic answer is 1 and 7 units per tick.
    let mut a = body_at(0, 0, 4 * SCALE, 0, 3, SCALE);
    let mut b = body_at(2 * SCALE, 0, -2 * SCALE, 0, 1, SCALE);
    let before = 3i128 * (4 * SCALE as i128) + 1i128 * (-2 * SCALE as i128);
    a.handle_collision(&mut b);
    assert_eq!(a.velocity(), Vec2d::new(SCALE, 0));
    assert_eq!(b.velocity(), Vec2d::new(7 * SCALE, 0));
    let after = 3i128 * (a.velocity().x() as i128) + 1i128 * (b.velocity().x() as i128);
    assert_eq!(before, after);
}

#[test]
fn collision_exchanges_velocities_for_equal_masses() {
    let mut a = body_at(0, 0, 2 * SCALE, 0, 5, SCALE);
    let mut b = body_at(2 * SCALE, 0, -SCALE, 0, 5, SCALE);
    a.handle_collision(&mut b);
    assert_eq!(a.velocity(), Vec2d::new(-SCALE, 0));
    assert_eq!(b.velocity(), Vec2d::new(2 * SCALE, 0));
}

#[test]
fn collision_skips_bodies_that_do_not_touch() {
    let mut a = body_at(0, 0, SCALE, 0, 1, SCALE);
    let mut b = body_at(10 * SCALE, 0, -SCALE, 0, 1, SCALE);
    a.handle_collision(&mut b);
    assert_eq!(a.velocity(), Vec2d::new(SCALE, 0));
    assert_eq!(b.velocity(), Vec2d::new(-SCALE, 0));
}

#[test]
fn collision_skips_coincident_centers() {
    let mut a = body_at(5 * SCALE, 5 * SCALE, SCALE, 0, 1, SCALE);
    let mut b = body_at(5 * SCALE, 5 * SCALE, -SCALE, 0, 1, SCALE);
    a.handle_collision(&mut b);
    assert_eq!(a.velocity(), Vec2d::new(SCALE, 0));
    assert_eq!(b.velocity(), Vec2d::new(-SCALE, 0));
}

#[test]
fn touching_bodies_at_rest_stay_at_rest() {
    // Two touching unit-radius bodies with no motion: the collision response
    // runs and changes nothing.
    let mut a = body_at(0, 0, 0, 0, 1, SCALE);
    let mut b = body_at(2 * SCALE, 0, 0, 0, 1, SCALE);
    assert!(a.overlaps(&b));
    a.handle_collision(&mut b);
    assert_eq!(a.velocity(), Vec2d::new(0, 0));
    assert_eq!(b.velocity(), Vec2d::new(0, 0));
}

#[test]
fn gravity_skips_separations_of_at_most_one_unit() {
    let mut a = body_at(0, 0, 10, -20, 1, SCALE);
    let b = body_at(SCALE, 0, 0, 0, 1000, SCALE);
    a.apply_gravity(&b);
    assert_eq!(a.velocity(), Vec2d::new(10, -20));
}

#[test]
fn gravity_pulls_toward_the_other_body() {
    // Mass 4 at two units along x: the pull is 4 / 2^2 = 1 unit per tick.
    let mut a = body_at(0, 0, 0, 0, 1, SCALE);
    let b = body_at(2 * SCALE, 0, 0, 0, 4, SCALE);
    a.apply_gravity(&b);
    assert_eq!(a.velocity(), Vec2d::new(SCALE, 0));
}

#[test]
fn gravity_changes_only_the_puller() {
    let mut a = body_at(0, 0, 0, 0, 1, SCALE);
    let b = body_at(2 * SCALE, 0, 0, 0, 4, SCALE);
    a.apply_gravity(&b);
    assert_eq!(b.velocity(), Vec2d::new(0, 0));
    assert_eq!(b.position(), Vec2d::new(2 * SCALE, 0));
}

#[test]
fn random_bodies_stay_inside_the_given_viewport() {
    let mut sim = Sim::start();
    assert!(sim.randomize(800, 600, 12345));
    for b in &sim.bodies {
        let p = b.position();
        assert!(0 <= p.x() && p.x() < 800 * SCALE);
        assert!(0 <= p.y() && p.y() < 600 * SCALE);
        assert!(p.x() % SCALE == 0 && p.y() % SCALE == 0);
        assert!(1 <= b.mass() && b.mass() < 10);
        let v = b.velocity();
        assert!(0 <= v.x() && v.x() < 3 * SCALE);
        assert!(0 <= v.y() && v.y() < 3 * SCALE);
    }
}

#[test]
fn randomized_batches_never_overlap() {
    let mut sim = Sim::start();
    for seed in 0..25u64 {
        if sim.randomize(800, 600, seed * 7919 + 1) {
            assert_eq!(sim.bodies.len(), 3);
            for i in 0..3 {
                for j in 0..3 {
                    if i != j {
                        assert!(!sim.bodies[i].overlaps(&sim.bodies[j]));
                    }
                }
            }
        } else {
            assert_eq!(sim.bodies.len(), 0);
        }
    }
}

#[test]
fn toggles_flip_exactly_one_switch() {
    let mut cfg = SimConfig::start();
    assert!(cfg.trails && cfg.show_help);
    assert!(!cfg.collision && !cfg.boundary_collision && !cfg.body_info);
    cfg.toggle(Command::ToggleCollision);
    assert!(cfg.collision && cfg.trails && cfg.show_help);
    cfg.toggle(Command::ToggleTrails);
    assert!(!cfg.trails && cfg.collision);
    cfg.toggle(Command::ToggleBoundary);
    assert!(cfg.boundary_collision);
    cfg.toggle(Command::ToggleBodyInfo);
    assert!(cfg.body_info);
    cfg.toggle(Command::ToggleHelp);
    assert!(!cfg.show_help);
    cfg.toggle(Command::Randomize);
    assert!(!cfg.trails && cfg.collision && cfg.boundary_collision && cfg.body_info
        && !cfg.show_help);
}

#[test]
fn tick_keeps_the_body_count_and_toggles() {
    let mut sim = Sim::start();
    sim.bodies.push(body_at(10 * SCALE, 10 * SCALE, 2 * SCALE, 0, 2, SCALE));
    sim.bodies.push(body_at(20 * SCALE, 10 * SCALE, -2 * SCALE, 0, 2, SCALE));
    sim.config.toggle(Command::ToggleCollision);
    sim.config.toggle(Command::ToggleBoundary);
    let cfg = sim.config;
    for _ in 0..50 {
        sim.tick(100 * SCALE, 100 * SCALE, 1, 10);
    }
    assert_eq!(sim.bodies.len(), 2);
    assert_eq!(sim.config, cfg);
}

#[test]
fn tick_moves_a_lone_body() {
    let mut sim = Sim::start();
    sim.bodies.push(body_at(0, 0, 10 * SCALE, 0, 1, SCALE));
    sim.tick(1000 * SCALE, 1000 * SCALE, 1, 10);
    assert_eq!(sim.bodies[0].position(), Vec2d::new(SCALE, 0));
}

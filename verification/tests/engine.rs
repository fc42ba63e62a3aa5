//! Exercises the particle engine end to end: trajectories under gravity,
//! deactivation, slot reuse, pool growth, boundary culling and spawn bursts.

use fallingballcolor::particle::Color;
use fallingballcolor::particle::GRAVITY;
use fallingballcolor::particle::Particle;
use fallingballcolor::particle::SCALE;
use fallingballcolor::pool::Bounds;
use fallingballcolor::pool::Pool;
use fallingballcolor::rng::RngProvider;
use fallingballcolor::sim::Sim;
use fallingballcolor::sim::BURST_SIZE;

fn some_color() -> Color {
    Color { red: 250, green: 500, blue: 750, alpha: SCALE }
}

fn wide_bounds() -> Bounds {
    Bounds { width: 1_000_000, height: 1_000_000 }
}

#[test]
fn trajectory_after_n_ticks() {
    // Ten ticks under gravity from velocity (300, -2000) and position
    // (10000, 5000), staying far inside the bounds throughout.
    let mut pool = Pool {
        items: vec![Particle::new(7_000, 10_000, 5_000, (300, -2_000), some_color())],
    };
    let bounds = wide_bounds();
    let n: i64 = 10;
    for _ in 0..n {
        pool.tick(GRAVITY, &bounds);
    }
    let p = pool.get(0);
    assert!(p.active);
    // velocity.y == vy0 + N * g
    assert_eq!(p.vy, -2_000 + n * GRAVITY);
    // velocity.x is untouched; position.x == x0 + N * vx0
    assert_eq!(p.vx, 300);
    assert_eq!(p.x, 10_000 + n * 300);
    // position.y == y0 + sum_{i=1..N} (vy0 + i * g)
    let mut drift: i64 = 0;
    for i in 1..=n {
        drift += -2_000 + i * GRAVITY;
    }
    assert_eq!(p.y, 5_000 + drift);
    assert_eq!(p.y, 5_000 - 20_000 + GRAVITY * (n * (n + 1) / 2));
}

#[test]
fn deactivate_twice_is_deactivate_once() {
    let mut p = Particle::new(6_000, 100, 200, (-300, 400), some_color());
    p.deactivate();
    let once = p;
    p.deactivate();
    assert_eq!(p, once);
}

#[test]
fn reuse_takes_lowest_inactive_slot_only() {
    let mut pool = Pool { items: Vec::new() };
    for i in 0..4 {
        pool.spawn_or_reuse(5_000 + i, 10, 20, (0, 0), some_color());
    }
    pool.items[1].deactivate();
    pool.items[3].deactivate();
    let before0 = pool.get(0);
    let before2 = pool.get(2);
    let before3 = pool.get(3);
    let idx = pool.spawn_or_reuse(9_000, 77, 88, (111, -222), some_color());
    // The lowest inactive slot wins; the pool does not grow.
    assert_eq!(idx, 1);
    assert_eq!(pool.len(), 4);
    let reused = pool.get(1);
    assert!(reused.active);
    assert_eq!(reused.radius, 9_000);
    assert_eq!(reused.x, 77);
    assert_eq!(reused.y, 88);
    assert_eq!(reused.vx, 111);
    assert_eq!(reused.vy, -222);
    // Every other slot is exactly as it was, the later inactive one included.
    assert_eq!(pool.get(0), before0);
    assert_eq!(pool.get(2), before2);
    assert_eq!(pool.get(3), before3);
}

#[test]
fn spawn_grows_pool_when_no_slot_is_inactive() {
    let mut pool = Pool { items: Vec::new() };
    pool.spawn_or_reuse(5_000, 1, 2, (3, 4), some_color());
    pool.spawn_or_reuse(6_000, 5, 6, (7, 8), some_color());
    let idx = pool.spawn_or_reuse(7_000, 9, 10, (11, 12), some_color());
    assert_eq!(idx, 2);
    assert_eq!(pool.len(), 3);
    let p = pool.get(2);
    assert!(p.active);
    assert_eq!(p.radius, 7_000);
    assert_eq!(p.x, 9);
    assert_eq!(p.y, 10);
    assert_eq!(p.vx, 11);
    assert_eq!(p.vy, 12);
}

#[test]
fn culling_is_strict_at_the_edges() {
    let b = Bounds { width: 100_000, height: 100_000 };
    // After advancement: one step past the right edge; exactly on the left
    // edge; exactly on the right edge; one step below the bottom; far above
    // the top (no upper edge).
    let past_right = Particle::new(5_000, 99_000, 50_000, (1_001, 0), some_color());
    let on_left = Particle::new(5_000, 1_000, 50_000, (-1_000, 0), some_color());
    let on_right = Particle::new(5_000, 99_000, 50_000, (1_000, 0), some_color());
    let below = Particle::new(5_000, 50_000, 99_000, (0, 1_001), some_color());
    let above = Particle::new(5_000, 50_000, -500_000, (0, 0), some_color());
    let mut pool = Pool { items: vec![past_right, on_left, on_right, below, above] };
    pool.tick(0, &b);
    assert!(!pool.get(0).active, "width + 1 must be culled");
    assert!(pool.get(1).active, "x == 0 exactly is not culled");
    assert!(pool.get(2).active, "x == width exactly is not culled");
    assert!(!pool.get(3).active, "height + 1 must be culled");
    assert!(pool.get(4).active, "there is no upper edge");
}

#[test]
fn culled_on_the_tick_it_crosses_not_at_spawn() {
    let b = Bounds { width: 100_000, height: 100_000 };
    let mut pool = Pool { items: Vec::new() };
    // Spawned already out of bounds: spawn runs no advance or cull, so the
    // particle stays active until the next tick.
    pool.spawn_or_reuse(5_000, 200_000, 50_000, (0, 0), some_color());
    assert!(pool.get(0).active);
    pool.tick(GRAVITY, &b);
    assert!(!pool.get(0).active);
}

#[test]
fn inactive_slots_are_left_untouched_by_tick() {
    let b = wide_bounds();
    let mut dormant = Particle::new(5_000, 1_000, 2_000, (300, 400), some_color());
    dormant.deactivate();
    let moving = Particle::new(5_000, 10_000, 10_000, (500, 0), some_color());
    let mut pool = Pool { items: vec![dormant, moving] };
    pool.tick(GRAVITY, &b);
    assert_eq!(pool.get(0), dormant);
    assert_eq!(pool.get(1).x, 10_500);
}

#[test]
fn active_particles_filters_and_keeps_order() {
    let mut a = Particle::new(5_000, 1, 0, (0, 0), some_color());
    let mut pool = Pool { items: Vec::new() };
    pool.items.push(a);
    a.x = 2;
    a.deactivate();
    pool.items.push(a);
    a.x = 3;
    a.active = true;
    pool.items.push(a);
    let active = pool.active_particles();
    assert_eq!(active.len(), 2);
    assert_eq!(active[0].x, 1);
    assert_eq!(active[1].x, 3);
}

#[test]
fn first_inactive_reports_the_lowest_slot() {
    let mut pool = Pool { items: Vec::new() };
    pool.spawn_or_reuse(5_000, 0, 0, (0, 0), some_color());
    pool.spawn_or_reuse(5_000, 0, 0, (0, 0), some_color());
    assert_eq!(pool.first_inactive(), None);
    pool.items[1].deactivate();
    pool.items[0].deactivate();
    assert_eq!(pool.first_inactive(), Some(0));
}

#[test]
fn burst_on_empty_pool_spawns_five_at_the_point() {
    let mut sim = Sim::new(Bounds { width: 800_000, height: 600_000 });
    assert_eq!(sim.pool.len(), 0);
    sim.spawn_burst(100_000, 100_000);
    assert_eq!(sim.pool.len(), BURST_SIZE);
    let mut before: Vec<Particle> = Vec::new();
    for i in 0..sim.pool.len() {
        let p = sim.pool.get(i);
        assert!(p.active);
        assert_eq!(p.x, 100_000);
        assert_eq!(p.y, 100_000);
        assert!(5 * SCALE <= p.radius && p.radius < 15 * SCALE);
        assert!(-5 * SCALE <= p.vx && p.vx < 5 * SCALE);
        assert!(-5 * SCALE <= p.vy && p.vy < 2 * SCALE);
        assert!(0 <= p.color.red && p.color.red < SCALE);
        assert!(0 <= p.color.green && p.color.green < SCALE);
        assert!(0 <= p.color.blue && p.color.blue < SCALE);
        assert_eq!(p.color.alpha, SCALE);
        before.push(p);
    }
    // One subsequent tick moves each by its current velocity and adds the
    // gravity to each vertical velocity.
    sim.tick();
    for i in 0..sim.pool.len() {
        let p = sim.pool.get(i);
        let q = before[i];
        assert!(p.active);
        assert_eq!(p.vy, q.vy + GRAVITY);
        assert_eq!(p.x, q.x + q.vx);
        assert_eq!(p.y, q.y + q.vy + GRAVITY);
    }
}

#[test]
fn spawn_reactivates_the_culled_slot_in_a_pool_of_three() {
    let b = Bounds { width: 100_000, height: 100_000 };
    let stay_a = Particle::new(5_000, 10_000, 10_000, (0, 0), some_color());
    let escape = Particle::new(5_000, 99_000, 10_000, (2_000, 0), some_color());
    let stay_b = Particle::new(5_000, 20_000, 20_000, (0, 0), some_color());
    let mut pool = Pool { items: vec![stay_a, escape, stay_b] };
    pool.tick(0, &b);
    assert!(!pool.get(1).active, "the escaping particle is culled");
    let idx = pool.spawn_or_reuse(8_000, 123, 456, (-789, 10), some_color());
    assert_eq!(idx, 1, "exactly the culled slot is reactivated");
    assert_eq!(pool.len(), 3, "the pool does not grow");
    assert!(pool.get(1).active);
    assert_eq!(pool.get(1).x, 123);
}

#[test]
fn burst_reuses_then_grows() {
    let mut sim = Sim::new(wide_bounds());
    sim.spawn_burst(50_000, 50_000);
    assert_eq!(sim.pool.len(), 5);
    sim.pool.items[2].deactivate();
    sim.pool.items[4].deactivate();
    // Two dormant slots are consumed first; three appends follow.
    sim.spawn_burst(60_000, 60_000);
    assert_eq!(sim.pool.len(), 8);
    for i in 0..sim.pool.len() {
        assert!(sim.pool.get(i).active);
    }
    assert_eq!(sim.pool.get(2).x, 60_000);
    assert_eq!(sim.pool.get(4).x, 60_000);
    assert_eq!(sim.pool.get(7).x, 60_000);
    assert_eq!(sim.pool.get(0).x, 50_000);
}

#[test]
fn malformed_bounds_are_ignored_on_resize_and_clamped_at_startup() {
    let mut sim = Sim::new(Bounds { width: 0, height: -7 });
    assert_eq!(sim.bounds, Bounds { width: 1, height: 1 });
    sim.on_bounds_changed(Bounds { width: 640_000, height: 480_000 });
    assert_eq!(sim.bounds, Bounds { width: 640_000, height: 480_000 });
    sim.on_bounds_changed(Bounds { width: -3, height: 100 });
    assert_eq!(sim.bounds, Bounds { width: 640_000, height: 480_000 });
    sim.on_bounds_changed(Bounds { width: 3, height: 0 });
    assert_eq!(sim.bounds, Bounds { width: 640_000, height: 480_000 });
}

#[test]
fn drawn_parameters_stay_in_their_ranges() {
    let mut rng = RngProvider::new();
    for _ in 0..200 {
        let c = rng.next_color();
        assert!(0 <= c.red && c.red < SCALE);
        assert!(0 <= c.green && c.green < SCALE);
        assert!(0 <= c.blue && c.blue < SCALE);
        assert_eq!(c.alpha, SCALE);
        let v = rng.next_velocity();
        assert!(-5 * SCALE <= v.0 && v.0 < 5 * SCALE);
        assert!(-5 * SCALE <= v.1 && v.1 < 2 * SCALE);
        let r = rng.next_radius();
        assert!(5 * SCALE <= r && r < 15 * SCALE);
    }
}

#[test]
fn reset_overwrites_every_field() {
    let mut p = Particle::new(5_000, 1, 2, (3, 4), some_color());
    p.deactivate();
    let c = Color { red: 1, green: 2, blue: 3, alpha: SCALE };
    p.reset(12_000, 70, 80, (90, -90), c);
    assert_eq!(
        p,
        Particle { radius: 12_000, x: 70, y: 80, vx: 90, vy: -90, color: c, active: true }
    );
}

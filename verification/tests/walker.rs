use walkers::walker::{turn_amount_of, wrap_coordinate_of};
use walkers::{Pixel, Segment, Vec2, Walker, UNIT};

fn quarter_turn(v: Vec2, _amount: i64) -> Vec2 {
    Vec2::new(-v.y, v.x)
}

fn record(_v: Vec2, amount: i64) -> Vec2 {
    Vec2::new(amount, 0)
}

/// Rotation by `amount` hundredths of a microradian, shortened to the lattice.
fn rotate(v: Vec2, amount: i64) -> Vec2 {
    let angle = amount as f64 * 1e-8;
    let (s, c) = angle.sin_cos();
    let x = v.x as f64 * c - v.y as f64 * s;
    let y = v.x as f64 * s + v.y as f64 * c;
    Vec2::new(x.trunc() as i64, y.trunc() as i64)
}

#[test]
fn new_walker_rests_where_it_stands() {
    let w = Walker::new(Vec2::new(3, -4), Vec2::new(0, UNIT));
    assert_eq!(w.position, Vec2::new(3, -4));
    assert_eq!(w.prev_position, Vec2::new(3, -4));
    assert_eq!(w.velocity, Vec2::new(0, UNIT));
    assert!(!w.dead);
}

#[test]
fn next_position_adds_velocity_times_speed() {
    let w = Walker::new(Vec2::new(10, -20), Vec2::new(3, -7));
    assert_eq!(w.next_position(5), Vec2::new(25, -55));
    assert_eq!(w.next_position(0), Vec2::new(10, -20));
    assert_eq!(w.next_position(-2), Vec2::new(4, -6));
}

#[test]
fn update_remembers_the_start() {
    let mut w = Walker::new(Vec2::new(10, -20), Vec2::new(3, -7));
    w.update(5);
    assert_eq!(w.prev_position, Vec2::new(10, -20));
    assert_eq!(w.position, Vec2::new(25, -55));
    assert_eq!(w.velocity, Vec2::new(3, -7));
    w.update(1);
    assert_eq!(w.prev_position, Vec2::new(25, -55));
    assert_eq!(w.position, Vec2::new(28, -62));
}

#[test]
fn update_at_the_far_corner_of_the_lattice() {
    let mut w = Walker::new(Vec2::new(i64::MAX - 6, i64::MIN + 6), Vec2::new(3, -3));
    w.update(2);
    assert_eq!(w.position, Vec2::new(i64::MAX, i64::MIN));
}

#[test]
fn turn_amount_spans_the_limit() {
    assert_eq!(turn_amount_of(1000, 0), -100_000);
    assert_eq!(turn_amount_of(1000, 50), 0);
    assert_eq!(turn_amount_of(1000, 75), 50_000);
    assert_eq!(turn_amount_of(1000, 99), 98_000);
    assert_eq!(turn_amount_of(-1000, 0), 100_000);
    assert_eq!(turn_amount_of(i32::MAX, 0), -100 * (i32::MAX as i64));
    assert_eq!(turn_amount_of(i32::MIN, 0), -100 * (i32::MIN as i64));
}

#[test]
fn turn_amount_never_exceeds_the_limit() {
    for limit in [0i32, 1, -1, 785_398, 1_047_198, i32::MAX, i32::MIN] {
        for roll in 0..100u32 {
            let amount = turn_amount_of(limit, roll);
            assert!(amount.abs() <= 100 * (limit as i64).abs());
        }
    }
}

#[test]
fn turn_by_hands_the_amount_to_the_rotation() {
    let mut w = Walker::new(Vec2::new(1, 2), Vec2::new(0, UNIT));
    w.turn_by(1_047_198, 25, &record);
    assert_eq!(w.velocity, Vec2::new(-52_359_900, 0));
    assert_eq!(w.position, Vec2::new(1, 2));
    assert_eq!(w.prev_position, Vec2::new(1, 2));
    assert!(!w.dead);
}

#[test]
fn turn_by_rotates_the_velocity_only() {
    let mut w = Walker::new(Vec2::new(5, 6), Vec2::new(UNIT, 0));
    w.update(1);
    w.turn_by(10, 3, &quarter_turn);
    assert_eq!(w.velocity, Vec2::new(0, UNIT));
    assert_eq!(w.position, Vec2::new(5 + UNIT, 6));
    assert_eq!(w.prev_position, Vec2::new(5, 6));
}

#[test]
fn turn_draws_amounts_within_the_limit() {
    let limit: i32 = 785_398;
    let mut seen = std::collections::BTreeSet::new();
    for _ in 0..2000 {
        let mut w = Walker::new(Vec2::new(0, 0), Vec2::new(0, UNIT));
        w.turn(limit, &record);
        let amount = w.velocity.x;
        assert!(amount >= -100 * limit as i64);
        assert!(amount <= 98 * limit as i64);
        assert_eq!(amount % (2 * limit as i64), 0);
        assert_eq!(w.velocity.y, 0);
        assert_eq!(w.position, Vec2::new(0, 0));
        seen.insert(amount);
    }
    assert!(seen.len() > 50);
}

#[test]
fn turn_with_a_true_rotation_stays_within_the_limit() {
    let limit: i32 = 1_047_198;
    for _ in 0..500 {
        let mut w = Walker::new(Vec2::new(0, 0), Vec2::new(UNIT, 0));
        w.turn(limit, &rotate);
        assert!(w.velocity.check_heading());
        let angle = (w.velocity.y as f64).atan2(w.velocity.x as f64);
        assert!(angle.abs() <= 1.0472);
    }
}

#[test]
fn wrap_coordinate_at_the_edges() {
    assert_eq!(wrap_coordinate_of(50, 100), -50);
    assert_eq!(wrap_coordinate_of(57, 100), -43);
    assert_eq!(wrap_coordinate_of(-50, 100), 50);
    assert_eq!(wrap_coordinate_of(-57, 100), 43);
    assert_eq!(wrap_coordinate_of(49, 100), 49);
    assert_eq!(wrap_coordinate_of(-49, 100), -49);
    assert_eq!(wrap_coordinate_of(0, 100), 0);
    assert_eq!(wrap_coordinate_of(50, 101), 50);
    assert_eq!(wrap_coordinate_of(51, 101), -50);
    assert_eq!(wrap_coordinate_of(-51, 101), 50);
    assert_eq!(wrap_coordinate_of(i64::MAX, 1), i64::MAX - 1);
    assert_eq!(wrap_coordinate_of(i64::MIN, i64::MAX), -1);
}

#[test]
fn wrap_right_edge() {
    let mut w = Walker::new(Vec2::new(440, 3), Vec2::new(UNIT, 0));
    w.position = Vec2::new(447, 3);
    w.wrap(889, 500);
    assert_eq!(w.position, Vec2::new(447 - 889, 3));
    assert_eq!(w.prev_position, w.position);
}

#[test]
fn wrap_left_edge() {
    let mut w = Walker::new(Vec2::new(-440, 3), Vec2::new(-UNIT, 0));
    w.position = Vec2::new(-447, 3);
    w.wrap(889, 500);
    assert_eq!(w.position, Vec2::new(-447 + 889, 3));
    assert_eq!(w.prev_position, w.position);
}

#[test]
fn wrap_top_edge() {
    let mut w = Walker::new(Vec2::new(7, 249), Vec2::new(0, UNIT));
    w.position = Vec2::new(7, 252);
    w.wrap(889, 500);
    assert_eq!(w.position, Vec2::new(7, -248));
    assert_eq!(w.prev_position, w.position);
}

#[test]
fn wrap_bottom_edge() {
    let mut w = Walker::new(Vec2::new(7, -249), Vec2::new(0, -UNIT));
    w.position = Vec2::new(7, -250);
    w.wrap(889, 500);
    assert_eq!(w.position, Vec2::new(7, 250));
    assert_eq!(w.prev_position, w.position);
}

#[test]
fn wrap_both_edges_at_once() {
    let mut w = Walker::new(Vec2::new(440, 249), Vec2::new(UNIT, 0));
    w.position = Vec2::new(445, -251);
    w.wrap(889, 500);
    assert_eq!(w.position, Vec2::new(445 - 889, 249));
    assert_eq!(w.prev_position, Vec2::new(445 - 889, 249));
}

#[test]
fn wrap_leaves_an_inner_walker_alone() {
    let mut w = Walker::new(Vec2::new(10, 20), Vec2::new(UNIT, 0));
    w.update(0);
    w.position = Vec2::new(11, 21);
    w.wrap(889, 500);
    assert_eq!(w.position, Vec2::new(11, 21));
    assert_eq!(w.prev_position, Vec2::new(10, 20));
}

#[test]
fn judge_kills_from_the_threshold_on() {
    let mut w = Walker::new(Vec2::new(0, 0), Vec2::new(0, UNIT));
    w.judge(Pixel { r: 149, g: 150, b: 255, a: 150 }, 150);
    assert!(!w.dead);
    w.judge(Pixel { r: 150, g: 150, b: 0, a: 150 }, 150);
    assert!(w.dead);
    w.judge(Pixel { r: 0, g: 0, b: 0, a: 0 }, 150);
    assert!(w.dead);
}

#[test]
fn judge_with_threshold_zero_always_kills() {
    let mut w = Walker::new(Vec2::new(0, 0), Vec2::new(0, UNIT));
    w.judge(Pixel { r: 0, g: 0, b: 0, a: 0 }, 0);
    assert!(w.dead);
}

#[test]
fn draw_spans_the_last_step() {
    let mut w = Walker::new(Vec2::new(0, 0), Vec2::new(0, UNIT));
    w.update(1);
    let before = w;
    let s = w.draw(3);
    assert_eq!(s, Segment { start: Vec2::new(0, 0), end: Vec2::new(0, UNIT), weight: 3, color: Pixel::white() });
    assert_eq!(w, before);
    assert_eq!(s.color, Pixel { r: 255, g: 255, b: 255, a: 255 });
}

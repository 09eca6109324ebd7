use ball_physics::ball::{Ball, RESTITUTION, SCATTER_SPEED};
use ball_physics::fixed::Fixed;

fn raw(v: i64) -> Fixed {
    Fixed::from_raw(v)
}

/// A ball of gravity 1, elasticity 0.98 and friction 0.8; the other
/// quantities in raw units.
fn ball(x: i64, y: i64, velocity_x: i64, velocity_y: i64, radius: i64, mass: i64) -> Ball {
    Ball::new(
        raw(x),
        raw(y),
        raw(velocity_x),
        raw(velocity_y),
        raw(radius),
        raw(mass),
        raw(1_000_000),
        raw(980_000),
        raw(800_000),
    )
}

fn magnitude(v: Fixed) -> i64 {
    v.raw().abs()
}

#[test]
fn constants_of_the_physics() {
    assert_eq!(RESTITUTION, 850_000);
    assert_eq!(SCATTER_SPEED, 10_000_000);
}

#[test]
fn new_keeps_the_nine_values() {
    let b = Ball::new(raw(1), raw(2), raw(3), raw(4), raw(5), raw(6), raw(7), raw(8), raw(9));
    assert_eq!(b.x, raw(1));
    assert_eq!(b.y, raw(2));
    assert_eq!(b.velocity_x, raw(3));
    assert_eq!(b.velocity_y, raw(4));
    assert_eq!(b.radius, raw(5));
    assert_eq!(b.mass, raw(6));
    assert_eq!(b.gravity, raw(7));
    assert_eq!(b.elasticity, raw(8));
    assert_eq!(b.friction, raw(9));
}

#[test]
fn new_accepts_degenerate_radius_and_mass() {
    let b = Ball::new(raw(0), raw(0), raw(0), raw(0), raw(0), raw(0), raw(0), raw(0), raw(0));
    assert_eq!(b.radius, raw(0));
    assert_eq!(b.mass, raw(0));
    let c = ball(0, 0, 0, 0, -1_000_000, -1_000_000);
    assert_eq!(c.radius, raw(-1_000_000));
    assert_eq!(c.mass, raw(-1_000_000));
}

#[test]
fn default_ball() {
    let b = Ball::default();
    assert_eq!(b.x, raw(0));
    assert_eq!(b.y, raw(0));
    assert_eq!(b.velocity_x, raw(0));
    assert_eq!(b.velocity_y, raw(0));
    assert_eq!(b.radius, Fixed::from_int(10));
    assert_eq!(b.mass, Fixed::from_int(1));
    assert_eq!(b.gravity, Fixed::from_int(1));
    assert_eq!(b.elasticity, raw(980_000));
    assert_eq!(b.friction, raw(800_000));
}

#[test]
fn step_moves_by_gravity_times_velocity_then_damps() {
    let mut b = Ball::new(
        Fixed::from_int(1),
        Fixed::from_int(2),
        Fixed::from_int(3),
        Fixed::from_int(-4),
        Fixed::from_int(10),
        Fixed::from_int(1),
        raw(500_000),
        raw(980_000),
        raw(800_000),
    );
    b.step();
    assert_eq!(b.x, raw(2_500_000));
    assert_eq!(b.y, raw(0));
    assert_eq!(b.velocity_x, raw(2_400_000));
    assert_eq!(b.velocity_y, raw(-3_200_000));
    b.step();
    assert_eq!(b.x, raw(3_700_000));
    assert_eq!(b.y, raw(-1_600_000));
    assert_eq!(b.velocity_x, raw(1_920_000));
    assert_eq!(b.velocity_y, raw(-2_560_000));
}

#[test]
fn step_keeps_the_material() {
    let mut b = ball(0, 0, 1_000_000, 1_000_000, 10_000_000, 2_000_000);
    b.step();
    assert_eq!(b.radius, raw(10_000_000));
    assert_eq!(b.mass, raw(2_000_000));
    assert_eq!(b.gravity, raw(1_000_000));
    assert_eq!(b.elasticity, raw(980_000));
    assert_eq!(b.friction, raw(800_000));
}

#[test]
fn step_uses_the_velocity_before_damping() {
    let mut b = Ball::new(raw(0), raw(0), Fixed::from_int(5), raw(0), raw(1), raw(1), Fixed::from_int(1), raw(0), raw(0));
    b.step();
    assert_eq!(b.x, Fixed::from_int(5));
    assert_eq!(b.velocity_x, raw(0));
}

#[test]
fn step_with_zero_gravity_leaves_the_position() {
    let mut b = Ball::new(raw(7), raw(8), Fixed::from_int(5), Fixed::from_int(5), raw(1), raw(1), raw(0), raw(0), raw(500_000));
    b.step();
    assert_eq!(b.x, raw(7));
    assert_eq!(b.y, raw(8));
    assert_eq!(b.velocity_x, raw(2_500_000));
}

#[test]
fn trajectory_is_reproducible() {
    let mut a = ball(12_345_678, -9_876_543, 7_300_000, -2_900_000, 10_000_000, 1_000_000);
    let mut b = ball(12_345_678, -9_876_543, 7_300_000, -2_900_000, 10_000_000, 1_000_000);
    for _ in 0..100 {
        a.step();
        b.step();
        assert_eq!(a, b);
    }
}

#[test]
fn velocity_decays_to_zero() {
    let mut b = ball(0, 0, 7_300_000, -2_900_000, 10_000_000, 1_000_000);
    for _ in 0..67 {
        let before_x = magnitude(b.velocity_x);
        let before_y = magnitude(b.velocity_y);
        b.step();
        assert!(magnitude(b.velocity_x) < before_x || before_x == 0);
        assert!(magnitude(b.velocity_y) < before_y || before_y == 0);
        assert!(b.velocity_x.raw() >= 0);
        assert!(b.velocity_y.raw() <= 0);
    }
    assert_eq!(b.velocity_x, raw(0));
    assert_eq!(b.velocity_y, raw(0));
}

#[test]
fn velocity_is_not_yet_zero_one_tick_earlier() {
    let mut b = ball(0, 0, 7_300_000, 0, 10_000_000, 1_000_000);
    for _ in 0..66 {
        b.step();
    }
    assert!(b.velocity_x.raw() > 0);
    b.step();
    assert_eq!(b.velocity_x, raw(0));
}

#[test]
fn zero_friction_stops_the_ball_in_one_tick() {
    let mut b = Ball::new(raw(0), raw(0), Fixed::from_int(9), Fixed::from_int(-9), raw(1), raw(1), raw(1_000_000), raw(0), raw(0));
    b.step();
    assert_eq!(b.velocity_x, raw(0));
    assert_eq!(b.velocity_y, raw(0));
    assert_eq!(b.x, Fixed::from_int(9));
    assert_eq!(b.y, Fixed::from_int(-9));
}

#[test]
fn left_border_puts_the_ball_tangent_and_turns_it() {
    let mut b = ball(-5_000_000, 50_000_000, -3_000_000, 1_000_000, 10_000_000, 1_000_000);
    b.manage_stage_border_collision(Fixed::from_int(200), Fixed::from_int(100));
    assert_eq!(b.x, Fixed::from_int(10));
    assert_eq!(b.velocity_x, raw(2_940_000));
    assert_eq!(b.y, Fixed::from_int(50));
    assert_eq!(b.velocity_y, raw(1_000_000));
}

#[test]
fn right_border_puts_the_ball_tangent_and_turns_it() {
    let mut b = ball(195_000_000, 50_000_000, 4_000_000, 0, 10_000_000, 1_000_000);
    b.manage_stage_border_collision(Fixed::from_int(200), Fixed::from_int(100));
    assert_eq!(b.x, Fixed::from_int(190));
    assert_eq!(b.velocity_x, raw(-3_920_000));
    assert_eq!(b.y, Fixed::from_int(50));
}

#[test]
fn top_border_puts_the_ball_tangent_and_turns_it() {
    let mut b = ball(50_000_000, 3_000_000, 1_000_000, -2_000_000, 10_000_000, 1_000_000);
    b.manage_stage_border_collision(Fixed::from_int(200), Fixed::from_int(100));
    assert_eq!(b.y, Fixed::from_int(10));
    assert_eq!(b.velocity_y, raw(1_960_000));
    assert_eq!(b.x, Fixed::from_int(50));
    assert_eq!(b.velocity_x, raw(1_000_000));
}

#[test]
fn bottom_border_puts_the_ball_tangent_and_turns_it() {
    let mut b = ball(50_000_000, 99_000_000, 0, 5_000_000, 10_000_000, 1_000_000);
    b.manage_stage_border_collision(Fixed::from_int(200), Fixed::from_int(100));
    assert_eq!(b.y, Fixed::from_int(90));
    assert_eq!(b.velocity_y, raw(-4_900_000));
}

#[test]
fn corner_turns_both_components() {
    let mut b = ball(-1_000_000, 101_000_000, -2_000_000, 2_000_000, 10_000_000, 1_000_000);
    b.manage_stage_border_collision(Fixed::from_int(200), Fixed::from_int(100));
    assert_eq!(b.x, Fixed::from_int(10));
    assert_eq!(b.y, Fixed::from_int(90));
    assert_eq!(b.velocity_x, raw(1_960_000));
    assert_eq!(b.velocity_y, raw(-1_960_000));
}

#[test]
fn ball_inside_the_stage_is_left_alone() {
    let mut b = ball(100_000_000, 50_000_000, -3_000_000, 4_000_000, 10_000_000, 1_000_000);
    let before = b;
    b.manage_stage_border_collision(Fixed::from_int(200), Fixed::from_int(100));
    assert_eq!(b, before);
}

#[test]
fn tangent_ball_is_left_alone() {
    let mut b = ball(10_000_000, 90_000_000, -3_000_000, 4_000_000, 10_000_000, 1_000_000);
    let before = b;
    b.manage_stage_border_collision(Fixed::from_int(200), Fixed::from_int(100));
    assert_eq!(b, before);
    let mut c = ball(190_000_000, 10_000_000, 3_000_000, -4_000_000, 10_000_000, 1_000_000);
    let before = c;
    c.manage_stage_border_collision(Fixed::from_int(200), Fixed::from_int(100));
    assert_eq!(c, before);
}

#[test]
fn ball_one_unit_over_a_border_bounces() {
    let mut b = ball(9_999_999, 50_000_000, -1_000_000, 0, 10_000_000, 1_000_000);
    b.manage_stage_border_collision(Fixed::from_int(200), Fixed::from_int(100));
    assert_eq!(b.x, Fixed::from_int(10));
    assert_eq!(b.velocity_x, raw(980_000));
    let mut c = ball(190_000_001, 50_000_000, 1_000_000, 0, 10_000_000, 1_000_000);
    c.manage_stage_border_collision(Fixed::from_int(200), Fixed::from_int(100));
    assert_eq!(c.x, Fixed::from_int(190));
    assert_eq!(c.velocity_x, raw(-980_000));
}

#[test]
fn bounce_turns_a_ball_even_when_it_moves_inward() {
    let mut b = ball(-5_000_000, 50_000_000, 3_000_000, 0, 10_000_000, 1_000_000);
    b.manage_stage_border_collision(Fixed::from_int(200), Fixed::from_int(100));
    assert_eq!(b.x, Fixed::from_int(10));
    assert_eq!(b.velocity_x, raw(-2_940_000));
}

#[test]
fn ball_wider_than_the_stage_bounces_off_both_borders() {
    let mut b = ball(2_000_000, 50_000_000, 1_000_000, 0, 8_000_000, 1_000_000);
    b.manage_stage_border_collision(Fixed::from_int(10), Fixed::from_int(100));
    // left border first: x = 8, velocity -0.98; then right border: x = 2, velocity 0.9604
    assert_eq!(b.x, Fixed::from_int(2));
    assert_eq!(b.velocity_x, raw(960_400));
}

#[test]
fn fast_ball_passes_a_border_unseen_until_the_next_check() {
    let mut b = ball(100_000_000, 50_000_000, 500_000_000, 0, 10_000_000, 1_000_000);
    b.step();
    assert_eq!(b.x, Fixed::from_int(600));
    b.manage_stage_border_collision(Fixed::from_int(200), Fixed::from_int(100));
    assert_eq!(b.x, Fixed::from_int(190));
    assert_eq!(b.velocity_x, raw(-392_000_000));
}

#[test]
fn bounce_contains_balls_from_anywhere() {
    let width = Fixed::from_int(200);
    let height = Fixed::from_int(100);
    let places: [i64; 7] = [-1_000_000_000, -5_000_000, 0, 55_500_000, 99_999_999, 200_000_000, 1_000_000_000];
    for &x in places.iter() {
        for &y in places.iter() {
            let mut b = ball(x, y, 3_000_000, -3_000_000, 10_000_000, 1_000_000);
            b.manage_stage_border_collision(width, height);
            assert!(b.x.raw() >= 10_000_000 && b.x.raw() <= 190_000_000);
            assert!(b.y.raw() >= 10_000_000 && b.y.raw() <= 90_000_000);
        }
    }
}

#[test]
fn collision_of_overlapping_balls() {
    let a = ball(0, 0, 0, 0, 1_000_000, 1_000_000);
    let b = ball(1_000_000, 0, 0, 0, 1_000_000, 1_000_000);
    assert!(a.check_ball_collision(&b));
    assert!(a.check_ball_collision(&a));
}

#[test]
fn collision_of_distant_balls() {
    let a = ball(0, 0, 0, 0, 1_000_000, 1_000_000);
    let b = ball(5_000_000, 5_000_000, 0, 0, 1_000_000, 1_000_000);
    assert!(!a.check_ball_collision(&b));
}

#[test]
fn collision_is_symmetric() {
    let places: [(i64, i64, i64); 6] = [
        (0, 0, 1_000_000),
        (2_000_000, 0, 1_000_000),
        (2_000_001, 0, 1_000_000),
        (3_000_000, 4_000_000, 2_000_000),
        (-7_000_000, 1_500_000, 500_000),
        (-1_000_000_000_000_000_000, 1_000_000_000_000_000_000, 1_000_000_000_000_000_000),
    ];
    for &(x1, y1, r1) in places.iter() {
        for &(x2, y2, r2) in places.iter() {
            let a = ball(x1, y1, 0, 0, r1, 1_000_000);
            let b = ball(x2, y2, 0, 0, r2, 1_000_000);
            assert_eq!(a.check_ball_collision(&b), b.check_ball_collision(&a));
        }
    }
}

#[test]
fn touching_balls_collide() {
    let a = ball(0, 0, 0, 0, 1_000_000, 1_000_000);
    let b = ball(2_000_000, 0, 0, 0, 1_000_000, 1_000_000);
    assert!(a.check_ball_collision(&b));
    let c = ball(0, 0, 0, 0, 2_000_000, 1_000_000);
    let d = ball(3_000_000, 4_000_000, 0, 0, 3_000_000, 1_000_000);
    assert!(c.check_ball_collision(&d));
}

#[test]
fn balls_a_hair_apart_do_not_collide() {
    let a = ball(0, 0, 0, 0, 1_000_000, 1_000_000);
    let b = ball(2_000_001, 0, 0, 0, 1_000_000, 1_000_000);
    assert!(!a.check_ball_collision(&b));
    let c = ball(0, 0, 0, 0, 2_000_000, 1_000_000);
    let d = ball(3_000_000, 4_000_000, 0, 0, 2_999_999, 1_000_000);
    assert!(!c.check_ball_collision(&d));
}

#[test]
fn collision_at_the_ends_of_the_range() {
    let far = 1_000_000_000_000_000_000;
    let a = ball(-far, -far, 0, 0, 1, 1_000_000);
    let b = ball(far, far, 0, 0, 1, 1_000_000);
    assert!(!a.check_ball_collision(&b));
    let c = ball(-far, 0, 0, 0, far, 1_000_000);
    let d = ball(far, 0, 0, 0, far, 1_000_000);
    assert!(c.check_ball_collision(&d));
}

#[test]
fn check_does_not_change_the_balls() {
    let a = ball(0, 0, 1_000_000, 2_000_000, 1_000_000, 1_000_000);
    let b = ball(1_000_000, 0, -1_000_000, 0, 1_000_000, 1_000_000);
    let _ = a.check_ball_collision(&b);
    assert_eq!(a, ball(0, 0, 1_000_000, 2_000_000, 1_000_000, 1_000_000));
    assert_eq!(b, ball(1_000_000, 0, -1_000_000, 0, 1_000_000, 1_000_000));
}

#[test]
fn balls_moving_apart_keep_their_velocities() {
    let mut a = ball(0, 0, -1_000_000, 0, 1_000_000, 1_000_000);
    let mut b = ball(1_000_000, 0, 1_000_000, 0, 1_000_000, 1_000_000);
    assert!(a.check_ball_collision(&b));
    assert!(a.can_resolve_collision(&b));
    a.resolve_ball_collision(&mut b);
    assert_eq!(a, ball(0, 0, -1_000_000, 0, 1_000_000, 1_000_000));
    assert_eq!(b, ball(1_000_000, 0, 1_000_000, 0, 1_000_000, 1_000_000));
}

#[test]
fn head_on_collision_of_equal_masses() {
    let mut a = ball(0, 0, 1_000_000, 0, 1_000_000, 1_000_000);
    let mut b = ball(1_000_000, 0, -1_000_000, 0, 1_000_000, 1_000_000);
    assert!(a.can_resolve_collision(&b));
    a.resolve_ball_collision(&mut b);
    // impulse 1.85 along the normal (-1, 0); (1 - 1.85) * 0.98 and (-1 + 1.85) * 0.98
    assert_eq!(a.velocity_x, raw(-833_000));
    assert_eq!(a.velocity_y, raw(0));
    assert_eq!(b.velocity_x, raw(833_000));
    assert_eq!(b.velocity_y, raw(0));
}

#[test]
fn collision_leaves_positions_and_material() {
    let mut a = ball(0, 0, 1_000_000, 0, 1_000_000, 1_000_000);
    let mut b = ball(1_000_000, 0, -1_000_000, 0, 1_000_000, 3_000_000);
    a.resolve_ball_collision(&mut b);
    assert_eq!(a.x, raw(0));
    assert_eq!(a.y, raw(0));
    assert_eq!(b.x, raw(1_000_000));
    assert_eq!(b.y, raw(0));
    assert_eq!(a.radius, raw(1_000_000));
    assert_eq!(b.radius, raw(1_000_000));
    assert_eq!(a.mass, raw(1_000_000));
    assert_eq!(b.mass, raw(3_000_000));
    assert!(a.check_ball_collision(&b));
}

#[test]
fn head_on_collision_of_unequal_masses() {
    let mut a = ball(0, 0, 1_000_000, 0, 1_000_000, 1_000_000);
    let mut b = ball(1_000_000, 0, -1_000_000, 0, 1_000_000, 3_000_000);
    a.resolve_ball_collision(&mut b);
    // impulse 3.7 / (1 + 1/3) = 2.775; (1 - 2.775) * 0.98 and (-1 + 2.775 / 3) * 0.98
    assert_eq!(a.velocity_x, raw(-1_739_500));
    assert_eq!(b.velocity_x, raw(-73_500));
}

#[test]
fn collision_damps_both_balls_by_the_elasticity_of_the_first() {
    let mut a = ball(0, 0, 1_000_000, 0, 1_000_000, 1_000_000);
    let mut b = ball(1_000_000, 0, -1_000_000, 0, 1_000_000, 1_000_000);
    b.elasticity = raw(500_000);
    a.resolve_ball_collision(&mut b);
    assert_eq!(a.velocity_x, raw(-833_000));
    assert_eq!(b.velocity_x, raw(833_000));

    let mut c = ball(0, 0, 1_000_000, 0, 1_000_000, 1_000_000);
    let mut d = ball(1_000_000, 0, -1_000_000, 0, 1_000_000, 1_000_000);
    c.elasticity = raw(500_000);
    c.resolve_ball_collision(&mut d);
    assert_eq!(c.velocity_x, raw(-425_000));
    assert_eq!(d.velocity_x, raw(425_000));
}

#[test]
fn oblique_collision() {
    let mut a = Ball::new(
        raw(0),
        raw(0),
        raw(2_000_000),
        raw(1_000_000),
        raw(2_000_000),
        raw(2_000_000),
        raw(1_000_000),
        raw(900_000),
        raw(800_000),
    );
    let mut b = ball(3_000_000, 1_000_000, -1_000_000, -500_000, 2_000_000, 1_000_000);
    assert!(a.can_resolve_collision(&b));
    a.resolve_ball_collision(&mut b);
    // normal speed -3.320391...; the changes are (-1.9425, -0.6475) and (-3.885, -1.295)
    assert_eq!(a.velocity_x, raw(51_750));
    assert_eq!(a.velocity_y, raw(317_250));
    assert_eq!(b.velocity_x, raw(2_596_500));
    assert_eq!(b.velocity_y, raw(715_500));
}

#[test]
fn coincident_centres_cannot_be_resolved() {
    let a = ball(5_000_000, 5_000_000, 1_000_000, 0, 1_000_000, 1_000_000);
    let b = ball(5_000_000, 5_000_000, -1_000_000, 0, 1_000_000, 1_000_000);
    assert!(!a.can_resolve_collision(&b));
}

#[test]
fn zero_mass_cannot_be_resolved() {
    let a = ball(0, 0, 1_000_000, 0, 1_000_000, 0);
    let b = ball(1_000_000, 0, -1_000_000, 0, 1_000_000, 1_000_000);
    assert!(!a.can_resolve_collision(&b));
    assert!(!b.can_resolve_collision(&a));
}

#[test]
fn masses_that_cancel_cannot_be_resolved() {
    let a = ball(0, 0, 1_000_000, 0, 1_000_000, 1_000_000);
    let b = ball(1_000_000, 0, -1_000_000, 0, 1_000_000, -1_000_000);
    assert!(!a.can_resolve_collision(&b));
    assert!(!b.can_resolve_collision(&a));
}

#[test]
fn distinct_centres_and_positive_masses_can_be_resolved() {
    let a = ball(0, 0, 1_000_000, 0, 1_000_000, 1_000_000);
    assert!(a.can_resolve_collision(&ball(1, 0, 0, 0, 1_000_000, 1_000_000)));
    assert!(a.can_resolve_collision(&ball(0, -1, 0, 0, 1_000_000, 1)));
    assert!(a.can_resolve_collision(&ball(2_000_000, 0, 0, 0, 1_000_000, 1_000_000_000_000_000_000)));
    assert!(a.can_resolve_collision(&ball(500_000_000, 0, 0, 0, 1_000_000, 1_000_000)));
}

/// A ball of elasticity 1.
fn elastic(x: i64, y: i64, velocity_x: i64, velocity_y: i64, radius: i64, mass: i64) -> Ball {
    let mut b = ball(x, y, velocity_x, velocity_y, radius, mass);
    b.elasticity = raw(1_000_000);
    b
}

#[test]
fn light_ball_runs_into_a_heavy_ball_at_rest() {
    let mut a = elastic(0, 0, 2_000_000, 0, 1_000_000, 1_000_000);
    let mut b = elastic(1_000_000, 0, 0, 0, 1_000_000, 3_000_000);
    assert!(a.can_resolve_collision(&b));
    a.resolve_ball_collision(&mut b);
    // impulse 1.85 * 2 / (1 + 1/3) = 2.775; 2 - 2.775 and 2.775 / 3
    assert_eq!(a.velocity_x, raw(-775_000));
    assert_eq!(b.velocity_x, raw(925_000));
    assert_eq!(a.velocity_y, raw(0));
    assert_eq!(b.velocity_y, raw(0));
}

#[test]
fn heavy_ball_runs_into_a_light_ball_at_rest() {
    let mut a = elastic(0, 0, 2_000_000, 0, 1_000_000, 3_000_000);
    let mut b = elastic(1_000_000, 0, 0, 0, 1_000_000, 1_000_000);
    a.resolve_ball_collision(&mut b);
    assert_eq!(a.velocity_x, raw(1_075_000));
    assert_eq!(b.velocity_x, raw(2_775_000));
}

#[test]
fn balls_that_part_slowly_keep_their_velocities() {
    let mut a = ball(300_000, 400_000, 5_000_001, 3_000_000, 1_000_000, 1_000_000);
    a.elasticity = raw(500_000);
    let mut b = ball(0, 0, 5_000_000, 3_000_000, 1_000_000, 1_000_000);
    let (before_a, before_b) = (a, b);
    assert!(a.check_ball_collision(&b));
    a.resolve_ball_collision(&mut b);
    // the normal speed is 0.000001 * 0.6, less than one unit of the last digit
    assert_eq!(a, before_a);
    assert_eq!(b, before_b);
}

#[test]
fn balls_that_approach_slowly_are_damped() {
    let mut a = ball(300_000, 400_000, 4_999_999, 3_000_000, 1_000_000, 1_000_000);
    a.elasticity = raw(500_000);
    let mut b = ball(0, 0, 5_000_000, 3_000_000, 1_000_000, 1_000_000);
    a.resolve_ball_collision(&mut b);
    // the changes are a third and four ninths of a millionth: the first ball
    // gains them, the second loses them, and each result is halved and then
    // rounded toward zero
    assert_eq!(a.velocity_x, raw(2_499_999));
    assert_eq!(a.velocity_y, raw(1_500_000));
    assert_eq!(b.velocity_x, raw(2_499_999));
    assert_eq!(b.velocity_y, raw(1_499_999));
}

#[test]
fn balls_without_relative_motion_along_the_normal_are_damped() {
    let mut a = ball(0, 0, 0, 1_000_000, 1_000_000, 1_000_000);
    a.elasticity = raw(500_000);
    let mut b = ball(1_000_000, 0, 0, 3_000_000, 1_000_000, 1_000_000);
    a.resolve_ball_collision(&mut b);
    assert_eq!(a.velocity_x, raw(0));
    assert_eq!(a.velocity_y, raw(500_000));
    assert_eq!(b.velocity_x, raw(0));
    assert_eq!(b.velocity_y, raw(1_500_000));
}

#[test]
fn balls_that_only_touch_get_an_impulse() {
    let mut a = elastic(0, 0, 1_000_000, 0, 1_000_000, 1_000_000);
    let mut b = elastic(2_000_000, 0, -1_000_000, 0, 1_000_000, 1_000_000);
    assert!(a.check_ball_collision(&b));
    assert!(a.can_resolve_collision(&b));
    a.resolve_ball_collision(&mut b);
    assert_eq!(a.velocity_x, raw(-850_000));
    assert_eq!(b.velocity_x, raw(850_000));
    assert_eq!(a.velocity_y, raw(0));
    assert_eq!(b.velocity_y, raw(0));
}

#[test]
fn balls_that_touch_and_part_keep_their_velocities() {
    let mut a = elastic(0, 0, -1_000_000, 0, 1_000_000, 1_000_000);
    let mut b = elastic(2_000_000, 0, 1_000_000, 0, 1_000_000, 1_000_000);
    a.resolve_ball_collision(&mut b);
    assert_eq!(a.velocity_x, raw(-1_000_000));
    assert_eq!(b.velocity_x, raw(1_000_000));
}

#[test]
fn balls_that_barely_overlap_get_an_impulse() {
    let mut a = elastic(0, 0, 1_000_000, 0, 1_000_000, 1_000_000);
    let mut b = elastic(1_999_999, 0, -1_000_000, 0, 1_000_000, 1_000_000);
    assert!(a.can_resolve_collision(&b));
    a.resolve_ball_collision(&mut b);
    assert_eq!(a.velocity_x, raw(-850_000));
    assert_eq!(b.velocity_x, raw(850_000));
}

#[test]
fn very_heavy_balls_get_an_impulse() {
    let mut a = elastic(0, 0, 1_000_000, 0, 1_000_000, 2_000_000_000_000);
    let mut b = elastic(1_000_000, 0, -1_000_000, 0, 1_000_000, 2_000_000_000_000);
    assert!(a.can_resolve_collision(&b));
    a.resolve_ball_collision(&mut b);
    assert_eq!(a.velocity_x, raw(-850_000));
    assert_eq!(b.velocity_x, raw(850_000));

    let heaviest = 1_000_000_000_000_000_000;
    let mut c = ball(0, 0, 1_000_000, 0, 1_000_000, heaviest);
    let mut d = ball(1_000_000, 0, -1_000_000, 0, 1_000_000, heaviest);
    c.resolve_ball_collision(&mut d);
    assert_eq!(c.velocity_x, raw(-833_000));
    assert_eq!(d.velocity_x, raw(833_000));
}

#[test]
fn balls_apart_take_the_normal_the_other_way() {
    // the discs do not overlap: centres that part count as approaching
    let mut a = elastic(0, 0, -1_000_000, 0, 1_000_000, 1_000_000);
    let mut b = elastic(5_000_000, 0, 1_000_000, 0, 1_000_000, 1_000_000);
    assert!(!a.check_ball_collision(&b));
    a.resolve_ball_collision(&mut b);
    assert_eq!(a.velocity_x, raw(850_000));
    assert_eq!(b.velocity_x, raw(-850_000));

    let mut c = elastic(0, 0, 1_000_000, 0, 1_000_000, 1_000_000);
    let mut d = elastic(5_000_000, 0, -1_000_000, 0, 1_000_000, 1_000_000);
    c.resolve_ball_collision(&mut d);
    assert_eq!(c.velocity_x, raw(1_000_000));
    assert_eq!(d.velocity_x, raw(-1_000_000));
}

#[test]
fn collision_saturates_a_change_beyond_the_range() {
    let most = 1_000_000_000_000_000_000;
    let mut a = elastic(0, 0, most, 0, 1_000_000, 1);
    let mut b = elastic(1, 0, -most, 0, 1_000_000, most);
    a.resolve_ball_collision(&mut b);
    // the light ball would come out with about -2.7e12, which is held at
    // -1e12; the heavy ball gains 3.7 / (1 + 1e-18) millionths, and the
    // result is rounded toward zero
    assert_eq!(a.velocity_x, raw(-most));
    assert_eq!(b.velocity_x, raw(-most + 4));
}

#[test]
fn collision_rounds_each_velocity_once() {
    let mut a = ball(0, 0, 2_000_000, 0, 1_000_000, 100_000_000);
    a.elasticity = raw(300_000);
    let mut b = ball(1_000_000, 0, 0, 0, 1_000_000, 11_000_000);
    a.resolve_ball_collision(&mut b);
    // the changes are -3.7 * 11 / 111 and 3.7 * 100 / 111 = 10 / 3, which have
    // no decimal form; (2 - 0.3666...) * 0.3 = 0.49 and (10 / 3) * 0.3 = 1
    assert_eq!(a.velocity_x, raw(490_000));
    assert_eq!(b.velocity_x, raw(1_000_000));
}

#[test]
fn collision_keeps_momentum_where_nothing_is_rounded() {
    let mut a = elastic(0, 0, 2_000_000, 1_000_000, 2_000_000, 2_000_000);
    let mut b = elastic(3_000_000, 4_000_000, -1_000_000, -3_000_000, 4_000_000, 6_000_000);
    let before_x = 2 * a.velocity_x.raw() + 6 * b.velocity_x.raw();
    let before_y = 2 * a.velocity_y.raw() + 6 * b.velocity_y.raw();
    a.resolve_ball_collision(&mut b);
    // closing speed: (3, 4) . (-3, -4) = -25 over a squared distance of 25
    assert_eq!(a.velocity_x, raw(-2_162_500));
    assert_eq!(a.velocity_y, raw(-4_550_000));
    assert_eq!(b.velocity_x, raw(387_500));
    assert_eq!(b.velocity_y, raw(-1_150_000));
    assert_eq!(2 * a.velocity_x.raw() + 6 * b.velocity_x.raw(), before_x);
    assert_eq!(2 * a.velocity_y.raw() + 6 * b.velocity_y.raw(), before_y);
}

#[test]
fn scatter_places_the_ball_by_its_draws() {
    let mut b = ball(1, 2, 3, 4, 10_000_000, 1_000_000);
    b.set_random_position_and_speed_in_bounds(
        Fixed::from_int(800),
        Fixed::from_int(600),
        raw(500_000),
        raw(250_000),
        raw(100_000),
        raw(999_999),
    );
    assert_eq!(b.x, Fixed::from_int(400));
    assert_eq!(b.y, Fixed::from_int(150));
    assert_eq!(b.velocity_x, Fixed::from_int(1));
    assert_eq!(b.velocity_y, raw(9_999_990));
    assert_eq!(b.radius, raw(10_000_000));
    assert_eq!(b.mass, raw(1_000_000));
}

#[test]
fn scatter_is_reproducible() {
    let mut a = ball(0, 0, 0, 0, 10_000_000, 1_000_000);
    let mut b = ball(9, 9, 9, 9, 10_000_000, 1_000_000);
    a.set_random_position_and_speed_in_bounds(Fixed::from_int(800), Fixed::from_int(600), raw(123_456), raw(654_321), raw(1), raw(0));
    b.set_random_position_and_speed_in_bounds(Fixed::from_int(800), Fixed::from_int(600), raw(123_456), raw(654_321), raw(1), raw(0));
    assert_eq!(a, b);
    assert_eq!(a.x, raw(98_764_800));
    assert_eq!(a.y, raw(392_592_600));
    assert_eq!(a.velocity_x, raw(10));
    assert_eq!(a.velocity_y, raw(0));
}

#[test]
fn scatter_does_not_keep_the_disc_off_the_border() {
    let mut b = ball(0, 0, 0, 0, 10_000_000, 1_000_000);
    b.set_random_position_and_speed_in_bounds(Fixed::from_int(800), Fixed::from_int(600), raw(0), raw(999_999), raw(0), raw(0));
    assert_eq!(b.x, raw(0));
    assert_eq!(b.y, raw(599_999_400));
}

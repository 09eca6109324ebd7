//! What holds of the motion of a ball whatever its state: the laws that the
//! contracts of [`crate::ball`] and [`crate::ball_collection`] imply.

use crate::ball::{bounce_axis, BallModel, RESTITUTION, SCATTER_SPEED};
use crate::ball_collection::after_frame;
use crate::fixed::{
    difference, lemma_product_shrinks, magnitude, negation, product, quotient, representable,
    SCALE,
};
use vstd::prelude::*;

verus! {

/// The trajectory of a ball is a function of its initial position and
/// velocity, its gravity and its friction alone: balls that agree on these
/// agree on them after any number of ticks, whatever their radius, mass and
/// elasticity.
pub proof fn lemma_trajectory_determined(a: BallModel, b: BallModel, ticks: nat)
    requires
        a.x == b.x,
        a.y == b.y,
        a.velocity_x == b.velocity_x,
        a.velocity_y == b.velocity_y,
        a.gravity == b.gravity,
        a.friction == b.friction,
    ensures
        a.after_steps(ticks).x == b.after_steps(ticks).x,
        a.after_steps(ticks).y == b.after_steps(ticks).y,
        a.after_steps(ticks).velocity_x == b.after_steps(ticks).velocity_x,
        a.after_steps(ticks).velocity_y == b.after_steps(ticks).velocity_y,
        a.after_steps(ticks).gravity == b.after_steps(ticks).gravity,
        a.after_steps(ticks).friction == b.after_steps(ticks).friction,
    decreases ticks,
{
    if ticks > 0 {
        lemma_trajectory_determined(a, b, (ticks - 1) as nat);
    }
}

/// No operation changes the material of a ball: its radius, mass, gravity,
/// elasticity and friction stay as they were made.
pub proof fn lemma_material_kept(
    ball: BallModel,
    other: BallModel,
    stage_width: int,
    stage_height: int,
    draw_x: int,
    draw_y: int,
    draw_velocity_x: int,
    draw_velocity_y: int,
    ticks: nat,
)
    ensures
        ball.step().material() == ball.material(),
        ball.after_steps(ticks).material() == ball.material(),
        ball.bounce(stage_width, stage_height).material() == ball.material(),
        ball.resolve(other).0.material() == ball.material(),
        ball.resolve(other).1.material() == other.material(),
        ball.scattered(
            stage_width,
            stage_height,
            draw_x,
            draw_y,
            draw_velocity_x,
            draw_velocity_y,
        ).material() == ball.material(),
    decreases ticks,
{
    if ticks > 0 {
        lemma_material_kept(
            ball,
            other,
            stage_width,
            stage_height,
            draw_x,
            draw_y,
            draw_velocity_x,
            draw_velocity_y,
            (ticks - 1) as nat,
        );
    }
}

/// With a friction in `[0, 1)` one tick brings each velocity component nearer
/// to zero, strictly so unless it is zero, and so the squared speed too.
pub proof fn lemma_step_slows(ball: BallModel)
    requires
        0 <= ball.friction < SCALE,
    ensures
        magnitude(ball.step().velocity_x) <= magnitude(ball.velocity_x),
        magnitude(ball.step().velocity_y) <= magnitude(ball.velocity_y),
        ball.velocity_x != 0 ==> magnitude(ball.step().velocity_x) < magnitude(ball.velocity_x),
        ball.velocity_y != 0 ==> magnitude(ball.step().velocity_y) < magnitude(ball.velocity_y),
        ball.step().speed_squared() <= ball.speed_squared(),
        ball.speed_squared() != 0 ==> ball.step().speed_squared() < ball.speed_squared(),
        ball.step().friction == ball.friction,
{
    lemma_product_shrinks(ball.friction, ball.velocity_x);
    lemma_product_shrinks(ball.friction, ball.velocity_y);
    lemma_square_ordered(ball.step().velocity_x, ball.velocity_x);
    lemma_square_ordered(ball.step().velocity_y, ball.velocity_y);
}

/// Squares are ordered as magnitudes are.
proof fn lemma_square_ordered(a: int, b: int)
    requires
        magnitude(a) <= magnitude(b),
    ensures
        a * a <= b * b,
        magnitude(a) < magnitude(b) ==> a * a < b * b,
        b * b == 0 <==> b == 0,
{
    assert(a * a <= b * b && (magnitude(a) < magnitude(b) ==> a * a < b * b) && (b * b == 0 <==> b
        == 0)) by (nonlinear_arith)
        requires
            magnitude(a) <= magnitude(b),
    ;
}

/// With a friction in `[0, 1)` the velocity of a ball that only moves decays
/// to zero: after `ticks` ticks each component has lost at least `ticks` raw
/// units of its magnitude, or is zero, and the squared speed never grows from
/// one tick to the next.
pub proof fn lemma_velocity_decays(ball: BallModel, ticks: nat)
    requires
        0 <= ball.friction < SCALE,
    ensures
        ball.after_steps(ticks).friction == ball.friction,
        magnitude(ball.after_steps(ticks).velocity_x) <= magnitude(ball.velocity_x) - ticks
            || ball.after_steps(ticks).velocity_x == 0,
        magnitude(ball.after_steps(ticks).velocity_y) <= magnitude(ball.velocity_y) - ticks
            || ball.after_steps(ticks).velocity_y == 0,
        ball.after_steps(ticks + 1).speed_squared() <= ball.after_steps(ticks).speed_squared(),
        ball.after_steps(ticks).speed_squared() <= ball.speed_squared(),
    decreases ticks,
{
    if ticks > 0 {
        lemma_velocity_decays(ball, (ticks - 1) as nat);
        lemma_step_slows(ball.after_steps((ticks - 1) as nat));
    }
    lemma_step_slows(ball.after_steps(ticks));
}

/// A coordinate that has bounced lies between the two borders by at least the
/// radius, where the disc is narrower than the stage.
pub proof fn lemma_bounce_axis_contains(
    position: int,
    velocity: int,
    radius: int,
    elasticity: int,
    extent: int,
)
    requires
        representable(radius),
        2 * radius < extent,
    ensures
        radius <= bounce_axis(position, velocity, radius, elasticity, extent).0 <= extent - radius,
{
}

/// After the bounce a ball whose radius is less than half of each extent of
/// the stage lies within the stage.
pub proof fn lemma_bounce_contains(ball: BallModel, stage_width: int, stage_height: int)
    requires
        representable(ball.radius),
        2 * ball.radius < stage_width,
        2 * ball.radius < stage_height,
    ensures
        ball.bounce(stage_width, stage_height).contained(stage_width, stage_height),
{
    lemma_bounce_axis_contains(
        ball.x,
        ball.velocity_x,
        ball.radius,
        ball.elasticity,
        stage_width,
    );
    lemma_bounce_axis_contains(
        ball.y,
        ball.velocity_y,
        ball.radius,
        ball.elasticity,
        stage_height,
    );
}

/// A disc that reaches beyond the near border of an axis, on a stage at
/// least as wide as the disc, is put tangent to that border, and its velocity
/// along the axis is turned round and multiplied by the elasticity.
pub proof fn lemma_bounce_axis_near_border(
    position: int,
    velocity: int,
    radius: int,
    elasticity: int,
    extent: int,
)
    requires
        position - radius < 0,
        2 * radius <= extent,
    ensures
        bounce_axis(position, velocity, radius, elasticity, extent) == (
            radius,
            product(negation(velocity), elasticity),
        ),
{
}

/// A disc that does not reach beyond the near border of an axis but does
/// reach beyond the far one is put tangent to the far border, and its
/// velocity along the axis is turned round and multiplied by the elasticity.
pub proof fn lemma_bounce_axis_far_border(
    position: int,
    velocity: int,
    radius: int,
    elasticity: int,
    extent: int,
)
    requires
        position - radius >= 0,
        position + radius > extent,
    ensures
        bounce_axis(position, velocity, radius, elasticity, extent) == (
            difference(extent, radius),
            product(negation(velocity), elasticity),
        ),
{
}

/// A disc that lies within the two borders of an axis keeps its position and
/// its velocity along that axis.
pub proof fn lemma_bounce_axis_inside(
    position: int,
    velocity: int,
    radius: int,
    elasticity: int,
    extent: int,
)
    requires
        radius <= position <= extent - radius,
    ensures
        bounce_axis(position, velocity, radius, elasticity, extent) == (position, velocity),
{
}

/// After one frame every ball of a collection whose radius is less than half
/// of each extent of the stage lies within the stage.
pub proof fn lemma_frame_contains(
    balls: Seq<BallModel>,
    stage_width: int,
    stage_height: int,
    index: int,
)
    requires
        0 <= index < balls.len(),
        representable(balls[index].radius),
        2 * balls[index].radius < stage_width,
        2 * balls[index].radius < stage_height,
    ensures
        after_frame(balls, stage_width, stage_height).len() == balls.len(),
        after_frame(balls, stage_width, stage_height)[index].contained(stage_width, stage_height),
{
    lemma_bounce_contains(balls[index].step(), stage_width, stage_height);
}

/// Whether two balls collide does not depend on which of them is asked.
pub proof fn lemma_collides_symmetric(a: BallModel, b: BallModel)
    ensures
        a.collides(b) == b.collides(a),
{
    let dx = a.x - b.x;
    let dy = a.y - b.y;
    let r = a.radius + b.radius;
    assert(dx * dx == (b.x - a.x) * (b.x - a.x)) by (nonlinear_arith)
        requires
            dx == a.x - b.x,
    ;
    assert(dy * dy == (b.y - a.y) * (b.y - a.y)) by (nonlinear_arith)
        requires
            dy == a.y - b.y,
    ;
    assert(r * r == (b.radius + a.radius) * (b.radius + a.radius)) by (nonlinear_arith)
        requires
            r == a.radius + b.radius,
    ;
}

/// Balls whose centres are `distance` apart collide exactly when `distance`
/// is at most the sum of their radii: discs that touch collide, discs that
/// are any farther apart do not.
pub proof fn lemma_collides_boundary(a: BallModel, b: BallModel, distance: int)
    requires
        a.radius + b.radius >= 0,
        distance >= 0,
        distance * distance == (a.x - b.x) * (a.x - b.x) + (a.y - b.y) * (a.y - b.y),
    ensures
        a.collides(b) <==> distance <= a.radius + b.radius,
{
    let r = a.radius + b.radius;
    assert(distance * distance <= r * r <==> distance <= r) by (nonlinear_arith)
        requires
            distance >= 0,
            r >= 0,
    ;
}

/// Balls that already move apart along the collision normal come out of the
/// collision as they went in. For discs that overlap or touch that is so
/// whenever the relative velocity times the vector between the centres is
/// positive, however little.
pub proof fn lemma_separating_unchanged(a: BallModel, b: BallModel)
    requires
        a.separating(b),
    ensures
        a.resolve(b) == (a, b),
        a.overlaps(b) ==> a.closing(b) > 0,
{
}

/// Discs that overlap or touch and whose centres part come out of the
/// collision as they went in.
pub proof fn lemma_overlapping_apart_unchanged(a: BallModel, b: BallModel)
    requires
        a.radius + b.radius >= 0,
        a.collides(b),
        a.closing(b) > 0,
    ensures
        a.resolve(b) == (a, b),
{
}

/// For balls of positive mass the collision response is defined exactly when
/// the centres are apart: discs that only touch, or that overlap however
/// little, have it, whatever the masses.
pub proof fn lemma_can_resolve_positive_masses(a: BallModel, b: BallModel)
    requires
        a.mass > 0,
        b.mass > 0,
    ensures
        a.can_resolve(b) <==> a.x != b.x || a.y != b.y,
{
    let dx = a.x - b.x;
    let dy = a.y - b.y;
    assert(dx * dx + dy * dy == 0 <==> dx == 0 && dy == 0) by (nonlinear_arith);
}

/// The impulse on one ball is the opposite of the impulse on the other:
/// before rounding and damping, the momentum that one ball gains along an
/// axis is the momentum that the other loses.
pub proof fn lemma_impulses_opposite(a: BallModel, b: BallModel, component: int)
    ensures
        a.mass * a.impulse_dividend(b, b.mass, component) + b.mass * a.impulse_dividend(
            b,
            a.mass,
            -component,
        ) == 0,
{
    let common = -(SCALE + RESTITUTION) * a.closing(b);
    assert(a.mass * (common * b.mass * component) + b.mass * (common * a.mass * (-component))
        == 0) by (nonlinear_arith);
}

/// A collision without relative motion along the normal only damps: each
/// velocity component is multiplied by the elasticity of the first ball.
pub proof fn lemma_grazing_damps(a: BallModel, b: BallModel)
    requires
        a.can_resolve(b),
        a.closing(b) == 0,
    ensures
        a.resolve(b).0.velocity_x == product(a.velocity_x, a.elasticity),
        a.resolve(b).0.velocity_y == product(a.velocity_y, a.elasticity),
        a.resolve(b).1.velocity_x == product(b.velocity_x, a.elasticity),
        a.resolve(b).1.velocity_y == product(b.velocity_y, a.elasticity),
{
    lemma_struck_at_rest(a, b, a.velocity_x, b.mass, a.x - b.x);
    lemma_struck_at_rest(a, b, a.velocity_y, b.mass, a.y - b.y);
    lemma_struck_at_rest(a, b, b.velocity_x, a.mass, b.x - a.x);
    lemma_struck_at_rest(a, b, b.velocity_y, a.mass, b.y - a.y);
}

/// Without an impulse a struck velocity is the velocity times the
/// elasticity.
proof fn lemma_struck_at_rest(
    a: BallModel,
    b: BallModel,
    velocity: int,
    partner_mass: int,
    component: int,
)
    requires
        a.can_resolve(b),
        a.closing(b) == 0,
    ensures
        a.struck(b, velocity, partner_mass, component) == product(velocity, a.elasticity),
{
    let d = a.impulse_divisor(b);
    let n = velocity * a.elasticity;
    assert(d != 0) by (nonlinear_arith)
        requires
            d == SCALE * (a.mass + b.mass) * a.distance_squared(b),
            a.mass + b.mass != 0,
            a.distance_squared(b) != 0,
    ;
    assert(a.impulse_dividend(b, partner_mass, component) == 0) by (nonlinear_arith)
        requires
            a.impulse_dividend(b, partner_mass, component) == -(SCALE + RESTITUTION) * a.closing(b)
                * partner_mass * component,
            a.closing(b) == 0,
    ;
    assert((velocity * d + 0) * a.elasticity == n * d) by (nonlinear_arith)
        requires
            n == velocity * a.elasticity,
    ;
    assert(d * SCALE == SCALE * d) by (nonlinear_arith);
    lemma_quotient_cancels(n, SCALE as int, d);
}

/// A common factor of dividend and divisor does not change the quotient.
proof fn lemma_quotient_cancels(n: int, d: int, factor: int)
    requires
        d > 0,
        factor != 0,
    ensures
        quotient(n * factor, d * factor) == quotient(n, d),
{
    let f = magnitude(factor);
    assert(magnitude(n * factor) == magnitude(n) * f && magnitude(d * factor) == d * f && ((n
        * factor < 0) == (d * factor < 0) || n == 0) == ((n < 0) == (d < 0) || n == 0)) by (
        nonlinear_arith)
        requires
            f == magnitude(factor),
            factor != 0,
            d > 0,
    ;
    vstd::arithmetic::div_mod::lemma_div_multiples_vanish_quotient(f, magnitude(n), d);
    assert(f * magnitude(n) == magnitude(n) * f && f * d == d * f) by (nonlinear_arith);
    if n == 0 {
        assert(0int / d == 0) by (nonlinear_arith)
            requires
                d > 0,
        ;
    }
}

/// A collision moves neither ball: the discs are not pushed apart.
pub proof fn lemma_resolve_keeps_positions(a: BallModel, b: BallModel)
    ensures
        a.resolve(b).0.x == a.x,
        a.resolve(b).0.y == a.y,
        a.resolve(b).1.x == b.x,
        a.resolve(b).1.y == b.y,
        a.resolve(b).0.collides(a.resolve(b).1) == a.collides(b),
{
}

/// A ball scattered by draws from `[0, 1)` over a stage of nonnegative
/// extents has its centre on the stage, short of the far border along each
/// axis of positive extent, and each velocity component in
/// `[0, SCATTER_SPEED)`.
pub proof fn lemma_scattered_in_bounds(
    ball: BallModel,
    stage_width: int,
    stage_height: int,
    draw_x: int,
    draw_y: int,
    draw_velocity_x: int,
    draw_velocity_y: int,
)
    requires
        0 <= stage_width,
        0 <= stage_height,
        0 <= draw_x < SCALE,
        0 <= draw_y < SCALE,
        0 <= draw_velocity_x < SCALE,
        0 <= draw_velocity_y < SCALE,
    ensures
        ({
            let s = ball.scattered(
                stage_width,
                stage_height,
                draw_x,
                draw_y,
                draw_velocity_x,
                draw_velocity_y,
            );
            &&& 0 <= s.x <= stage_width
            &&& 0 <= s.y <= stage_height
            &&& stage_width > 0 ==> s.x < stage_width
            &&& stage_height > 0 ==> s.y < stage_height
            &&& 0 <= s.velocity_x < SCATTER_SPEED
            &&& 0 <= s.velocity_y < SCATTER_SPEED
        }),
{
    lemma_product_shrinks(draw_x, stage_width);
    lemma_product_shrinks(draw_y, stage_height);
    lemma_product_shrinks(draw_velocity_x, SCATTER_SPEED as int);
    lemma_product_shrinks(draw_velocity_y, SCATTER_SPEED as int);
}

} // verus!

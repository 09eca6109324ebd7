//! A single ball: its state, one tick of motion, the bounce off the stage
//! borders and the collision with another ball.

use crate::fixed::{difference, negation, product, quotient, saturate, sum, Fixed, LIMIT, SCALE};
use crate::wide::Signed;
use vstd::prelude::*;

verus! {

/// Restitution of a ball-to-ball collision, 0.85, in raw units.
pub const RESTITUTION: i64 = 850_000;

/// Upper end of the speed range of a scattered ball, 10, in raw units.
pub const SCATTER_SPEED: i64 = 10_000_000;

/// The mathematical content of a [`Ball`]: every quantity in raw units.
pub struct BallModel {
    pub x: int,
    pub y: int,
    pub velocity_x: int,
    pub velocity_y: int,
    pub radius: int,
    pub mass: int,
    pub gravity: int,
    pub elasticity: int,
    pub friction: int,
}

/// One coordinate of a ball after the bounce off the two borders `0` and
/// `extent` of its axis, as `(position, velocity)`. The near border is looked
/// at first and the far border on what that left; each border that the disc
/// reaches beyond turns the velocity round, damped by `elasticity`, and puts
/// the disc tangent to that border.
pub open spec fn bounce_axis(
    position: int,
    velocity: int,
    radius: int,
    elasticity: int,
    extent: int,
) -> (int, int) {
    let (p, v) = if position - radius < 0 {
        (radius, product(negation(velocity), elasticity))
    } else {
        (position, velocity)
    };
    if p + radius > extent {
        (difference(extent, radius), product(negation(v), elasticity))
    } else {
        (p, v)
    }
}

impl BallModel {
    /// A ball at rest at the origin.
    pub open spec fn at_rest(
        radius: int,
        mass: int,
        gravity: int,
        elasticity: int,
        friction: int,
    ) -> BallModel {
        BallModel {
            x: 0,
            y: 0,
            velocity_x: 0,
            velocity_y: 0,
            radius,
            mass,
            gravity,
            elasticity,
            friction,
        }
    }

    /// Radius and mass are positive.
    pub open spec fn valid(self) -> bool {
        self.radius > 0 && self.mass > 0
    }

    /// What a ball is made of: radius, mass, gravity, elasticity, friction.
    pub open spec fn material(self) -> (int, int, int, int, int) {
        (self.radius, self.mass, self.gravity, self.elasticity, self.friction)
    }

    /// The ball one tick later: the position moves by `gravity * velocity`,
    /// then the velocity is multiplied by `friction`.
    pub open spec fn step(self) -> BallModel {
        BallModel {
            x: sum(self.x, product(self.gravity, self.velocity_x)),
            y: sum(self.y, product(self.gravity, self.velocity_y)),
            velocity_x: product(self.friction, self.velocity_x),
            velocity_y: product(self.friction, self.velocity_y),
            ..self
        }
    }

    /// The square of the speed, in squared raw units.
    pub open spec fn speed_squared(self) -> int {
        self.velocity_x * self.velocity_x + self.velocity_y * self.velocity_y
    }

    /// The ball after `n` ticks.
    pub open spec fn after_steps(self, n: nat) -> BallModel
        decreases n,
    {
        if n == 0 {
            self
        } else {
            self.after_steps((n - 1) as nat).step()
        }
    }

    /// The ball after the bounce off the borders of a stage that spans
    /// `0..=stage_width` by `0..=stage_height`.
    pub open spec fn bounce(self, stage_width: int, stage_height: int) -> BallModel {
        let (x, velocity_x) = bounce_axis(
            self.x,
            self.velocity_x,
            self.radius,
            self.elasticity,
            stage_width,
        );
        let (y, velocity_y) = bounce_axis(
            self.y,
            self.velocity_y,
            self.radius,
            self.elasticity,
            stage_height,
        );
        BallModel { x, y, velocity_x, velocity_y, ..self }
    }

    /// The disc lies within the stage.
    pub open spec fn contained(self, stage_width: int, stage_height: int) -> bool {
        &&& self.radius <= self.x <= stage_width - self.radius
        &&& self.radius <= self.y <= stage_height - self.radius
    }

    /// The square of the distance of the centres, in squared raw units.
    pub open spec fn distance_squared(self, other: BallModel) -> int {
        (self.x - other.x) * (self.x - other.x) + (self.y - other.y) * (self.y - other.y)
    }

    /// The squared distance of the centres is at most the squared sum of the
    /// radii: the discs overlap or touch.
    pub open spec fn collides(self, other: BallModel) -> bool {
        self.distance_squared(other) <= (self.radius + other.radius) * (self.radius
            + other.radius)
    }

    /// The distance of the centres is at most the sum of the radii. The
    /// collision normal then points from `other` to `self`, and from `self`
    /// to `other` otherwise.
    pub open spec fn overlaps(self, other: BallModel) -> bool {
        self.radius + other.radius >= 0 && self.collides(other)
    }

    /// The velocity of `self` as seen from `other`, times the vector from the
    /// centre of `other` to the centre of `self`: the speed at which the
    /// centres part, times their distance. Nothing is rounded.
    pub open spec fn closing(self, other: BallModel) -> int {
        (self.velocity_x - other.velocity_x) * (self.x - other.x) + (self.velocity_y
            - other.velocity_y) * (self.y - other.y)
    }

    /// The relative velocity along the collision normal is positive: the
    /// balls already move apart.
    pub open spec fn separating(self, other: BallModel) -> bool {
        if self.overlaps(other) {
            self.closing(other) > 0
        } else {
            self.closing(other) < 0
        }
    }

    /// The divisor of every change of velocity in a collision:
    /// `(mass + other.mass) * distance_squared`, brought to scale.
    pub open spec fn impulse_divisor(self, other: BallModel) -> int {
        SCALE * (self.mass + other.mass) * self.distance_squared(other)
    }

    /// The dividend of one component of the change of velocity of the ball
    /// whose partner has the mass `partner_mass`, where `component` is that
    /// component of the vector from the partner's centre to the ball's. The
    /// impulse `-(1 + RESTITUTION) * normal_speed / (1 / mass + 1 / other.mass)`
    /// along the normal, divided by the ball's own mass, is, with the normal
    /// speed `closing / distance` and the normal `separation / distance`,
    /// `-(1 + RESTITUTION) * closing * partner_mass * component /
    /// ((mass + other.mass) * distance_squared)`:
    /// this dividend over [`BallModel::impulse_divisor`].
    pub open spec fn impulse_dividend(
        self,
        other: BallModel,
        partner_mass: int,
        component: int,
    ) -> int {
        -(SCALE + RESTITUTION) * self.closing(other) * partner_mass * component
    }

    /// One component of the velocity of a ball after the impulse:
    /// `(velocity + impulse_dividend / impulse_divisor) * elasticity`, with
    /// the elasticity of `self` for either ball. The exact value is rounded
    /// toward zero once, and saturated.
    pub open spec fn struck(
        self,
        other: BallModel,
        velocity: int,
        partner_mass: int,
        component: int,
    ) -> int
        recommends
            self.impulse_divisor(other) != 0,
    {
        saturate(
            quotient(
                (velocity * self.impulse_divisor(other) + self.impulse_dividend(
                    other,
                    partner_mass,
                    component,
                )) * self.elasticity,
                self.impulse_divisor(other) * SCALE,
            ),
        )
    }

    /// The collision response is defined: both masses are nonzero and do not
    /// cancel, and the centres are apart.
    pub open spec fn can_resolve(self, other: BallModel) -> bool {
        &&& self.mass != 0
        &&& other.mass != 0
        &&& self.mass + other.mass != 0
        &&& self.distance_squared(other) != 0
    }

    /// The two balls after their collision, `self` first. Balls that move
    /// apart along the normal are left as they are. Otherwise the impulse,
    /// divided by each ball's mass, is added to the velocity of `self` and
    /// taken from that of `other`, and both results are damped by the
    /// elasticity of `self`. Positions never change.
    pub open spec fn resolve(self, other: BallModel) -> (BallModel, BallModel) {
        if self.separating(other) {
            (self, other)
        } else {
            (
                BallModel {
                    velocity_x: self.struck(other, self.velocity_x, other.mass, self.x - other.x),
                    velocity_y: self.struck(other, self.velocity_y, other.mass, self.y - other.y),
                    ..self
                },
                BallModel {
                    velocity_x: self.struck(other, other.velocity_x, self.mass, other.x - self.x),
                    velocity_y: self.struck(other, other.velocity_y, self.mass, other.y - self.y),
                    ..other
                },
            )
        }
    }

    /// The ball scattered over the stage by four draws from `[0, 1)`: each
    /// coordinate is its draw times the extent of the stage, each velocity
    /// component its draw times [`SCATTER_SPEED`].
    pub open spec fn scattered(
        self,
        stage_width: int,
        stage_height: int,
        draw_x: int,
        draw_y: int,
        draw_velocity_x: int,
        draw_velocity_y: int,
    ) -> BallModel {
        BallModel {
            x: product(draw_x, stage_width),
            y: product(draw_y, stage_height),
            velocity_x: product(draw_velocity_x, SCATTER_SPEED as int),
            velocity_y: product(draw_velocity_y, SCATTER_SPEED as int),
            ..self
        }
    }
}

/// One component of a velocity after the impulse: see [`BallModel::struck`].
/// The pair is given by its `closing`, the sum of its masses and the squared
/// distance of its centres.
fn struck(
    closing: i128,
    total_mass: i64,
    distance_squared: i128,
    elasticity: i64,
    velocity: i64,
    partner_mass: i64,
    component: i64,
) -> (r: Fixed)
    requires
        total_mass != 0,
        distance_squared != 0,
    ensures
        r@ == saturate(
            quotient(
                (velocity * (SCALE * total_mass * distance_squared) + -(SCALE + RESTITUTION)
                    * closing * partner_mass * component) * elasticity,
                SCALE * total_mass * distance_squared * SCALE,
            ),
        ),
{
    let divisor = Signed::from_i128(SCALE as i128).times(total_mass).times_wide(distance_squared);
    let dividend = Signed::from_i128(-(SCALE + RESTITUTION) as i128).times_wide(closing).times(
        partner_mass,
    ).times(component);
    proof {
        let d = SCALE * total_mass * distance_squared;
        assert(d != 0) by (nonlinear_arith)
            requires
                d == SCALE * total_mass * distance_squared,
                total_mass != 0,
                distance_squared != 0,
        ;
        assert(d * SCALE != 0) by (nonlinear_arith)
            requires
                d != 0,
        ;
        assert(d * velocity == velocity * d) by (nonlinear_arith);
    }
    let exact = divisor.times(velocity).plus(&dividend).times(elasticity);
    Fixed::saturating(exact.saturated_quotient(&divisor.times(SCALE)) as i128)
}

/// A disc that moves over a rectangular stage.
#[derive(Clone, Copy, Debug, PartialEq, Eq)]
pub struct Ball {
    pub x: Fixed,
    pub y: Fixed,
    pub velocity_x: Fixed,
    pub velocity_y: Fixed,
    pub radius: Fixed,
    pub mass: Fixed,
    pub gravity: Fixed,
    pub elasticity: Fixed,
    pub friction: Fixed,
}

impl View for Ball {
    type V = BallModel;

    open spec fn view(&self) -> BallModel {
        BallModel {
            x: self.x@,
            y: self.y@,
            velocity_x: self.velocity_x@,
            velocity_y: self.velocity_y@,
            radius: self.radius@,
            mass: self.mass@,
            gravity: self.gravity@,
            elasticity: self.elasticity@,
            friction: self.friction@,
        }
    }
}

/// One coordinate of the bounce, as `(position, velocity)`.
fn bounce_along(
    position: Fixed,
    velocity: Fixed,
    radius: Fixed,
    elasticity: Fixed,
    extent: Fixed,
) -> (r: (Fixed, Fixed))
    ensures
        (r.0@, r.1@) == bounce_axis(position@, velocity@, radius@, elasticity@, extent@),
{
    let mut p = position;
    let mut v = velocity;
    if p.raw() - radius.raw() < 0 {
        v = v.neg().mul(elasticity);
        p = radius;
    }
    if p.raw() + radius.raw() > extent.raw() {
        v = v.neg().mul(elasticity);
        p = extent.sub(radius);
    }
    (p, v)
}

impl Ball {
    /// A ball with the given state and material. No value is refused: a
    /// radius or a mass that is not positive is taken as it is.
    pub fn new(
        x: Fixed,
        y: Fixed,
        velocity_x: Fixed,
        velocity_y: Fixed,
        radius: Fixed,
        mass: Fixed,
        gravity: Fixed,
        elasticity: Fixed,
        friction: Fixed,
    ) -> (ball: Ball)
        ensures
            ball@ == (BallModel {
                x: x@,
                y: y@,
                velocity_x: velocity_x@,
                velocity_y: velocity_y@,
                radius: radius@,
                mass: mass@,
                gravity: gravity@,
                elasticity: elasticity@,
                friction: friction@,
            }),
    {
        Ball { x, y, velocity_x, velocity_y, radius, mass, gravity, elasticity, friction }
    }

    /// Moves the ball by one tick.
    pub fn step(&mut self)
        ensures
            final(self)@ == old(self)@.step(),
    {
        self.x = self.x.add(self.gravity.mul(self.velocity_x));
        self.y = self.y.add(self.gravity.mul(self.velocity_y));
        self.velocity_x = self.friction.mul(self.velocity_x);
        self.velocity_y = self.friction.mul(self.velocity_y);
    }

    /// Bounces the ball off the borders of the stage.
    pub fn manage_stage_border_collision(&mut self, stage_width: Fixed, stage_height: Fixed)
        ensures
            final(self)@ == old(self)@.bounce(stage_width@, stage_height@),
    {
        let (x, velocity_x) = bounce_along(
            self.x,
            self.velocity_x,
            self.radius,
            self.elasticity,
            stage_width,
        );
        let (y, velocity_y) = bounce_along(
            self.y,
            self.velocity_y,
            self.radius,
            self.elasticity,
            stage_height,
        );
        self.x = x;
        self.velocity_x = velocity_x;
        self.y = y;
        self.velocity_y = velocity_y;
    }

    /// Whether the two discs overlap or touch.
    pub fn check_ball_collision(&self, ball: &Ball) -> (colliding: bool)
        ensures
            colliding == self@.collides(ball@),
    {
        let xd: i128 = self.x.raw() as i128 - ball.x.raw() as i128;
        let yd: i128 = self.y.raw() as i128 - ball.y.raw() as i128;
        let sum_radius: i128 = self.radius.raw() as i128 + ball.radius.raw() as i128;
        assert(0 <= xd * xd <= 4 * LIMIT * LIMIT) by (nonlinear_arith)
            requires
                -2 * LIMIT <= xd <= 2 * LIMIT,
        ;
        assert(0 <= yd * yd <= 4 * LIMIT * LIMIT) by (nonlinear_arith)
            requires
                -2 * LIMIT <= yd <= 2 * LIMIT,
        ;
        assert(0 <= sum_radius * sum_radius <= 4 * LIMIT * LIMIT) by (nonlinear_arith)
            requires
                -2 * LIMIT <= sum_radius <= 2 * LIMIT,
        ;
        xd * xd + yd * yd <= sum_radius * sum_radius
    }

    /// Whether [`Ball::resolve_ball_collision`] may be called on the pair.
    pub fn can_resolve_collision(&self, ball: &Ball) -> (resolvable: bool)
        ensures
            resolvable == self@.can_resolve(ball@),
    {
        let dx: i128 = self.x.raw() as i128 - ball.x.raw() as i128;
        let dy: i128 = self.y.raw() as i128 - ball.y.raw() as i128;
        assert(dx * dx + dy * dy == 0 <==> dx == 0 && dy == 0) by (nonlinear_arith);
        self.mass.raw() != 0 && ball.mass.raw() != 0 && self.mass.raw() + ball.mass.raw() != 0
            && (dx != 0 || dy != 0)
    }

    /// Exchanges momentum between two colliding balls. Only the velocities
    /// change; the discs are not pushed apart. Whether the discs overlap is
    /// not looked at.
    pub fn resolve_ball_collision(&mut self, ball: &mut Ball)
        requires
            old(self)@.can_resolve(old(ball)@),
        ensures
            (final(self)@, final(ball)@) == old(self)@.resolve(old(ball)@),
    {
        let dx: i64 = self.x.raw() - ball.x.raw();
        let dy: i64 = self.y.raw() - ball.y.raw();
        let dvx: i64 = self.velocity_x.raw() - ball.velocity_x.raw();
        let dvy: i64 = self.velocity_y.raw() - ball.velocity_y.raw();
        let sum_radius: i128 = self.radius.raw() as i128 + ball.radius.raw() as i128;
        assert(0 <= dx * dx <= 4 * LIMIT * LIMIT) by (nonlinear_arith)
            requires
                -2 * LIMIT <= dx <= 2 * LIMIT,
        ;
        assert(0 <= dy * dy <= 4 * LIMIT * LIMIT) by (nonlinear_arith)
            requires
                -2 * LIMIT <= dy <= 2 * LIMIT,
        ;
        assert(-4 * LIMIT * LIMIT <= dvx * dx <= 4 * LIMIT * LIMIT) by (nonlinear_arith)
            requires
                -2 * LIMIT <= dx <= 2 * LIMIT,
                -2 * LIMIT <= dvx <= 2 * LIMIT,
        ;
        assert(-4 * LIMIT * LIMIT <= dvy * dy <= 4 * LIMIT * LIMIT) by (nonlinear_arith)
            requires
                -2 * LIMIT <= dy <= 2 * LIMIT,
                -2 * LIMIT <= dvy <= 2 * LIMIT,
        ;
        assert(0 <= sum_radius * sum_radius <= 4 * LIMIT * LIMIT) by (nonlinear_arith)
            requires
                -2 * LIMIT <= sum_radius <= 2 * LIMIT,
        ;
        let distance_squared: i128 = dx as i128 * dx as i128 + dy as i128 * dy as i128;
        let closing: i128 = dvx as i128 * dx as i128 + dvy as i128 * dy as i128;
        let overlaps = sum_radius >= 0 && distance_squared <= sum_radius * sum_radius;
        let separating = if overlaps {
            closing > 0
        } else {
            closing < 0
        };
        if separating {
            return ;
        }
        let total_mass: i64 = self.mass.raw() + ball.mass.raw();
        let e: i64 = self.elasticity.raw();
        let velocity_x = struck(
            closing,
            total_mass,
            distance_squared,
            e,
            self.velocity_x.raw(),
            ball.mass.raw(),
            dx,
        );
        let velocity_y = struck(
            closing,
            total_mass,
            distance_squared,
            e,
            self.velocity_y.raw(),
            ball.mass.raw(),
            dy,
        );
        let other_velocity_x = struck(
            closing,
            total_mass,
            distance_squared,
            e,
            ball.velocity_x.raw(),
            self.mass.raw(),
            -dx,
        );
        let other_velocity_y = struck(
            closing,
            total_mass,
            distance_squared,
            e,
            ball.velocity_y.raw(),
            self.mass.raw(),
            -dy,
        );
        self.velocity_x = velocity_x;
        self.velocity_y = velocity_y;
        ball.velocity_x = other_velocity_x;
        ball.velocity_y = other_velocity_y;
    }

    /// Scatters the ball over the stage. The four draws stand for four
    /// numbers taken in this order from a uniform source on `[0, 1)`.
    pub fn set_random_position_and_speed_in_bounds(
        &mut self,
        stage_width: Fixed,
        stage_height: Fixed,
        draw_x: Fixed,
        draw_y: Fixed,
        draw_velocity_x: Fixed,
        draw_velocity_y: Fixed,
    )
        ensures
            final(self)@ == old(self)@.scattered(
                stage_width@,
                stage_height@,
                draw_x@,
                draw_y@,
                draw_velocity_x@,
                draw_velocity_y@,
            ),
    {
        let speed = Fixed::from_raw(SCATTER_SPEED);
        self.x = draw_x.mul(stage_width);
        self.y = draw_y.mul(stage_height);
        self.velocity_x = draw_velocity_x.mul(speed);
        self.velocity_y = draw_velocity_y.mul(speed);
    }
}

impl Default for Ball {
    /// A ball at rest at the origin, of radius 10, mass 1, gravity 1,
    /// elasticity 0.98 and friction 0.8.
    fn default() -> (ball: Ball)
        ensures
            ball@ == BallModel::at_rest(10 * SCALE, SCALE as int, SCALE as int, 980_000, 800_000),
    {
        Ball {
            x: Fixed::from_raw(0),
            y: Fixed::from_raw(0),
            velocity_x: Fixed::from_raw(0),
            velocity_y: Fixed::from_raw(0),
            radius: Fixed::from_int(10),
            mass: Fixed::from_int(1),
            gravity: Fixed::from_int(1),
            elasticity: Fixed::from_raw(980_000),
            friction: Fixed::from_raw(800_000),
        }
    }
}

} // verus!

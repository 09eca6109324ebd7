//! An ordered collection of balls and the pipeline that moves them all by
//! one frame.

use crate::ball::{Ball, BallModel};
use crate::fixed::Fixed;
use crate::render::{collection_markup, draw_wasm_ball_to_html};
use vstd::prelude::*;
use vstd::string::StringExecFns;

verus! {

/// The balls of `balls`, each scattered over the stage by its own four draws:
/// ball `i` takes `draws[4 * i]` to `draws[4 * i + 3]`, in the order of the
/// parameters of [`BallModel::scattered`].
pub open spec fn scatter_all(
    balls: Seq<BallModel>,
    stage_width: int,
    stage_height: int,
    draws: Seq<int>,
) -> Seq<BallModel> {
    Seq::new(
        balls.len(),
        |i: int|
            balls[i].scattered(
                stage_width,
                stage_height,
                draws[4 * i],
                draws[4 * i + 1],
                draws[4 * i + 2],
                draws[4 * i + 3],
            ),
    )
}

/// The balls of `balls` one frame later: each has moved by one tick and then
/// bounced off the borders of the stage. No ball acts on another.
pub open spec fn after_frame(
    balls: Seq<BallModel>,
    stage_width: int,
    stage_height: int,
) -> Seq<BallModel> {
    balls.map_values(|b: BallModel| b.step().bounce(stage_width, stage_height))
}

/// Balls in the order in which they were added. No ball is ever removed.
#[derive(Debug)]
pub struct BallCollection {
    balls: Vec<Ball>,
}

impl View for BallCollection {
    type V = Seq<BallModel>;

    closed spec fn view(&self) -> Seq<BallModel> {
        self.balls@.map_values(|b: Ball| b@)
    }
}

impl BallCollection {
    /// An empty collection.
    pub fn new() -> (collection: BallCollection)
        ensures
            collection@ == Seq::<BallModel>::empty(),
    {
        BallCollection { balls: Vec::new() }
    }

    /// Appends `ball`.
    pub fn push(&mut self, ball: Ball)
        ensures
            final(self)@ == old(self)@.push(ball@),
    {
        self.balls.push(ball);
    }

    /// Appends `quantity` balls at rest at the origin, all with the given
    /// properties; none where `quantity` is not positive.
    pub fn fill(
        &mut self,
        quantity: i32,
        radius: Fixed,
        mass: Fixed,
        gravity: Fixed,
        elasticity: Fixed,
        friction: Fixed,
    )
        ensures
            final(self)@ == old(self)@ + Seq::new(
                (if quantity > 0 {
                    quantity as nat
                } else {
                    0
                }),
                |i: int| BallModel::at_rest(radius@, mass@, gravity@, elasticity@, friction@),
            ),
    {
        let zero = Fixed::from_raw(0);
        let mut added: i32 = 0;
        while added < quantity
            invariant
                quantity > 0 ==> 0 <= added <= quantity,
                quantity <= 0 ==> added == 0,
                zero@ == 0,
                self@ =~= old(self)@ + Seq::new(
                    added as nat,
                    |i: int| BallModel::at_rest(radius@, mass@, gravity@, elasticity@, friction@),
                ),
            decreases quantity - added,
        {
            let ball = Ball::new(zero, zero, zero, zero, radius, mass, gravity, elasticity, friction);
            self.push(ball);
            added += 1;
        }
        assert(self@ =~= old(self)@ + Seq::new(
            (if quantity > 0 {
                quantity as nat
            } else {
                0
            }),
            |i: int| BallModel::at_rest(radius@, mass@, gravity@, elasticity@, friction@),
        ));
    }

    /// The number of balls.
    pub fn len(&self) -> (n: usize)
        ensures
            n == self@.len(),
    {
        self.balls.len()
    }

    /// The ball at `index`, if there is one.
    pub fn get(&self, index: usize) -> (ball: Option<Ball>)
        ensures
            index < self@.len() ==> ball.is_some() && ball.unwrap()@ == self@[index as int],
            index >= self@.len() ==> ball.is_none(),
    {
        if index < self.balls.len() {
            Some(self.balls[index])
        } else {
            None
        }
    }

    fn step(&mut self)
        ensures
            final(self)@ == old(self)@.map_values(|b: BallModel| b.step()),
    {
        let n = self.balls.len();
        let mut i: usize = 0;
        while i < n
            invariant
                i <= n,
                self.balls@.len() == n,
                old(self).balls@.len() == n,
                forall|j: int| 0 <= j < i ==> self.balls@[j]@ == old(self).balls@[j]@.step(),
                forall|j: int| i <= j < n ==> self.balls@[j] == old(self).balls@[j],
            decreases n - i,
        {
            self.balls[i].step();
            i += 1;
        }
    }

    fn manage_stage_border_collision(&mut self, stage_width: Fixed, stage_height: Fixed)
        ensures
            final(self)@ == old(self)@.map_values(
                |b: BallModel| b.bounce(stage_width@, stage_height@),
            ),
    {
        let n = self.balls.len();
        let mut i: usize = 0;
        while i < n
            invariant
                i <= n,
                self.balls@.len() == n,
                old(self).balls@.len() == n,
                forall|j: int|
                    0 <= j < i ==> self.balls@[j]@ == old(self).balls@[j]@.bounce(
                        stage_width@,
                        stage_height@,
                    ),
                forall|j: int| i <= j < n ==> self.balls@[j] == old(self).balls@[j],
            decreases n - i,
        {
            self.balls[i].manage_stage_border_collision(stage_width, stage_height);
            i += 1;
        }
    }

    /// Moves every ball by one frame: one tick of motion, then the bounce off
    /// the borders of the stage. Balls do not act on each other.
    pub fn update(&mut self, stage_width: Fixed, stage_height: Fixed)
        ensures
            final(self)@ == after_frame(old(self)@, stage_width@, stage_height@),
    {
        self.step();
        self.manage_stage_border_collision(stage_width, stage_height);
        assert(self@ =~= after_frame(old(self)@, stage_width@, stage_height@));
    }

    /// The markup of every ball painted in `color`, in the order of the
    /// collection.
    pub fn draw_to_html(&self, color: &str) -> (markup: String)
        ensures
            markup@ == collection_markup(self@, color@),
    {
        let mut markup = String::new();
        let n = self.balls.len();
        let mut i: usize = 0;
        assert(self@.take(0) =~= Seq::<BallModel>::empty());
        while i < n
            invariant
                i <= n,
                n == self.balls@.len(),
                markup@ == collection_markup(self@.take(i as int), color@),
            decreases n - i,
        {
            let one = draw_wasm_ball_to_html(&self.balls[i], color);
            markup.append(one.as_str());
            assert(self@.take(i + 1).drop_last() =~= self@.take(i as int));
            assert(self@.take(i + 1).last() == self.balls@[i as int]@);
            i += 1;
        }
        assert(self@.take(n as int) =~= self@);
        markup
    }

    /// Scatters every ball over the stage, ball `i` by the four draws from
    /// index `4 * i` on. With fewer than four draws per ball nothing changes
    /// and the result is `false`.
    pub fn set_random_position_and_speed_in_bounds(
        &mut self,
        stage_width: Fixed,
        stage_height: Fixed,
        draws: &Vec<Fixed>,
    ) -> (scattered: bool)
        ensures
            scattered == (draws@.len() >= 4 * old(self)@.len()),
            scattered ==> final(self)@ == scatter_all(
                old(self)@,
                stage_width@,
                stage_height@,
                draws@.map_values(|d: Fixed| d@),
            ),
            !scattered ==> final(self)@ == old(self)@,
    {
        let n = self.balls.len();
        let available = draws.len();
        if available / 4 < n {
            return false;
        }
        let mut i: usize = 0;
        while i < n
            invariant
                i <= n,
                available == draws@.len(),
                available >= 4 * n,
                self.balls@.len() == n,
                old(self).balls@.len() == n,
                forall|j: int|
                    0 <= j < i ==> self.balls@[j]@ == old(self).balls@[j]@.scattered(
                        stage_width@,
                        stage_height@,
                        draws@[4 * j]@,
                        draws@[4 * j + 1]@,
                        draws@[4 * j + 2]@,
                        draws@[4 * j + 3]@,
                    ),
                forall|j: int| i <= j < n ==> self.balls@[j] == old(self).balls@[j],
            decreases n - i,
        {
            self.balls[i].set_random_position_and_speed_in_bounds(
                stage_width,
                stage_height,
                draws[4 * i],
                draws[4 * i + 1],
                draws[4 * i + 2],
                draws[4 * i + 3],
            );
            i += 1;
        }
        true
    }
}

} // verus!

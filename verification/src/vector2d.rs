//! Plane vectors with fixed-point components.

use crate::fixed::{
    difference, int_sqrt, isqrt, product, quotient, ratio, saturate, sum, Fixed, LIMIT, SCALE,
};
use vstd::prelude::*;

verus! {

/// The mathematical content of a [`Vector2D`]: its components in raw units.
pub struct VectorModel {
    pub x: int,
    pub y: int,
}

impl VectorModel {
    /// Euclidean norm in raw units: the integer square root of the exact sum
    /// of squares, saturated.
    pub open spec fn length(self) -> int {
        saturate(int_sqrt(self.x * self.x + self.y * self.y))
    }

    /// Dot product in raw units: the exact sum of the two products, brought
    /// back to scale with one rounding toward zero, saturated.
    pub open spec fn dot(self, other: VectorModel) -> int {
        saturate(quotient(self.x * other.x + self.y * other.y, SCALE as int))
    }

    /// Component-wise saturated sum.
    pub open spec fn plus(self, other: VectorModel) -> VectorModel {
        VectorModel { x: sum(self.x, other.x), y: sum(self.y, other.y) }
    }

    /// Component-wise saturated difference.
    pub open spec fn minus(self, other: VectorModel) -> VectorModel {
        VectorModel { x: difference(self.x, other.x), y: difference(self.y, other.y) }
    }

    /// Each component multiplied by `k`.
    pub open spec fn scaled(self, k: int) -> VectorModel {
        VectorModel { x: product(self.x, k), y: product(self.y, k) }
    }

    /// Each component divided by the length.
    pub open spec fn normalized(self) -> VectorModel
        recommends
            self.length() != 0,
    {
        VectorModel { x: ratio(self.x, self.length()), y: ratio(self.y, self.length()) }
    }
}

/// An immutable vector of the plane: every operation returns a new value.
#[derive(Clone, Copy, Debug, PartialEq, Eq)]
pub struct Vector2D {
    pub x: Fixed,
    pub y: Fixed,
}

impl View for Vector2D {
    type V = VectorModel;

    open spec fn view(&self) -> VectorModel {
        VectorModel { x: self.x@, y: self.y@ }
    }
}

impl Vector2D {
    /// The vector with the components `x` and `y`.
    pub fn new(x: Fixed, y: Fixed) -> (v: Vector2D)
        ensures
            v@ == (VectorModel { x: x@, y: y@ }),
    {
        Vector2D { x, y }
    }

    /// The Euclidean norm.
    pub fn get_length(&self) -> (r: Fixed)
        ensures
            r@ == self@.length(),
    {
        let x: i128 = self.x.raw() as i128;
        let y: i128 = self.y.raw() as i128;
        assert(0 <= x * x <= LIMIT * LIMIT) by (nonlinear_arith)
            requires
                -LIMIT <= x <= LIMIT,
        ;
        assert(0 <= y * y <= LIMIT * LIMIT) by (nonlinear_arith)
            requires
                -LIMIT <= y <= LIMIT,
        ;
        let r: u128 = isqrt((x * x + y * y) as u128);
        Fixed::saturating(r as i128)
    }

    /// The dot product with `vector`.
    pub fn dot(&self, vector: &Vector2D) -> (r: Fixed)
        ensures
            r@ == self@.dot(vector@),
    {
        let x1: i128 = self.x.raw() as i128;
        let y1: i128 = self.y.raw() as i128;
        let x2: i128 = vector.x.raw() as i128;
        let y2: i128 = vector.y.raw() as i128;
        assert(-LIMIT * LIMIT <= x1 * x2 <= LIMIT * LIMIT) by (nonlinear_arith)
            requires
                -LIMIT <= x1 <= LIMIT,
                -LIMIT <= x2 <= LIMIT,
        ;
        assert(-LIMIT * LIMIT <= y1 * y2 <= LIMIT * LIMIT) by (nonlinear_arith)
            requires
                -LIMIT <= y1 <= LIMIT,
                -LIMIT <= y2 <= LIMIT,
        ;
        Fixed::saturating((x1 * x2 + y1 * y2) / (SCALE as i128))
    }

    /// The component-wise sum with `vector`.
    pub fn add(&self, vector: Vector2D) -> (r: Vector2D)
        ensures
            r@ == self@.plus(vector@),
    {
        Vector2D { x: self.x.add(vector.x), y: self.y.add(vector.y) }
    }

    /// The component-wise difference from `vector`.
    pub fn subtract(&self, vector: Vector2D) -> (r: Vector2D)
        ensures
            r@ == self@.minus(vector@),
    {
        Vector2D { x: self.x.sub(vector.x), y: self.y.sub(vector.y) }
    }

    /// The vector of the same direction and length one.
    pub fn normalize(&self) -> (r: Vector2D)
        requires
            self@.length() != 0,
        ensures
            r@ == self@.normalized(),
    {
        let length = self.get_length();
        Vector2D { x: self.x.div(length), y: self.y.div(length) }
    }

    /// The vector with each component multiplied by `scale`.
    pub fn scale(&self, scale: Fixed) -> (r: Vector2D)
        ensures
            r@ == self@.scaled(scale@),
    {
        Vector2D { x: self.x.mul(scale), y: self.y.mul(scale) }
    }
}

} // verus!

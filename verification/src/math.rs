//! Small vectors and the physical constants shared by the whole crate.
use vstd::prelude::*;
use crate::fixed::floor_sqrt;
use crate::fixed::isqrt;
use crate::fixed::trunc_div;

verus! {

/// Standard gravity, in units per second squared.
pub const GRAVITY: i64 = 9_806_650;

/// Length of one physics tick, in microseconds.
pub const PHYS_DT: u64 = 10_000;

/// The circle constant, to the four decimals the game uses.
pub const PI: i64 = 3_141_600;

/// A direction or displacement in the plane.
#[derive(Clone, Copy, Debug, PartialEq, Eq, Structural)]
pub struct Vec2 {
    pub x: i64,
    pub y: i64,
}

/// A direction or displacement in space.
#[derive(Clone, Copy, Debug, PartialEq, Eq, Structural)]
pub struct Vec3 {
    pub x: i64,
    pub y: i64,
    pub z: i64,
}

/// Four numbers: a colour, say.
#[derive(Clone, Copy, Debug, PartialEq, Eq, Structural)]
pub struct Vec4 {
    pub x: i64,
    pub y: i64,
    pub z: i64,
    pub w: i64,
}

/// A location in the plane.
#[derive(Clone, Copy, Debug, PartialEq, Eq, Structural)]
pub struct Pnt2 {
    pub x: i64,
    pub y: i64,
}

/// A location in space.
#[derive(Clone, Copy, Debug, PartialEq, Eq, Structural)]
pub struct Pnt3 {
    pub x: i64,
    pub y: i64,
    pub z: i64,
}

impl Vec3 {
    /// Sum of the squares of the three components.
    pub open spec fn norm_squared_spec(self) -> int {
        self.x * self.x + self.y * self.y + self.z * self.z
    }

    /// Euclidean length, rounded down to a whole micro-unit.
    pub open spec fn norm_spec(self) -> int {
        floor_sqrt(self.norm_squared_spec())
    }

    /// One component of the unit vector along `self`; zero for the zero
    /// vector, which has no direction.
    pub open spec fn unit_component(self, c: int, length: int) -> int {
        if self.norm_spec() == 0 {
            0
        } else {
            trunc_div(c * length, self.norm_spec())
        }
    }

    /// The vector of length `length` along `self`, component by component
    /// rounded toward zero; the zero vector for the zero vector.
    pub open spec fn scaled_to_spec(self, length: int) -> (int, int, int) {
        (
            self.unit_component(self.x as int, length),
            self.unit_component(self.y as int, length),
            self.unit_component(self.z as int, length),
        )
    }

    /// The vector with the given components.
    pub fn new(x: i64, y: i64, z: i64) -> (v: Vec3)
        ensures
            v == (Vec3 { x, y, z }),
    {
        Vec3 { x, y, z }
    }

    /// The zero vector.
    pub fn zero() -> (v: Vec3)
        ensures
            v == (Vec3 { x: 0, y: 0, z: 0 }),
    {
        Vec3 { x: 0, y: 0, z: 0 }
    }

    /// Euclidean length, rounded down.
    pub fn norm(&self) -> (n: u64)
        ensures
            n == self.norm_spec(),
            crate::fixed::is_floor_sqrt(self.norm_squared_spec(), n as int),
    {
        let sum: u128 = square(self.x) + square(self.y) + square(self.z);
        isqrt(sum)
    }

    /// The vector of length `length` that points the way `self` does.
    ///
    /// The zero vector has no direction and is answered with the zero vector.
    pub fn scaled_to(&self, length: u32) -> (v: Vec3)
        ensures
            (v.x as int, v.y as int, v.z as int) == self.scaled_to_spec(length as int),
            -(length as int) <= v.x <= length as int,
            -(length as int) <= v.y <= length as int,
            -(length as int) <= v.z <= length as int,
    {
        let n: u64 = self.norm();
        if n == 0 {
            return Vec3 { x: 0, y: 0, z: 0 };
        }
        proof {
            assert(self.x * self.x >= 0) by (nonlinear_arith);
            assert(self.y * self.y >= 0) by (nonlinear_arith);
            assert(self.z * self.z >= 0) by (nonlinear_arith);
            lemma_component_below_norm(self.x as int, self.norm_squared_spec(), n as int);
            lemma_component_below_norm(self.y as int, self.norm_squared_spec(), n as int);
            lemma_component_below_norm(self.z as int, self.norm_squared_spec(), n as int);
        }
        Vec3 {
            x: rescale(self.x, length, n),
            y: rescale(self.y, length, n),
            z: rescale(self.z, length, n),
        }
    }
}

/// `c * c`, which always fits.
pub fn square(c: i64) -> (s: u128)
    ensures
        s == c * c,
        s <= 0x4000_0000_0000_0000_0000_0000_0000_0000u128,
{
    let wide: i128 = c as i128;
    assert(-0x8000_0000_0000_0000 <= wide <= 0x8000_0000_0000_0000);
    assert(0 <= wide * wide <= 0x4000_0000_0000_0000_0000_0000_0000_0000) by (nonlinear_arith)
        requires
            -0x8000_0000_0000_0000 <= wide <= 0x8000_0000_0000_0000,
    ;
    (wide * wide) as u128
}

/// A component is never longer than the whole vector.
pub proof fn lemma_component_below_norm(c: int, sum: int, n: int)
    requires
        crate::fixed::is_floor_sqrt(sum, n),
        c * c <= sum,
    ensures
        -n <= c <= n,
{
    if c > n {
        crate::fixed::lemma_square_monotone(n, c);
        assert((n + 1) * (n + 1) <= c * c) by (nonlinear_arith)
            requires
                0 <= n,
                n + 1 <= c,
        ;
    }
    if c < -n {
        assert((n + 1) * (n + 1) <= c * c) by (nonlinear_arith)
            requires
                0 <= n,
                c <= -(n + 1),
        ;
    }
}

/// `c * length / n` rounded toward zero, for a component `c` of a vector of
/// length `n`.
fn rescale(c: i64, length: u32, n: u64) -> (r: i64)
    requires
        n > 0,
        -(n as int) <= c <= n as int,
    ensures
        r == trunc_div(c * length, n as int),
        -(length as int) <= r <= length as int,
{
    let ghost ci = c as int;
    let ghost li = length as int;
    let ghost ni = n as int;
    assert(-(ni * li) <= ci * li <= ni * li && ni * li <= 0x1_0000_0000_0000_0000 * 0x1_0000_0000)
        by (nonlinear_arith)
        requires
            -ni <= ci <= ni,
            0 <= li <= 0x1_0000_0000,
            0 < ni <= 0x1_0000_0000_0000_0000,
    ;
    let num: i128 = (c as i128) * (length as i128);
    let q: i128 = num / (n as i128);
    proof {
        if ci * li >= 0 {
            vstd::arithmetic::div_mod::lemma_div_is_ordered(ci * li, ni * li, ni);
            vstd::arithmetic::div_mod::lemma_div_multiples_vanish(li, ni);
            vstd::arithmetic::div_mod::lemma_div_pos_is_pos(ci * li, ni);
        } else {
            vstd::arithmetic::div_mod::lemma_div_is_ordered(-(ci * li), ni * li, ni);
            vstd::arithmetic::div_mod::lemma_div_multiples_vanish(li, ni);
            vstd::arithmetic::div_mod::lemma_div_pos_is_pos(-(ci * li), ni);
        }
    }
    q as i64
}

} // verus!

//! Integer lattice coordinates, headings, and the 2x2 integer rotation
//! matrices that turn a heading in place.
//!
//! A heading is one of the four axis-aligned unit vectors. The rotation
//! matrices produced by parsing a rotation sequence are signed permutation
//! matrices, so applying one to a heading always yields a heading again.

use vstd::prelude::*;

verus! {

/// A lattice coordinate or a heading: a pair of signed integers.
#[derive(Clone, Copy, Debug, PartialEq, Eq, Structural)]
pub struct Vec2 {
    pub x: i32,
    pub y: i32,
}

/// A 2x2 integer matrix in row-major order: rows (a, b) and (c, d).
#[derive(Clone, Copy, Debug, PartialEq, Eq, Structural)]
pub struct Mat2 {
    pub a: i32,
    pub b: i32,
    pub c: i32,
    pub d: i32,
}

impl Vec2 {
    /// True of exactly the four axis-aligned unit vectors.
    pub open spec fn is_unit(self) -> bool {
        (self.x == 1 || self.x == -1) && self.y == 0 || self.x == 0 && (self.y == 1 || self.y
            == -1)
    }

    pub fn new(x: i32, y: i32) -> (v: Vec2)
        ensures
            v == (Vec2 { x, y }),
    {
        Vec2 { x, y }
    }

    /// Componentwise sum, as a mathematical pair of integers.
    pub open spec fn spec_plus(self, other: Vec2) -> (int, int) {
        (self.x + other.x, self.y + other.y)
    }

    /// Componentwise sum; the bounds in `requires` only rule out overflow.
    pub fn plus(self, other: Vec2) -> (v: Vec2)
        requires
            i32::MIN <= self.x + other.x <= i32::MAX,
            i32::MIN <= self.y + other.y <= i32::MAX,
        ensures
            (v.x as int, v.y as int) == self.spec_plus(other),
    {
        Vec2 { x: self.x + other.x, y: self.y + other.y }
    }
}

impl Mat2 {
    /// True of the eight signed permutation matrices: each row and column
    /// holds exactly one entry from {-1, 1}, the rest are 0.
    pub open spec fn is_signed_perm(self) -> bool {
        ||| (self.a == 1 || self.a == -1) && (self.d == 1 || self.d == -1) && self.b == 0
            && self.c == 0
        ||| (self.b == 1 || self.b == -1) && (self.c == 1 || self.c == -1) && self.a == 0
            && self.d == 0
    }

    /// Matrix-vector product on a mathematical pair of integers.
    pub open spec fn spec_apply_int(self, x: int, y: int) -> (int, int) {
        (self.a * x + self.b * y, self.c * x + self.d * y)
    }

    /// Matrix-vector product, as a mathematical pair of integers.
    pub open spec fn spec_apply(self, v: Vec2) -> (int, int) {
        self.spec_apply_int(v.x as int, v.y as int)
    }

    /// Applies the rotation to a heading by exact integer matrix-vector
    /// multiplication.
    pub fn apply(self, v: Vec2) -> (w: Vec2)
        requires
            self.is_signed_perm(),
            v.is_unit(),
        ensures
            (w.x as int, w.y as int) == self.spec_apply(v),
            w.is_unit(),
    {
        Vec2 { x: self.a * v.x + self.b * v.y, y: self.c * v.x + self.d * v.y }
    }
}

/// A signed permutation matrix carries each axis-aligned unit vector to an
/// axis-aligned unit vector.
pub proof fn lemma_signed_perm_preserves_unit(m: Mat2, dx: int, dy: int)
    requires
        m.is_signed_perm(),
        (dx == 1 || dx == -1) && dy == 0 || dx == 0 && (dy == 1 || dy == -1),
    ensures
        ({
            let (x, y) = m.spec_apply_int(dx, dy);
            (x == 1 || x == -1) && y == 0 || x == 0 && (y == 1 || y == -1)
        }),
{
    assert(m.a * dx + m.b * dy == if dx == 0 {
        if dy == 1 {
            m.b as int
        } else {
            -m.b as int
        }
    } else {
        if dx == 1 {
            m.a as int
        } else {
            -m.a as int
        }
    }) by (nonlinear_arith)
        requires
            (dx == 1 || dx == -1) && dy == 0 || dx == 0 && (dy == 1 || dy == -1),
    ;
    assert(m.c * dx + m.d * dy == if dx == 0 {
        if dy == 1 {
            m.d as int
        } else {
            -m.d as int
        }
    } else {
        if dx == 1 {
            m.c as int
        } else {
            -m.c as int
        }
    }) by (nonlinear_arith)
        requires
            (dx == 1 || dx == -1) && dy == 0 || dx == 0 && (dy == 1 || dy == -1),
    ;
}

} // verus!

//! Integer plane vectors and reflection.
use vstd::prelude::*;

verus! {

/// Largest absolute coordinate of a point where a ray may start.
pub const MAX_COORD: i64 = 0x100_0000_0000;

/// Largest absolute component of a ray direction.
pub const MAX_DIR: i64 = 0x10_0000;

/// A point or a vector of the integer plane.
#[derive(Clone, Copy, Debug, PartialEq, Eq, Structural)]
pub struct Vec2 {
    pub x: i64,
    pub y: i64,
}

pub open spec fn dot(a: Vec2, b: Vec2) -> int {
    a.x * b.x + a.y * b.y
}

pub open spec fn norm_sq(a: Vec2) -> int {
    dot(a, a)
}

/// The reflection of `d` off a surface with normal `n`: `d - 2 (d . n) n`.
pub open spec fn reflect_spec(d: Vec2, n: Vec2) -> (int, int) {
    (d.x - 2 * dot(d, n) * n.x, d.y - 2 * dot(d, n) * n.y)
}

/// One of the four axis unit vectors.
pub open spec fn is_axis_unit(n: Vec2) -> bool {
    (n.x == 0 && (n.y == 1 || n.y == -1)) || (n.y == 0 && (n.x == 1 || n.x == -1))
}

pub open spec fn dir_in_range(d: Vec2) -> bool {
    -MAX_DIR <= d.x <= MAX_DIR && -MAX_DIR <= d.y <= MAX_DIR
}

pub open spec fn point_in_range(p: Vec2) -> bool {
    -MAX_COORD <= p.x <= MAX_COORD && -MAX_COORD <= p.y <= MAX_COORD
}

/// `a` and `b` differ at most in the signs of their components.
pub open spec fn same_magnitude(a: Vec2, b: Vec2) -> bool {
    (a.x == b.x || a.x == -b.x) && (a.y == b.y || a.y == -b.y)
}

/// The point reached from `p` after travelling `t` times along `d`.
pub open spec fn advance_spec(p: Vec2, d: Vec2, t: int) -> (int, int) {
    (p.x + d.x * t, p.y + d.y * t)
}

impl Vec2 {
    pub fn new(x: i64, y: i64) -> (r: Vec2)
        ensures
            r.x == x,
            r.y == y,
    {
        Vec2 { x, y }
    }

    pub fn is_zero(&self) -> (r: bool)
        ensures
            r == (self.x == 0 && self.y == 0),
    {
        self.x == 0 && self.y == 0
    }

    /// Whether `self` is one of the four axis unit vectors.
    pub fn is_axis_unit(&self) -> (r: bool)
        ensures
            r == is_axis_unit(*self),
    {
        (self.x == 0 && (self.y == 1 || self.y == -1)) || (self.y == 0 && (self.x == 1 || self.x
            == -1))
    }

    /// Reflects `self` off a surface whose normal is an axis unit vector.
    pub fn reflect(&self, n: Vec2) -> (r: Vec2)
        requires
            is_axis_unit(n),
            dir_in_range(*self),
        ensures
            (r.x as int, r.y as int) == reflect_spec(*self, n),
            dir_in_range(r),
            same_magnitude(r, *self),
            norm_sq(r) == norm_sq(*self),
            dot(r, n) == -dot(*self, n),
    {
        let d = *self;
        let r = if n.x == 0 {
            Vec2 { x: self.x, y: -self.y }
        } else {
            Vec2 { x: -self.x, y: self.y }
        };
        proof {
            assert(r.x == d.x - 2 * (d.x * n.x + d.y * n.y) * n.x && r.y == d.y - 2 * (d.x * n.x
                + d.y * n.y) * n.y) by (nonlinear_arith)
                requires
                    (n.x == 0 && (n.y == 1 || n.y == -1)) || (n.y == 0 && (n.x == 1 || n.x == -1)),
                    n.x == 0 ==> r.x == d.x && r.y == -d.y,
                    n.x != 0 ==> r.x == -d.x && r.y == d.y,
            ;
            assert(n.x * n.x + n.y * n.y == 1) by (nonlinear_arith)
                requires
                    (n.x == 0 && (n.y == 1 || n.y == -1)) || (n.y == 0 && (n.x == 1 || n.x == -1)),
            ;
            lemma_reflect_preserves(d, n);
        }
        r
    }
}

/// Reflection keeps the length of the incoming direction and reverses its component along the
/// surface normal: for a unit normal `n`, `|d'| == |d|` and `d' . n == -(d . n)`.
pub proof fn lemma_reflect_preserves(d: Vec2, n: Vec2)
    requires
        norm_sq(n) == 1,
    ensures
        ({
            let (rx, ry) = reflect_spec(d, n);
            &&& rx * rx + ry * ry == norm_sq(d)
            &&& rx * n.x + ry * n.y == -dot(d, n)
        }),
{
    let k = dot(d, n);
    let (rx, ry) = reflect_spec(d, n);
    assert(rx * n.x + ry * n.y == k - 2 * k * (n.x * n.x + n.y * n.y)) by (nonlinear_arith)
        requires
            rx == d.x - 2 * k * n.x,
            ry == d.y - 2 * k * n.y,
            k == d.x * n.x + d.y * n.y,
    ;
    assert(rx * rx == d.x * d.x - 4 * k * (d.x * n.x) + 4 * k * k * (n.x * n.x)) by (nonlinear_arith)
        requires
            rx == d.x - 2 * k * n.x,
    ;
    assert(ry * ry == d.y * d.y - 4 * k * (d.y * n.y) + 4 * k * k * (n.y * n.y)) by (nonlinear_arith)
        requires
            ry == d.y - 2 * k * n.y,
    ;
    assert(4 * k * (d.x * n.x) + 4 * k * (d.y * n.y) == 4 * k * k) by (nonlinear_arith)
        requires
            k == d.x * n.x + d.y * n.y,
    ;
    assert(4 * k * k * (n.x * n.x) + 4 * k * k * (n.y * n.y) == 4 * k * k) by (nonlinear_arith)
        requires
            n.x * n.x + n.y * n.y == 1,
    ;
}

} // verus!

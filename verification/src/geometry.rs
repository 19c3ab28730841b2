use vstd::prelude::*;

verus! {

/// Lattice length of a heading of length one.
pub const UNIT: i64 = 1048576;

/// A point or a displacement on the integer lattice, origin at the canvas
/// centre, `y` growing upwards.
#[derive(Clone, Copy, Debug, PartialEq, Eq, Structural)]
pub struct Vec2 {
    pub x: i64,
    pub y: i64,
}

impl Vec2 {
    /// Squared Euclidean length.
    pub open spec fn norm_sq(self) -> int {
        self.x * self.x + self.y * self.y
    }

    /// A heading is a velocity no longer than `UNIT`.
    pub open spec fn is_heading(self) -> bool {
        self.norm_sq() <= UNIT * UNIT
    }

    pub fn new(x: i64, y: i64) -> (v: Vec2)
        ensures
            v.x == x,
            v.y == y,
    {
        Vec2 { x, y }
    }

    /// Decides whether the vector is a heading.
    pub fn check_heading(&self) -> (ok: bool)
        ensures
            ok == self.is_heading(),
    {
        let x: i128 = self.x as i128;
        let y: i128 = self.y as i128;
        let limit: i128 = UNIT as i128;
        if x > limit || x < -limit || y > limit || y < -limit {
            proof {
                if x > limit || x < -limit {
                    lemma_long_component(self.x as int, self.y as int, UNIT as int);
                } else {
                    lemma_long_component(self.y as int, self.x as int, UNIT as int);
                }
            }
            return false;
        }
        assert(0 <= x * x <= limit * limit && 0 <= y * y <= limit * limit) by (nonlinear_arith)
            requires
                -limit <= x <= limit,
                -limit <= y <= limit,
        ;
        assert(limit * limit == 1099511627776) by (nonlinear_arith)
            requires
                limit == 1048576,
        ;
        x * x + y * y <= limit * limit
    }
}

/// What the walkers ask of the rotation that the host lends them: it accepts
/// every heading with every amount, and hands back a heading.
pub open spec fn steers<F: Fn(Vec2, i64) -> Vec2>(rotate: &F) -> bool {
    &&& forall|v: Vec2, amount: i64| v.is_heading() ==> call_requires(rotate, (v, amount))
    &&& forall|v: Vec2, amount: i64, r: Vec2|
        v.is_heading() && call_ensures(rotate, (v, amount), r) ==> r.is_heading()
}

/// A component longer than `r` makes the whole vector longer than `r`.
pub proof fn lemma_long_component(a: int, b: int, r: int)
    requires
        r >= 0,
        a > r || a < -r,
    ensures
        a * a + b * b > r * r,
{
    assert(a * a > r * r) by (nonlinear_arith)
        requires
            r >= 0,
            a > r || a < -r,
    ;
    assert(b * b >= 0) by (nonlinear_arith);
}

/// Neither component of a heading exceeds `UNIT`.
pub proof fn lemma_heading_components(v: Vec2)
    requires
        v.is_heading(),
    ensures
        -UNIT <= v.x <= UNIT,
        -UNIT <= v.y <= UNIT,
{
    if v.x > UNIT || v.x < -UNIT {
        lemma_long_component(v.x as int, v.y as int, UNIT as int);
    }
    if v.y > UNIT || v.y < -UNIT {
        lemma_long_component(v.y as int, v.x as int, UNIT as int);
    }
}

} // verus!

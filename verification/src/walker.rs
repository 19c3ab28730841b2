use crate::dice::{roll, SIDES};
use crate::frame::Pixel;
use crate::geometry::Vec2;
use vstd::math::abs;
use vstd::prelude::*;

verus! {

/// The rotation that roll `roll` asks for, as a signed number of hundredths of
/// the limit: `-100` for the lowest roll, `98` for the highest.
pub open spec fn turn_factor(roll: int) -> int {
    2 * roll - SIDES
}

/// The rotation that roll `roll` asks for under the limit `limit`, in
/// hundredths of the unit that `limit` is given in.
pub open spec fn turn_amount(limit: int, roll: int) -> int {
    limit * turn_factor(roll)
}

/// Where a coordinate `p` reappears on a torus of circumference `extent`
/// after one step: one `extent` back once it has reached `extent / 2`, one
/// `extent` forth once it has reached `-extent / 2`.
pub open spec fn wrap_coordinate(p: int, extent: int) -> int {
    if 2 * p >= extent {
        p - extent
    } else if 2 * p <= -extent {
        p + extent
    } else {
        p
    }
}

/// A straight stroke to be drawn. Every stroke of a walker is opaque white.
#[derive(Clone, Copy, Debug, PartialEq, Eq, Structural)]
pub struct Segment {
    pub start: Vec2,
    pub end: Vec2,
    pub weight: u32,
    pub color: Pixel,
}

/// One walker: where it is, where it was at the start of the tick, where it
/// is heading, and whether it has died.
#[derive(Clone, Copy, Debug, PartialEq, Eq, Structural)]
pub struct Walker {
    pub position: Vec2,
    pub prev_position: Vec2,
    pub velocity: Vec2,
    pub dead: bool,
}

/// Computes `turn_amount`.
pub fn turn_amount_of(limit: i32, roll: u32) -> (amount: i64)
    requires
        roll < SIDES,
    ensures
        amount == turn_amount(limit as int, roll as int),
{
    proof {
        lemma_turn_bounded(limit as int, roll as int);
    }
    let factor: i64 = 2 * (roll as i64) - 100;
    (limit as i64) * factor
}

/// No roll turns a walker by more than the limit, to either side.
pub proof fn lemma_turn_bounded(limit: int, roll: int)
    requires
        0 <= roll < SIDES,
    ensures
        -100 * abs(limit) <= turn_amount(limit, roll) <= 100 * abs(limit),
{
    let factor = turn_factor(roll);
    assert(-100 * abs(limit) <= limit * factor <= 100 * abs(limit)) by (nonlinear_arith)
        requires
            -100 <= factor <= 100,
    ;
}

/// A walker that has reached or passed an edge reappears one canvas away,
/// and draws no stroke across the canvas: where it was is where it is. A
/// walker strictly inside is left as it was.
pub proof fn lemma_wrap_edges(w: Walker, width: int, height: int)
    requires
        0 < width <= i64::MAX,
        0 < height <= i64::MAX,
    ensures
        ({
            let after = w.spec_wrap(width, height);
            &&& 2 * w.position.x >= width ==> after.position.x == w.position.x - width
            &&& 2 * w.position.x <= -width ==> after.position.x == w.position.x + width
            &&& 2 * w.position.y >= height ==> after.position.y == w.position.y - height
            &&& 2 * w.position.y <= -height ==> after.position.y == w.position.y + height
            &&& -width < 2 * w.position.x < width ==> after.position.x == w.position.x
            &&& -height < 2 * w.position.y < height ==> after.position.y == w.position.y
            &&& after.position != w.position ==> after.prev_position == after.position
            &&& after.position == w.position ==> after == w
            &&& after.velocity == w.velocity
            &&& after.dead == w.dead
        }),
{
}

/// Computes `wrap_coordinate`.
pub fn wrap_coordinate_of(p: i64, extent: i64) -> (q: i64)
    requires
        extent > 0,
    ensures
        q == wrap_coordinate(p as int, extent as int),
{
    let twice: i128 = 2 * (p as i128);
    if twice >= extent as i128 {
        p - extent
    } else if twice <= -(extent as i128) {
        p + extent
    } else {
        p
    }
}

impl Walker {
    /// Where the walker stands after one step at `speed`.
    pub open spec fn spec_next_position(self, speed: int) -> (int, int) {
        (self.position.x + self.velocity.x * speed, self.position.y + self.velocity.y * speed)
    }

    /// The step at `speed` stays on the lattice that `i64` can hold.
    pub open spec fn can_advance(self, speed: int) -> bool {
        let (x, y) = self.spec_next_position(speed);
        i64::MIN <= x <= i64::MAX && i64::MIN <= y <= i64::MAX
    }

    /// The walker after one step at `speed`.
    pub open spec fn spec_update(self, speed: int) -> Walker
        recommends
            self.can_advance(speed),
    {
        let (x, y) = self.spec_next_position(speed);
        Walker {
            position: Vec2 { x: x as i64, y: y as i64 },
            prev_position: self.position,
            velocity: self.velocity,
            dead: self.dead,
        }
    }

    /// The walker after the toroidal wrap on a canvas of `width` by
    /// `height`: a walker that left through an edge reappears at the
    /// opposite one and forgets where it came from.
    pub open spec fn spec_wrap(self, width: int, height: int) -> Walker {
        let x = wrap_coordinate(self.position.x as int, width);
        let y = wrap_coordinate(self.position.y as int, height);
        if x != self.position.x || y != self.position.y {
            let at = Vec2 { x: x as i64, y: y as i64 };
            Walker { position: at, prev_position: at, velocity: self.velocity, dead: self.dead }
        } else {
            self
        }
    }

    /// The walker after it has stood on `pixel`: dead if it was, or if the
    /// pixel is at least as bright as `threshold`.
    pub open spec fn spec_judge(self, pixel: Pixel, threshold: u8) -> Walker {
        Walker {
            position: self.position,
            prev_position: self.prev_position,
            velocity: self.velocity,
            dead: self.dead || pixel.spec_brightness() >= threshold,
        }
    }

    /// A live walker at rest at `position`, heading along `velocity`.
    pub fn new(position: Vec2, velocity: Vec2) -> (w: Walker)
        ensures
            w.position == position,
            w.prev_position == position,
            w.velocity == velocity,
            !w.dead,
    {
        Walker { position, prev_position: position, velocity, dead: false }
    }

    /// Rotates the velocity by the amount that `roll` asks for under the limit
    /// `angle`, handing the rotation itself to `rotate`.
    pub fn turn_by<F: Fn(Vec2, i64) -> Vec2>(&mut self, angle: i32, roll: u32, rotate: &F)
        requires
            roll < SIDES,
            call_requires(rotate, (old(self).velocity, turn_amount(angle as int, roll as int) as i64)),
        ensures
            call_ensures(
                rotate,
                (old(self).velocity, turn_amount(angle as int, roll as int) as i64),
                final(self).velocity,
            ),
            final(self).position == old(self).position,
            final(self).prev_position == old(self).prev_position,
            final(self).dead == old(self).dead,
    {
        let amount = turn_amount_of(angle, roll);
        self.velocity = rotate(self.velocity, amount);
    }

    /// Rotates the velocity by a random share of `angle`, to either side.
    pub fn turn<F: Fn(Vec2, i64) -> Vec2>(&mut self, angle: i32, rotate: &F)
        requires
            forall|r: int| 0 <= r < SIDES ==> call_requires(
                rotate,
                (old(self).velocity, #[trigger] turn_amount(angle as int, r) as i64),
            ),
        ensures
            exists|r: int| 0 <= r < SIDES && call_ensures(
                rotate,
                (old(self).velocity, #[trigger] turn_amount(angle as int, r) as i64),
                final(self).velocity,
            ),
            final(self).position == old(self).position,
            final(self).prev_position == old(self).prev_position,
            final(self).dead == old(self).dead,
    {
        let r = roll();
        assert(call_requires(rotate, (self.velocity, turn_amount(angle as int, r as int) as i64)));
        self.turn_by(angle, r, rotate);
    }

    /// Where one step at `speed` leads.
    pub fn next_position(&self, speed: i64) -> (p: Vec2)
        requires
            self.can_advance(speed as int),
        ensures
            (p.x as int, p.y as int) == self.spec_next_position(speed as int),
    {
        let x: i128 = self.position.x as i128 + product(self.velocity.x, speed);
        let y: i128 = self.position.y as i128 + product(self.velocity.y, speed);
        Vec2 { x: x as i64, y: y as i64 }
    }

    /// Takes one step at `speed`, remembering where it started.
    pub fn update(&mut self, speed: i64)
        requires
            old(self).can_advance(speed as int),
        ensures
            *final(self) == old(self).spec_update(speed as int),
    {
        let next = self.next_position(speed);
        self.prev_position = self.position;
        self.position = next;
    }

    /// Carries a walker that has left the canvas over to the opposite edge.
    pub fn wrap(&mut self, width: i64, height: i64)
        requires
            width > 0,
            height > 0,
        ensures
            *final(self) == old(self).spec_wrap(width as int, height as int),
    {
        let x = wrap_coordinate_of(self.position.x, width);
        let y = wrap_coordinate_of(self.position.y, height);
        if x != self.position.x || y != self.position.y {
            self.position = Vec2 { x, y };
            self.prev_position = self.position;
        }
    }

    /// Kills the walker if `pixel` is at least as bright as `threshold`.
    pub fn judge(&mut self, pixel: Pixel, threshold: u8)
        ensures
            *final(self) == old(self).spec_judge(pixel, threshold),
    {
        if pixel.brightness() >= threshold {
            self.dead = true;
        }
    }

    /// The stroke from where the tick began to where it ended.
    pub fn draw(&self, weight: u32) -> (s: Segment)
        ensures
            s.start == self.prev_position,
            s.end == self.position,
            s.weight == weight,
            s.color == Pixel::spec_white(),
    {
        Segment { start: self.prev_position, end: self.position, weight, color: Pixel::white() }
    }
}

/// The exact product of two lattice numbers.
fn product(a: i64, b: i64) -> (p: i128)
    ensures
        p == a * b,
{
    assert(-0x8000_0000_0000_0000 * 0x8000_0000_0000_0000 <= a * b <= 0x8000_0000_0000_0000
        * 0x8000_0000_0000_0000) by (nonlinear_arith)
        requires
            -0x8000_0000_0000_0000 <= a <= 0x8000_0000_0000_0000,
            -0x8000_0000_0000_0000 <= b <= 0x8000_0000_0000_0000,
    ;
    (a as i128) * (b as i128)
}

} // verus!

//! Integer plane geometry.

use vstd::prelude::*;

verus! {

/// A point or a displacement in the plane, in millimetres.
#[derive(Copy, Clone, Debug, PartialEq, Eq, Structural)]
pub struct Vec2 {
    pub x: i64,
    pub y: i64,
}

/// The largest coordinate, to either side, of a point of the world. Stages
/// that move a point ask that it lies within, so that the result can be
/// written down.
pub const WORLD_LIMIT: i64 = 1_000_000_000_000_000;

impl Vec2 {
    /// Whether the point lies within the world.
    pub open spec fn in_world(self) -> bool {
        -WORLD_LIMIT <= self.x <= WORLD_LIMIT && -WORLD_LIMIT <= self.y <= WORLD_LIMIT
    }

    /// Whether the point lies within the world.
    pub fn is_in_world(&self) -> (inside: bool)
        ensures
            inside == self.in_world(),
    {
        -WORLD_LIMIT <= self.x && self.x <= WORLD_LIMIT && -WORLD_LIMIT <= self.y && self.y
            <= WORLD_LIMIT
    }
}

/// The scale of a `Direction`: a component of this size stands for one.
pub const DIRECTION_SCALE: i16 = 1000;

/// A heading in the plane: a vector of length one, in thousandths.
#[derive(Copy, Clone, Debug, PartialEq, Eq, Structural)]
pub struct Direction {
    pub x: i16,
    pub y: i16,
}

/// The velocity of a projectile: `speed` along `heading` turned by
/// `deviation`. The turn is left to the receiver, who has trigonometry.
#[derive(Copy, Clone, Debug, PartialEq, Eq, Structural)]
pub struct PolarVelocity {
    /// Millimetres per second.
    pub speed: u32,
    /// The heading before the turn.
    pub heading: Direction,
    /// The turn, in thousandths of a degree, counter-clockwise.
    pub deviation: i32,
}

/// `length` times the component `component` of a heading, in millimetres,
/// rounded towards zero.
pub open spec fn along(length: int, component: int) -> int {
    if component >= 0 {
        length * component / (DIRECTION_SCALE as int)
    } else {
        -(length * (-component) / (DIRECTION_SCALE as int))
    }
}

/// The point that lies `length` behind `position`, looking along `forward`.
pub open spec fn stepped_back(position: Vec2, forward: Direction, length: u32) -> Vec2 {
    Vec2 {
        x: (position.x - along(length as int, forward.x as int)) as i64,
        y: (position.y - along(length as int, forward.y as int)) as i64,
    }
}

fn length_along(length: u32, component: i16) -> (part: i64)
    ensures
        part == along(length as int, component as int),
        -0x1_0000_0000_0000 <= part <= 0x1_0000_0000_0000,
{
    let long: i64 = length as i64;
    if component >= 0 {
        let wide: i64 = component as i64;
        assert(0 <= long * wide <= 0xffff_ffff * 0x7fff) by (nonlinear_arith)
            requires
                0 <= long <= 0xffff_ffff,
                0 <= wide <= 0x7fff,
        ;
        (long * wide) / (DIRECTION_SCALE as i64)
    } else {
        let wide: i64 = -(component as i64);
        assert(0 <= long * wide <= 0xffff_ffff * 0x8000) by (nonlinear_arith)
            requires
                0 <= long <= 0xffff_ffff,
                0 <= wide <= 0x8000,
        ;
        -((long * wide) / (DIRECTION_SCALE as i64))
    }
}

/// The point that lies `length` behind `position`, looking along `forward`.
pub fn step_back(position: Vec2, forward: Direction, length: u32) -> (point: Vec2)
    requires
        position.in_world(),
    ensures
        point == stepped_back(position, forward, length),
{
    let dx = length_along(length, forward.x);
    let dy = length_along(length, forward.y);
    Vec2 { x: position.x - dx, y: position.y - dy }
}

/// The largest whole number whose square is at most `n`.
pub open spec fn floor_sqrt(n: nat) -> nat
    decreases n,
{
    if n == 0 {
        0
    } else {
        let below = floor_sqrt((n - 1) as nat);
        if (below + 1) * (below + 1) <= n {
            below + 1
        } else {
            below
        }
    }
}

/// `floor_sqrt(n)` is a root of `n` rounded down.
pub proof fn lemma_floor_sqrt_bounds(n: nat)
    ensures
        floor_sqrt(n) * floor_sqrt(n) <= n < (floor_sqrt(n) + 1) * (floor_sqrt(n) + 1),
    decreases n,
{
    if n > 0 {
        lemma_floor_sqrt_bounds((n - 1) as nat);
        let below = floor_sqrt((n - 1) as nat);
        let root = floor_sqrt(n);
        if (below + 1) * (below + 1) <= n {
            assert(root == below + 1);
            assert(n < (root + 1) * (root + 1)) by (nonlinear_arith)
                requires
                    n - 1 < (below + 1) * (below + 1),
                    root == below + 1,
            ;
        } else {
            assert(root == below);
        }
    } else {
        let root = floor_sqrt(n);
        assert(root * root <= n < (root + 1) * (root + 1)) by (nonlinear_arith)
            requires
                root == 0,
                n == 0,
        ;
    }
}

proof fn lemma_root_of_positive(n: nat)
    requires
        n >= 1,
    ensures
        floor_sqrt(n) >= 1,
{
    lemma_floor_sqrt_bounds(n);
    let root = floor_sqrt(n);
    assert(root >= 1) by (nonlinear_arith)
        requires
            n >= 1,
            n < (root + 1) * (root + 1),
    ;
}

/// Only one whole number is a root of `n` rounded down.
pub proof fn lemma_floor_sqrt_unique(n: nat, root: nat)
    requires
        root * root <= n < (root + 1) * (root + 1),
    ensures
        floor_sqrt(n) == root,
{
    lemma_floor_sqrt_bounds(n);
    let other = floor_sqrt(n);
    assert(other == root) by (nonlinear_arith)
        requires
            root * root <= n < (root + 1) * (root + 1),
            other * other <= n < (other + 1) * (other + 1),
    ;
}

/// The largest distance at which two bounds can touch: twice the largest
/// radius.
pub const MAX_REACH: u64 = 0x1_ffff_fffe;

fn whole_root(n: u128) -> (root: u64)
    requires
        n < 0x10_0000_0000_0000_0000,
    ensures
        root == floor_sqrt(n as nat),
        root < 0x4_0000_0000,
{
    let mut low: u128 = 0;
    let mut high: u128 = 0x4_0000_0000;
    assert(high * high == 0x10_0000_0000_0000_0000) by (nonlinear_arith)
        requires
            high == 0x4_0000_0000,
    ;
    while high - low > 1
        invariant
            low < high <= 0x4_0000_0000,
            low * low <= n < high * high,
        decreases high - low,
    {
        let middle: u128 = low + (high - low) / 2;
        assert(middle * middle <= 0x4_0000_0000 * 0x4_0000_0000) by (nonlinear_arith)
            requires
                0 <= middle <= 0x4_0000_0000,
        ;
        if middle * middle <= n {
            low = middle;
        } else {
            high = middle;
        }
    }
    proof {
        lemma_floor_sqrt_unique(n as nat, low as nat);
    }
    low as u64
}

/// The square of the distance from `from` to `to`.
pub open spec fn gap_squared(from: Vec2, to: Vec2) -> int {
    (to.x - from.x) * (to.x - from.x) + (to.y - from.y) * (to.y - from.y)
}

/// Whether `to` lies closer to `from` than `reach`.
pub open spec fn reaches(from: Vec2, to: Vec2, reach: int) -> bool {
    gap_squared(from, to) < reach * reach
}

/// `component` times `depth` over `gap`, rounded away from zero.
pub open spec fn stretched(component: int, depth: int, gap: int) -> int {
    if component >= 0 {
        (component * depth + gap - 1) / gap
    } else {
        -(((-component) * depth + gap - 1) / gap)
    }
}

/// How far something at `from` that reaches `reach` far has entered
/// something at `to`: nothing where `to` is out of reach; else a vector that
/// points from `from` to `to` and is as long as the reach goes beyond `to`.
/// The distance is rounded down to the millimetre and each component of the
/// vector away from zero, so that no point within reach gets the zero vector
/// and both components stay within `reach`. A point at `from` itself lies in
/// no direction: it gets the whole reach along the x axis.
pub open spec fn penetration(from: Vec2, to: Vec2, reach: int) -> Option<Vec2> {
    if !reaches(from, to, reach) {
        None
    } else if from == to {
        Some(Vec2 { x: reach as i64, y: 0 })
    } else {
        let gap = floor_sqrt(gap_squared(from, to) as nat) as int;
        Some(
            Vec2 {
                x: stretched(to.x - from.x, reach - gap, gap) as i64,
                y: stretched(to.y - from.y, reach - gap, gap) as i64,
            },
        )
    }
}

proof fn lemma_square_grows(small: int, large: int)
    by (nonlinear_arith)
    requires
        0 <= small <= large,
    ensures
        small * small <= large * large,
{
}

proof fn lemma_square_of_negative(value: int)
    by (nonlinear_arith)
    ensures
        (-value) * (-value) == value * value,
        value * value >= 0,
        value != 0 ==> value * value >= 1,
{
}

proof fn lemma_stretch_of_positive(part: int, depth: int, gap: int)
    by (nonlinear_arith)
    requires
        0 <= part <= gap,
        1 <= depth,
        1 <= gap,
    ensures
        0 <= (part * depth + gap - 1) / gap <= depth,
        part >= 1 ==> (part * depth + gap - 1) / gap >= 1,
        0 <= part * depth <= gap * depth,
{
}

/// What `penetration` finds is not the zero vector, and neither of its
/// components is longer than the reach.
pub proof fn lemma_penetration_is_a_push(from: Vec2, to: Vec2, reach: int)
    requires
        0 <= reach <= MAX_REACH,
        reaches(from, to, reach),
    ensures
        penetration(from, to, reach) is Some,
        penetration(from, to, reach)->Some_0 != (Vec2 { x: 0, y: 0 }),
        -reach <= penetration(from, to, reach)->Some_0.x <= reach,
        -reach <= penetration(from, to, reach)->Some_0.y <= reach,
{
    let dx = to.x - from.x;
    let dy = to.y - from.y;
    lemma_square_of_negative(dx);
    lemma_square_of_negative(dy);
    lemma_square_of_negative(reach);
    if from == to {
    } else {
        let squared = gap_squared(from, to);
        assert(squared >= 1);
        lemma_floor_sqrt_bounds(squared as nat);
        lemma_root_of_positive(squared as nat);
        let gap = floor_sqrt(squared as nat) as int;
        assert(gap < reach) by {
            if gap >= reach {
                lemma_square_grows(reach, gap);
            }
        }
        let ax = if dx >= 0 { dx } else { -dx };
        let ay = if dy >= 0 { dy } else { -dy };
        assert(ax <= gap) by {
            if ax >= gap + 1 {
                lemma_square_grows(gap + 1, ax);
            }
        }
        assert(ay <= gap) by {
            if ay >= gap + 1 {
                lemma_square_grows(gap + 1, ay);
            }
        }
        lemma_stretch_of_positive(ax, reach - gap, gap);
        lemma_stretch_of_positive(ay, reach - gap, gap);
    }
}

/// How far something at `from` that reaches `reach` far has entered
/// something at `to`.
pub fn penetrate(from: Vec2, to: Vec2, reach: u64) -> (push: Option<Vec2>)
    requires
        reach <= MAX_REACH,
    ensures
        push == penetration(from, to, reach as int),
{
    let dx: i128 = to.x as i128 - from.x as i128;
    let dy: i128 = to.y as i128 - from.y as i128;
    let ax: u128 = if dx >= 0 { dx as u128 } else { (-dx) as u128 };
    let ay: u128 = if dy >= 0 { dy as u128 } else { (-dy) as u128 };
    let far: u128 = reach as u128;
    proof {
        lemma_square_of_negative(dx as int);
        lemma_square_of_negative(dy as int);
        lemma_square_grows(far as int, MAX_REACH as int);
    }
    if ax >= far || ay >= far {
        proof {
            if ax >= far {
                lemma_square_grows(far as int, ax as int);
            } else {
                lemma_square_grows(far as int, ay as int);
            }
        }
        return None;
    }
    proof {
        lemma_square_grows(ax as int, far as int);
        lemma_square_grows(ay as int, far as int);
    }
    let squared: u128 = ax * ax + ay * ay;
    assert(squared == gap_squared(from, to));
    if squared >= far * far {
        return None;
    }
    if squared == 0 {
        assert(from == to) by {
            lemma_square_of_negative(ax as int);
            lemma_square_of_negative(ay as int);
        }
        return Some(Vec2 { x: reach as i64, y: 0 });
    }
    assert(from != to);
    let gap = whole_root(squared) as u128;
    proof {
        lemma_penetration_is_a_push(from, to, reach as int);
        lemma_floor_sqrt_bounds(squared as nat);
        lemma_root_of_positive(squared as nat);
        assert(gap < far) by {
            if gap >= far {
                lemma_square_grows(far as int, gap as int);
            }
        }
        assert(ax <= gap) by {
            if ax >= gap + 1 {
                lemma_square_grows(gap as int + 1, ax as int);
            }
        }
        assert(ay <= gap) by {
            if ay >= gap + 1 {
                lemma_square_grows(gap as int + 1, ay as int);
            }
        }
        lemma_stretch_of_positive(ax as int, far - gap, gap as int);
        lemma_stretch_of_positive(ay as int, far - gap, gap as int);
        lemma_square_grows(gap as int, MAX_REACH as int);
        assert(gap * (far - gap) <= MAX_REACH * MAX_REACH) by (nonlinear_arith)
            requires
                1 <= gap < far <= MAX_REACH,
        ;
    }
    let depth: u128 = far - gap;
    let long: u128 = (ax * depth + gap - 1) / gap;
    let high: u128 = (ay * depth + gap - 1) / gap;
    let x: i64 = if dx >= 0 { long as i64 } else { -(long as i64) };
    let y: i64 = if dy >= 0 { high as i64 } else { -(high as i64) };
    Some(Vec2 { x, y })
}

} // verus!

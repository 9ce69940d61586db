use vstd::prelude::*;

verus! {

/// One whole unit (a pixel of offset, a degree, an activation of one) in
/// thousandths.
pub const UNIT: i64 = 1000;

/// Largest magnitude of a world coordinate or a light radius (2^60 millionths
/// of a pixel): squared distances between such points stay well inside `i128`.
pub const COORD_LIMIT: i64 = 0x1000_0000_0000_0000;

/// Largest magnitude of a body-frame offset component (2^30 thousandths of a
/// pixel).
pub const OFFSET_LIMIT: i64 = 0x4000_0000;

/// A point of the world, in millionths of a pixel.
#[derive(PartialEq, Eq, Structural, Copy, Clone, Debug)]
pub struct Point {
    pub x: i64,
    pub y: i64,
}

/// An offset in a vehicle's own frame (`x` forward, `y` to the left), in
/// thousandths of a pixel.
#[derive(PartialEq, Eq, Structural, Copy, Clone, Debug)]
pub struct Offset {
    pub x: i64,
    pub y: i64,
}

/// A direction: the unit vector `(cos θ, sin θ)` of a heading θ, with each
/// component in thousandths.
#[derive(PartialEq, Eq, Structural, Copy, Clone, Debug)]
pub struct Direction {
    pub x: i64,
    pub y: i64,
}

impl View for Point {
    type V = (int, int);

    open spec fn view(&self) -> (int, int) {
        (self.x as int, self.y as int)
    }
}

/// `v` lies within `limit` of zero.
pub open spec fn within(v: int, limit: int) -> bool {
    -limit <= v <= limit
}

impl Point {
    /// Both coordinates lie within `COORD_LIMIT` of the origin.
    pub open spec fn in_range(self) -> bool {
        within(self.x as int, COORD_LIMIT as int) && within(self.y as int, COORD_LIMIT as int)
    }
}

impl Offset {
    /// Both components lie within `OFFSET_LIMIT`.
    pub open spec fn in_range(self) -> bool {
        within(self.x as int, OFFSET_LIMIT as int) && within(self.y as int, OFFSET_LIMIT as int)
    }
}

impl Direction {
    /// Both components lie within one unit, as those of a unit vector do.
    pub open spec fn in_range(self) -> bool {
        within(self.x as int, UNIT as int) && within(self.y as int, UNIT as int)
    }
}

/// The square of the Euclidean distance between `a` and `b`.
pub open spec fn squared_distance(a: (int, int), b: (int, int)) -> int {
    (b.0 - a.0) * (b.0 - a.0) + (b.1 - a.1) * (b.1 - a.1)
}

/// The integer square root of `n`: the largest `r` with `r * r <= n`.
pub open spec fn floor_sqrt(n: nat) -> nat
    decreases n,
{
    if n == 0 {
        0
    } else {
        let r = floor_sqrt((n - 1) as nat);
        if (r + 1) * (r + 1) <= n {
            r + 1
        } else {
            r
        }
    }
}

/// `r` is the integer square root of `n`.
pub open spec fn is_floor_sqrt(r: int, n: int) -> bool {
    0 <= r && r * r <= n < (r + 1) * (r + 1)
}

/// The distance between `a` and `b`, rounded down to a whole millionth.
pub open spec fn distance_between(a: (int, int), b: (int, int)) -> int {
    floor_sqrt(squared_distance(a, b) as nat) as int
}

/// `offset`, turned from the body frame into the world frame of a body
/// facing `facing`, in millionths of a pixel.
pub open spec fn rotated(offset: Offset, facing: Direction) -> (int, int) {
    (
        offset.x * facing.x - offset.y * facing.y,
        offset.y * facing.x + offset.x * facing.y,
    )
}

/// The world point at `offset` from a body at `origin` facing `facing`.
pub open spec fn composed(origin: (int, int), offset: Offset, facing: Direction) -> (int, int) {
    let t = rotated(offset, facing);
    (origin.0 + t.0, origin.1 + t.1)
}

pub proof fn lemma_floor_sqrt(n: nat)
    ensures
        is_floor_sqrt(floor_sqrt(n) as int, n as int),
    decreases n,
{
    if n > 0 {
        lemma_floor_sqrt((n - 1) as nat);
        let r = floor_sqrt((n - 1) as nat) as int;
        if (r + 1) * (r + 1) > n {
            assert(r * r <= n);
        } else {
            assert((r + 1) * (r + 1) == n);
            assert(n < (r + 2) * (r + 2)) by (nonlinear_arith)
                requires
                    (r + 1) * (r + 1) == n,
                    r >= 0,
            ;
        }
    }
}

/// The integer square root is the only `r` that brackets `n` between `r²`
/// and `(r + 1)²`.
pub proof fn lemma_floor_sqrt_unique(n: nat, r: int)
    requires
        is_floor_sqrt(r, n as int),
    ensures
        r == floor_sqrt(n) as int,
{
    lemma_floor_sqrt(n);
    let s = floor_sqrt(n) as int;
    if r < s {
        assert((r + 1) * (r + 1) <= s * s) by (nonlinear_arith)
            requires
                0 <= r < s,
        ;
    } else if s < r {
        assert((s + 1) * (s + 1) <= r * r) by (nonlinear_arith)
            requires
                0 <= s < r,
        ;
    }
}

/// The integer square root of `n`, by bisection.
pub fn isqrt(n: u128) -> (r: u64)
    requires
        n < 0x4000_0000_0000_0000_0000_0000_0000_0000,
    ensures
        r as int == floor_sqrt(n as nat),
        r < 0x8000_0000_0000_0000,
{
    let mut lo: u128 = 0;
    let mut hi: u128 = 0x8000_0000_0000_0000;
    assert(hi * hi == 0x4000_0000_0000_0000_0000_0000_0000_0000);
    while hi - lo > 1
        invariant
            lo < hi <= 0x8000_0000_0000_0000,
            lo * lo <= n,
            n < hi * hi,
        decreases hi - lo,
    {
        let mid: u128 = lo + (hi - lo) / 2;
        assert(mid * mid <= 0x4000_0000_0000_0000_0000_0000_0000_0000) by (nonlinear_arith)
            requires
                mid <= 0x8000_0000_0000_0000,
        ;
        if mid * mid <= n {
            lo = mid;
        } else {
            hi = mid;
        }
    }
    proof {
        lemma_floor_sqrt_unique(n as nat, lo as int);
    }
    lo as u64
}

/// The distance between `a` and `b`, rounded down to a whole millionth.
pub fn distance(a: Point, b: Point) -> (r: i64)
    requires
        within(a.x as int, 2 * COORD_LIMIT),
        within(a.y as int, 2 * COORD_LIMIT),
        within(b.x as int, 2 * COORD_LIMIT),
        within(b.y as int, 2 * COORD_LIMIT),
    ensures
        r == distance_between(a@, b@),
        0 <= r <= 0x6000_0000_0000_0000,
{
    let dx = (b.x as i128) - (a.x as i128);
    let dy = (b.y as i128) - (a.y as i128);
    assert(dx * dx <= 0x1000_0000_0000_0000_0000_0000_0000_0000) by (nonlinear_arith)
        requires
            within(dx as int, 0x4000_0000_0000_0000),
    ;
    assert(dy * dy <= 0x1000_0000_0000_0000_0000_0000_0000_0000) by (nonlinear_arith)
        requires
            within(dy as int, 0x4000_0000_0000_0000),
    ;
    assert(0 <= dx * dx && 0 <= dy * dy) by (nonlinear_arith);
    let squared = (dx * dx + dy * dy) as u128;
    let root = isqrt(squared);
    proof {
        lemma_floor_sqrt(squared as nat);
        let r = root as int;
        assert(r <= 0x6000_0000_0000_0000) by (nonlinear_arith)
            requires
                0 <= r,
                r * r <= squared,
                squared <= 0x2000_0000_0000_0000_0000_0000_0000_0000,
        ;
    }
    root as i64
}

/// Whether `pos_1` lies closer than `min_distance` to `pos_2`, compared on
/// squared distances so that no square root is taken.
pub fn closer_than(pos_1: Point, pos_2: Point, min_distance: i64) -> (r: bool)
    requires
        pos_1.in_range(),
        pos_2.in_range(),
        within(min_distance as int, COORD_LIMIT as int),
    ensures
        r == (squared_distance(pos_1@, pos_2@) < min_distance * min_distance),
{
    let dx = (pos_2.x as i128) - (pos_1.x as i128);
    let dy = (pos_2.y as i128) - (pos_1.y as i128);
    let m = min_distance as i128;
    assert(dx * dx <= 0x0400_0000_0000_0000_0000_0000_0000_0000) by (nonlinear_arith)
        requires
            within(dx as int, 0x2000_0000_0000_0000),
    ;
    assert(dy * dy <= 0x0400_0000_0000_0000_0000_0000_0000_0000) by (nonlinear_arith)
        requires
            within(dy as int, 0x2000_0000_0000_0000),
    ;
    assert(0 <= dx * dx && 0 <= dy * dy && 0 <= m * m) by (nonlinear_arith);
    assert(m * m <= 0x0100_0000_0000_0000_0000_0000_0000_0000) by (nonlinear_arith)
        requires
            within(m as int, 0x1000_0000_0000_0000),
    ;
    dx * dx + dy * dy < m * m
}

/// The world point at `offset` from a body at `origin` facing `facing`.
pub fn rotate_and_translate(origin: Point, offset: Offset, facing: Direction) -> (r: Point)
    requires
        origin.in_range(),
        offset.in_range(),
        facing.in_range(),
    ensures
        r@ == composed(origin@, offset, facing),
        within(r.x as int, 2 * COORD_LIMIT),
        within(r.y as int, 2 * COORD_LIMIT),
{
    proof {
        lemma_rotated_bound(offset, facing);
    }
    let x = origin.x + (offset.x * facing.x - offset.y * facing.y);
    let y = origin.y + (offset.y * facing.x + offset.x * facing.y);
    Point { x, y }
}

proof fn lemma_rotated_bound(offset: Offset, facing: Direction)
    requires
        offset.in_range(),
        facing.in_range(),
    ensures
        within(offset.x * facing.x, 0x100_0000_0000),
        within(offset.y * facing.y, 0x100_0000_0000),
        within(offset.y * facing.x, 0x100_0000_0000),
        within(offset.x * facing.y, 0x100_0000_0000),
{
    assert forall|a: int, b: int|
        within(a, OFFSET_LIMIT as int) && within(b, UNIT as int) implies within(
            a * b,
            0x100_0000_0000,
        ) by {
        assert(within(a * b, 0x100_0000_0000)) by (nonlinear_arith)
            requires
                within(a, 0x4000_0000),
                within(b, 1000),
        ;
    }
}

} // verus!

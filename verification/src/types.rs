//! Fixed-point geometry.
//!
//! A coordinate is an `i64` that counts thousandths of a pixel. Sums and
//! differences saturate at the ends of the `i64` range instead of wrapping.

use vstd::prelude::*;

verus! {

/// Coordinate units per pixel.
pub const UNIT: i64 = 1000;

/// `v` brought into the range of `i64`.
pub open spec fn clamp(v: int) -> i64 {
    if v < i64::MIN {
        i64::MIN
    } else if v > i64::MAX {
        i64::MAX
    } else {
        v as i64
    }
}

/// Saturating sum.
pub fn plus(a: i64, b: i64) -> (r: i64)
    ensures
        r == clamp(a + b),
{
    match a.checked_add(b) {
        Some(s) => s,
        None => if b > 0 {
            i64::MAX
        } else {
            i64::MIN
        },
    }
}

/// Saturating difference.
pub fn minus(a: i64, b: i64) -> (r: i64)
    ensures
        r == clamp(a - b),
{
    match a.checked_sub(b) {
        Some(s) => s,
        None => if b < 0 {
            i64::MAX
        } else {
            i64::MIN
        },
    }
}

/// A whole number of pixels as a coordinate.
pub fn pixels(n: i32) -> (r: i64)
    ensures
        r == n * UNIT,
{
    let wide: i64 = n as i64;
    wide * UNIT
}

/// `r` is the integer square root of `n`.
pub open spec fn is_root(n: nat, r: nat) -> bool {
    r * r <= n < (r + 1) * (r + 1)
}

/// The integer square root of `n`, rounded down.
pub open spec fn root(n: nat) -> nat {
    choose|r: nat| is_root(n, r)
}

/// A number has at most one integer square root.
pub proof fn lemma_root_unique(n: nat, a: nat, b: nat)
    requires
        is_root(n, a),
        is_root(n, b),
    ensures
        a == b,
{
    if a < b {
        assert((a + 1) * (a + 1) <= b * b) by (nonlinear_arith)
            requires
                a + 1 <= b,
        ;
    } else if b < a {
        assert((b + 1) * (b + 1) <= a * a) by (nonlinear_arith)
            requires
                b + 1 <= a,
        ;
    }
}

/// Integer square root by bisection.
pub fn isqrt(n: u128) -> (r: u64)
    ensures
        is_root(n as nat, r as nat),
        r == root(n as nat),
{
    let mut lo: u128 = 0;
    let mut hi: u128 = 0x1_0000_0000_0000_0000;
    assert(n < hi * hi) by (nonlinear_arith)
        requires
            hi == 0x1_0000_0000_0000_0000,
            n <= u128::MAX,
    ;
    while hi - lo > 1
        invariant
            lo < hi <= 0x1_0000_0000_0000_0000,
            lo * lo <= n < hi * hi,
        decreases hi - lo,
    {
        let mid: u128 = lo + (hi - lo) / 2;
        assert(mid * mid <= u128::MAX) by (nonlinear_arith)
            requires
                mid < 0x1_0000_0000_0000_0000,
        ;
        if mid * mid <= n {
            lo = mid;
        } else {
            hi = mid;
        }
    }
    proof {
        assert(hi == lo + 1);
        assert(is_root(n as nat, lo as nat));
        let c = root(n as nat);
        assert(is_root(n as nat, c));
        lemma_root_unique(n as nat, lo as nat, c);
    }
    lo as u64
}

/// One component `d` of a vector of length `len`, multiplied by `speed` and
/// divided by `len`, rounded toward zero. A vector of length zero has no
/// direction and stays zero.
pub open spec fn stretched(d: int, len: int, speed: int) -> int {
    if len == 0 {
        0
    } else if d >= 0 {
        (d * speed) / len
    } else {
        -((-d * speed) / len)
    }
}

/// The magnitude of a coordinate.
fn magnitude(d: i64) -> (r: u128)
    ensures
        r == (if d >= 0 { d as int } else { -d }),
{
    if d >= 0 {
        d as u128
    } else {
        let wide: i128 = d as i128;
        (-wide) as u128
    }
}

/// Computes [`stretched`] for a component that is no longer than `len`.
fn stretch(d: i64, len: u64, speed: u32) -> (r: i64)
    requires
        -len <= d <= len,
    ensures
        r == stretched(d as int, len as int, speed as int),
        -speed <= r <= speed,
{
    if len == 0 {
        return 0;
    }
    let m: u128 = magnitude(d);
    assert(m * speed <= len * speed <= u128::MAX) by (nonlinear_arith)
        requires
            m <= len,
            len <= u64::MAX,
            speed <= u32::MAX,
    ;
    let q: u128 = (m * (speed as u128)) / (len as u128);
    assert(q <= speed) by (nonlinear_arith)
        requires
            q == (m * speed) / (len as int),
            m * speed <= len * speed,
            len > 0,
    ;
    if d >= 0 {
        q as i64
    } else {
        -(q as i64)
    }
}

/// A displacement, velocity or acceleration.
#[derive(Clone, Copy, Debug, PartialEq, Eq, Structural)]
pub struct Vector2 {
    pub x: i64,
    pub y: i64,
}

/// A place in the play area. `x` grows to the right and `y` grows downward.
#[derive(Clone, Copy, Debug, PartialEq, Eq, Structural)]
pub struct Point2 {
    pub x: i64,
    pub y: i64,
}

impl Vector2 {
    /// The sum of two vectors.
    pub open spec fn sum(self, other: Vector2) -> Vector2 {
        Vector2 { x: clamp(self.x + other.x), y: clamp(self.y + other.y) }
    }

    /// The length of the vector, rounded down.
    pub open spec fn length(self) -> nat {
        root((self.x * self.x + self.y * self.y) as nat)
    }

    /// The vector with each component multiplied by `speed` and divided by
    /// the length of the vector. It points the same way, and for a long
    /// vector its length is about `speed`. The length that divides is rounded
    /// down, so a short vector comes out longer than `speed`: (1, 1) has
    /// length 1 and becomes (`speed`, `speed`).
    pub open spec fn resized(self, speed: u32) -> Vector2 {
        Vector2 {
            x: stretched(self.x as int, self.length() as int, speed as int) as i64,
            y: stretched(self.y as int, self.length() as int, speed as int) as i64,
        }
    }

    /// The vector with the components `x` and `y`.
    pub fn new(x: i64, y: i64) -> (v: Vector2)
        ensures
            v == (Vector2 { x, y }),
    {
        Vector2 { x, y }
    }

    /// Adds two vectors.
    pub fn combine(self, other: Vector2) -> (v: Vector2)
        ensures
            v == self.sum(other),
    {
        Vector2 { x: plus(self.x, other.x), y: plus(self.y, other.y) }
    }

    /// Divides the vector by its length, rounded down, and multiplies it by
    /// `speed`.
    pub fn resize(self, speed: u32) -> (v: Vector2)
        ensures
            v == self.resized(speed),
            -speed <= v.x <= speed,
            -speed <= v.y <= speed,
    {
        let mx: u128 = magnitude(self.x);
        let my: u128 = magnitude(self.y);
        assert(mx * mx + my * my <= u128::MAX && mx * mx == self.x * self.x && my * my
            == self.y * self.y) by (nonlinear_arith)
            requires
                mx == (if self.x >= 0 { self.x as int } else { -self.x }),
                my == (if self.y >= 0 { self.y as int } else { -self.y }),
                mx <= 0x8000_0000_0000_0000,
                my <= 0x8000_0000_0000_0000,
        ;
        let len: u64 = isqrt(mx * mx + my * my);
        assert(mx <= len && my <= len) by (nonlinear_arith)
            requires
                mx * mx + my * my < (len + 1) * (len + 1),
                mx >= 0,
                my >= 0,
                len >= 0,
        ;
        Vector2 { x: stretch(self.x, len, speed), y: stretch(self.y, len, speed) }
    }
}

impl Point2 {
    /// The point reached from `self` by the displacement `v`.
    pub open spec fn moved(self, v: Vector2) -> Point2 {
        Point2 { x: clamp(self.x + v.x), y: clamp(self.y + v.y) }
    }

    /// The displacement that leads from `origin` to `self`.
    pub open spec fn offset_from(self, origin: Point2) -> Vector2 {
        Vector2 { x: clamp(self.x - origin.x), y: clamp(self.y - origin.y) }
    }

    /// The point with the coordinates `x` and `y`.
    pub fn new(x: i64, y: i64) -> (p: Point2)
        ensures
            p == (Point2 { x, y }),
    {
        Point2 { x, y }
    }

    /// Moves the point by `v`.
    pub fn shift(self, v: Vector2) -> (p: Point2)
        ensures
            p == self.moved(v),
    {
        Point2 { x: plus(self.x, v.x), y: plus(self.y, v.y) }
    }

    /// The way from `origin` to the point.
    pub fn offset(self, origin: Point2) -> (v: Vector2)
        ensures
            v == self.offset_from(origin),
    {
        Vector2 { x: minus(self.x, origin.x), y: minus(self.y, origin.y) }
    }
}

/// A point given in whole pixels.
pub fn point2(x: i32, y: i32) -> (p: Point2)
    ensures
        p == (Point2 { x: (x * UNIT) as i64, y: (y * UNIT) as i64 }),
{
    Point2 { x: pixels(x), y: pixels(y) }
}

} // verus!

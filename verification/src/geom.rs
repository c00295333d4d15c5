//! Vectors, axis-aligned rectangles and circles on the integer grid, with the
//! containment and overlap tests between them.

use vstd::prelude::*;
use crate::game_constants::SCALE;

verus! {

/// A point or a displacement.
#[derive(Clone, Copy, Debug, PartialEq, Eq, Structural)]
pub struct Vector {
    pub x: i64,
    pub y: i64,
}

/// An axis-aligned rectangle: its top-left corner and its size.
#[derive(Clone, Copy, Debug, PartialEq, Eq, Structural)]
pub struct Rectangle {
    pub pos: Vector,
    pub size: Vector,
}

/// The value of `lo..=hi` nearest to `v`; `hi` wins where the bounds cross.
pub open spec fn clamp(v: int, lo: int, hi: int) -> int {
    let m = if lo > v { lo } else { v };
    if hi < m { hi } else { m }
}

/// Square of the distance from `(px, py)` to the nearest point of `r`.
pub open spec fn dist2_to_rect(px: int, py: int, r: Rectangle) -> int {
    let dx = clamp(px, r.pos.x as int, r.pos.x + r.size.x) - px;
    let dy = clamp(py, r.pos.y as int, r.pos.y + r.size.y) - py;
    dx * dx + dy * dy
}

/// The quotient of `a` by a positive `b`, rounded towards zero.
pub open spec fn div_trunc(a: int, b: int) -> int {
    if a >= 0 {
        a / b
    } else {
        -((-a) / b)
    }
}

/// `r` is the square root of `n`, rounded down.
pub open spec fn is_sqrt(n: int, r: int) -> bool {
    0 <= r && r * r <= n < (r + 1) * (r + 1)
}

/// The square root of `n`, rounded down.
pub open spec fn isqrt(n: int) -> int {
    choose|r: int| is_sqrt(n, r)
}

/// A number has one rounded square root.
pub proof fn lemma_sqrt_unique(n: int, r: int, s: int)
    requires
        is_sqrt(n, r),
        is_sqrt(n, s),
    ensures
        r == s,
{
    if r < s {
        assert((r + 1) * (r + 1) <= s * s) by (nonlinear_arith)
            requires
                0 <= r + 1 <= s,
        ;
    }
    if s < r {
        assert((s + 1) * (s + 1) <= r * r) by (nonlinear_arith)
            requires
                0 <= s + 1 <= r,
        ;
    }
}

/// The square root of `n`, rounded down.
pub fn integer_sqrt(n: u128) -> (r: u64)
    ensures
        is_sqrt(n as int, r as int),
        r == isqrt(n as int),
{
    let mut lo: u128 = 0;
    let mut hi: u128 = 0x1_0000_0000_0000_0000;
    assert(0x1_0000_0000_0000_0000int * 0x1_0000_0000_0000_0000int
        == 0x1_0000_0000_0000_0000_0000_0000_0000_0000int) by (nonlinear_arith);
    while hi - lo > 1
        invariant
            lo < hi <= 0x1_0000_0000_0000_0000,
            lo * lo <= n < hi * hi,
        decreases hi - lo,
    {
        let mid: u128 = lo + (hi - lo) / 2;
        assert(mid * mid <= 0xffff_ffff_ffff_ffff * 0xffff_ffff_ffff_ffff) by (nonlinear_arith)
            requires
                0 <= mid <= 0xffff_ffff_ffff_ffff,
        ;
        if mid * mid <= n {
            lo = mid;
        } else {
            hi = mid;
        }
    }
    proof {
        assert(hi == lo + 1);
        lemma_sqrt_unique(n as int, lo as int, isqrt(n as int));
    }
    lo as u64
}

/// Vectors with no component beyond this have their length taken to a
/// millionth of a unit when they are normalized.
pub const FINE_MAX: i64 = 1_000_000_000_000;

/// The factor by which a vector is scaled up before its length is taken.
pub open spec fn refinement(v: (int, int)) -> int {
    if abs(v.0) <= FINE_MAX && abs(v.1) <= FINE_MAX {
        SCALE as int
    } else {
        1
    }
}

/// The direction of `v`: `v` scaled to length `SCALE`, each component
/// rounded towards zero. The length is the rounded square root of the sum
/// of the squares, taken of the vector scaled up by its refinement.
pub open spec fn normalized(v: (int, int)) -> (int, int) {
    let a = v.0 * refinement(v);
    let b = v.1 * refinement(v);
    let len = isqrt(a * a + b * b);
    (div_trunc(a * SCALE, len), div_trunc(b * SCALE, len))
}

/// The magnitude of `a`.
pub open spec fn abs(a: int) -> int {
    if a >= 0 {
        a
    } else {
        -a
    }
}

/// `d` has length `SCALE` to within three units.
pub open spec fn is_direction(d: (int, int)) -> bool {
    &&& abs(d.0) <= SCALE
    &&& abs(d.1) <= SCALE
    &&& (SCALE - 3) * (SCALE - 3) <= d.0 * d.0 + d.1 * d.1 < (SCALE + 1) * (SCALE + 1)
}

/// A direction is not the zero vector: its components together reach
/// `SCALE` but for three units.
pub proof fn lemma_direction_reach(d: (int, int))
    requires
        is_direction(d),
    ensures
        abs(d.0) + abs(d.1) >= SCALE - 3,
{
    let a = abs(d.0);
    let b = abs(d.1);
    assert(a * a == d.0 * d.0 && b * b == d.1 * d.1) by (nonlinear_arith)
        requires
            a == d.0 || a == -d.0,
            b == d.1 || b == -d.1,
    ;
    if a + b < SCALE - 3 {
        assert(a * a + b * b <= (a + b) * (a + b)) by (nonlinear_arith)
            requires
                a >= 0,
                b >= 0,
        ;
        assert((a + b) * (a + b) < (SCALE - 3) * (SCALE - 3)) by (nonlinear_arith)
            requires
                0 <= a + b < SCALE - 3,
        ;
    }
}

/// The two level directions are directions.
pub proof fn lemma_level_directions()
    ensures
        is_direction((SCALE as int, 0int)),
        is_direction((-SCALE as int, 0int)),
{
    assert((SCALE - 3) * (SCALE - 3) <= SCALE * SCALE < (SCALE + 1) * (SCALE + 1)) by (nonlinear_arith)
        requires
            SCALE == 1_000_000,
    ;
    assert((-SCALE) * (-SCALE) == SCALE * SCALE) by (nonlinear_arith);
}

proof fn lemma_square_lt(u: int, v: int)
    requires
        0 <= u < v,
    ensures
        u * u < v * v,
{
    assert(u * u < v * v) by (nonlinear_arith)
        requires
            0 <= u < v,
    ;
}

proof fn lemma_square_le(u: int, v: int)
    requires
        0 <= u <= v,
    ensures
        u * u <= v * v,
{
    assert(u * u <= v * v) by (nonlinear_arith)
        requires
            0 <= u <= v,
    ;
}

/// The quotients of `a * s` and `b * s` by the rounded root of `a * a + b * b`
/// make a vector of length `s` to within three.
proof fn lemma_quotients_length(a: int, b: int, r: int, qx: int, qy: int, s: int)
    requires
        s >= 6,
        0 <= a,
        0 <= b,
        r >= s,
        r * r <= a * a + b * b < (r + 1) * (r + 1),
        0 <= qx <= s,
        0 <= qy <= s,
        r * qx <= a * s < r * qx + r,
        r * qy <= b * s < r * qy + r,
    ensures
        (s - 3) * (s - 3) <= qx * qx + qy * qy < (s + 1) * (s + 1),
{
    let big = a * a + b * b;
    let q = qx * qx + qy * qy;
    let sb = s * s * big;
    assert((a * s) * (a * s) + (b * s) * (b * s) == sb) by (nonlinear_arith)
        requires
            big == a * a + b * b,
            sb == s * s * big,
    ;
    // Not longer than s + 1.
    lemma_square_le(r * qx, a * s);
    lemma_square_le(r * qy, b * s);
    let rq = r * r * q;
    assert((r * qx) * (r * qx) + (r * qy) * (r * qy) == rq) by (nonlinear_arith)
        requires
            q == qx * qx + qy * qy,
            rq == r * r * q,
    ;
    let top = s * s * ((r + 1) * (r + 1));
    assert(sb < top) by (nonlinear_arith)
        requires
            sb == s * s * big,
            top == s * s * ((r + 1) * (r + 1)),
            big < (r + 1) * (r + 1),
            s >= 1,
    ;
    if q >= (s + 1) * (s + 1) {
        let low = r * r * ((s + 1) * (s + 1));
        assert(rq >= low) by (nonlinear_arith)
            requires
                rq == r * r * q,
                low == r * r * ((s + 1) * (s + 1)),
                q >= (s + 1) * (s + 1),
        ;
        assert(0 <= s * (r + 1) <= r * (s + 1)) by (nonlinear_arith)
            requires
                r >= s,
                s >= 0,
        ;
        lemma_square_le(s * (r + 1), r * (s + 1));
        assert((r * (s + 1)) * (r * (s + 1)) == low && (s * (r + 1)) * (s * (r + 1)) == top)
            by (nonlinear_arith)
            requires
                low == r * r * ((s + 1) * (s + 1)),
                top == s * s * ((r + 1) * (r + 1)),
        ;
    }
    // Not shorter than s - 3.
    assert(0 <= a * s && 0 <= b * s) by (nonlinear_arith)
        requires
            a >= 0,
            b >= 0,
            s >= 0,
    ;
    assert(r * (qx + 1) == r * qx + r && r * (qy + 1) == r * qy + r) by (nonlinear_arith);
    lemma_square_lt(a * s, r * (qx + 1));
    lemma_square_lt(b * s, r * (qy + 1));
    let p = (qx + 1) * (qx + 1) + (qy + 1) * (qy + 1);
    let rp = r * r * p;
    assert((r * (qx + 1)) * (r * (qx + 1)) + (r * (qy + 1)) * (r * (qy + 1)) == rp)
        by (nonlinear_arith)
        requires
            p == (qx + 1) * (qx + 1) + (qy + 1) * (qy + 1),
            rp == r * r * p,
    ;
    let floor = s * s * (r * r);
    assert(sb >= floor) by (nonlinear_arith)
        requires
            sb == s * s * big,
            floor == s * s * (r * r),
            big >= r * r,
    ;
    assert(p > s * s) by (nonlinear_arith)
        requires
            rp == r * r * p,
            floor == s * s * (r * r),
            rp > floor,
            r >= 1,
    ;
    assert(p == q + 2 * qx + 2 * qy + 2) by (nonlinear_arith)
        requires
            p == (qx + 1) * (qx + 1) + (qy + 1) * (qy + 1),
            q == qx * qx + qy * qy,
    ;
    assert((s - 3) * (s - 3) == s * s - 6 * s + 9) by (nonlinear_arith);
}

fn magnitude64(v: i64) -> (m: u128)
    ensures
        m == abs(v as int),
        m <= 0x8000_0000_0000_0000,
{
    if v >= 0 {
        v as u128
    } else {
        (-(v as i128)) as u128
    }
}

/// `a * SCALE / len` for a magnitude `a` that does not exceed `len`.
fn scaled_part(a: u128, len: u128) -> (q: u128)
    requires
        a <= len <= 0xffff_ffff_ffff_ffff,
        len > 0,
    ensures
        q == (a * SCALE) / (len as int),
        q <= SCALE,
        len * q <= a * SCALE < len * q + len,
{
    let p: u128 = a * (SCALE as u128);
    let q: u128 = p / len;
    proof {
        vstd::arithmetic::div_mod::lemma_fundamental_div_mod(p as int, len as int);
        vstd::arithmetic::div_mod::lemma_mod_bound(p as int, len as int);
        assert(len * q <= len * SCALE) by (nonlinear_arith)
            requires
                len * q <= a * SCALE,
                a <= len,
                SCALE >= 0,
        ;
        assert(q <= SCALE) by (nonlinear_arith)
            requires
                len * q <= len * SCALE,
                len > 0,
        ;
    }
    q
}

impl View for Vector {
    type V = (int, int);

    open spec fn view(&self) -> (int, int) {
        (self.x as int, self.y as int)
    }
}

impl Vector {
    pub fn new(x: i64, y: i64) -> (v: Vector)
        ensures
            v.x == x,
            v.y == y,
    {
        Vector { x, y }
    }
}

impl Vector {
    /// The direction of the vector, which must not be the zero vector.
    pub fn normalize(self) -> (r: Vector)
        requires
            self@ != (0int, 0int),
        ensures
            r@ == normalized(self@),
            is_direction(r@),
            self.x >= 0 ==> r.x >= 0,
            self.x <= 0 ==> r.x <= 0,
            self.y >= 0 ==> r.y >= 0,
            self.y <= 0 ==> r.y <= 0,
    {
        let ax = magnitude64(self.x);
        let ay = magnitude64(self.y);
        let t: u128 = if ax <= FINE_MAX as u128 && ay <= FINE_MAX as u128 {
            SCALE as u128
        } else {
            1
        };
        let a: u128 = ax * t;
        let b: u128 = ay * t;
        assert(a <= 0x8000_0000_0000_0000 && b <= 0x8000_0000_0000_0000);
        assert(a * a <= 0x8000_0000_0000_0000 * 0x8000_0000_0000_0000) by (nonlinear_arith)
            requires
                0 <= a <= 0x8000_0000_0000_0000,
        ;
        assert(b * b <= 0x8000_0000_0000_0000 * 0x8000_0000_0000_0000) by (nonlinear_arith)
            requires
                0 <= b <= 0x8000_0000_0000_0000,
        ;
        let big: u128 = a * a + b * b;
        let len = integer_sqrt(big) as u128;
        proof {
            let sa = self.x * refinement(self@);
            let sb = self.y * refinement(self@);
            assert(t == refinement(self@));
            assert((a == sa || a == -sa) && (b == sb || b == -sb)) by (nonlinear_arith)
                requires
                    a == ax * t,
                    b == ay * t,
                    sa == self.x * t,
                    sb == self.y * t,
                    ax == self.x || ax == -self.x,
                    ay == self.y || ay == -self.y,
            ;
            assert(a * a == sa * sa) by (nonlinear_arith)
                requires
                    a == sa || a == -sa,
            ;
            assert(b * b == sb * sb) by (nonlinear_arith)
                requires
                    b == sb || b == -sb,
            ;
            assert(a >= t || b >= t);
            assert(big >= t * t) by (nonlinear_arith)
                requires
                    big == a * a + b * b,
                    a >= t || b >= t,
                    a >= 0,
                    b >= 0,
                    t >= 0,
            ;
            if t == 1 {
                assert(big > 1_000_000_000_000 * 1_000_000_000_000) by (nonlinear_arith)
                    requires
                        big == a * a + b * b,
                        a > 1_000_000_000_000 || b > 1_000_000_000_000,
                        a >= 0,
                        b >= 0,
                ;
                assert(len >= 1_000_000_000_000) by (nonlinear_arith)
                    requires
                        big > 1_000_000_000_000 * 1_000_000_000_000,
                        big < (len + 1) * (len + 1),
                        len >= 0,
                ;
            } else {
                assert(len >= 1_000_000) by (nonlinear_arith)
                    requires
                        big >= 1_000_000 * 1_000_000,
                        big < (len + 1) * (len + 1),
                        len >= 0,
                ;
            }
            assert(a <= len) by (nonlinear_arith)
                requires
                    a * a <= big,
                    big < (len + 1) * (len + 1),
                    a >= 0,
                    len >= 0,
            ;
            assert(b <= len) by (nonlinear_arith)
                requires
                    b * b <= big,
                    big < (len + 1) * (len + 1),
                    b >= 0,
                    len >= 0,
            ;
        }
        let qx = scaled_part(a, len);
        let qy = scaled_part(b, len);
        proof {
            lemma_quotients_length(
                a as int,
                b as int,
                len as int,
                qx as int,
                qy as int,
                SCALE as int,
            );
            let sa = self.x * refinement(self@);
            let sb = self.y * refinement(self@);
            assert((a == sa || a == -sa) && (b == sb || b == -sb)) by (nonlinear_arith)
                requires
                    a == ax * t,
                    b == ay * t,
                    sa == self.x * t,
                    sb == self.y * t,
                    ax == self.x || ax == -self.x,
                    ay == self.y || ay == -self.y,
            ;
            assert(self.x >= 0 ==> a == sa) by (nonlinear_arith)
                requires
                    a == ax * t,
                    sa == self.x * t,
                    self.x >= 0 ==> ax == self.x,
            ;
            assert(self.x < 0 ==> a == -sa && sa < 0) by (nonlinear_arith)
                requires
                    a == ax * t,
                    sa == self.x * t,
                    self.x < 0 ==> ax == -self.x,
                    t >= 1,
            ;
            assert(self.y >= 0 ==> b == sb) by (nonlinear_arith)
                requires
                    b == ay * t,
                    sb == self.y * t,
                    self.y >= 0 ==> ay == self.y,
            ;
            assert(self.y < 0 ==> b == -sb && sb < 0) by (nonlinear_arith)
                requires
                    b == ay * t,
                    sb == self.y * t,
                    self.y < 0 ==> ay == -self.y,
                    t >= 1,
            ;
            assert((-sa) * SCALE == -(sa * SCALE)) by (nonlinear_arith);
            assert((-sb) * SCALE == -(sb * SCALE)) by (nonlinear_arith);
            assert((-(qx as int)) * (-(qx as int)) == qx * qx) by (nonlinear_arith);
            assert((-(qy as int)) * (-(qy as int)) == qy * qy) by (nonlinear_arith);
        }
        Vector {
            x: if self.x >= 0 { qx as i64 } else { -(qx as i64) },
            y: if self.y >= 0 { qy as i64 } else { -(qy as i64) },
        }
    }
}

impl Rectangle {
    /// Sides are not negative and the far corner is representable.
    pub open spec fn wf(self) -> bool {
        &&& self.size.x >= 0
        &&& self.size.y >= 0
        &&& self.pos.x + self.size.x <= i64::MAX
        &&& self.pos.y + self.size.y <= i64::MAX
    }

    /// The point `(px, py)` lies in the rectangle, its right and lower edges excluded.
    pub open spec fn contains_point(self, px: int, py: int) -> bool {
        &&& self.pos.x <= px < self.pos.x + self.size.x
        &&& self.pos.y <= py < self.pos.y + self.size.y
    }

    /// Every point of `self` is a point of `outer`.
    pub open spec fn within(self, outer: Rectangle) -> bool {
        &&& outer.pos.x <= self.pos.x
        &&& outer.pos.y <= self.pos.y
        &&& self.pos.x + self.size.x <= outer.pos.x + outer.size.x
        &&& self.pos.y + self.size.y <= outer.pos.y + outer.size.y
    }

    /// The centre, rounded towards the top-left corner.
    pub open spec fn center_spec(self) -> Vector {
        Vector { x: (self.pos.x + self.size.x / 2) as i64, y: (self.pos.y + self.size.y / 2) as i64 }
    }

    pub fn new(pos: Vector, size: Vector) -> (r: Rectangle)
        ensures
            r.pos == pos,
            r.size == size,
    {
        Rectangle { pos, size }
    }

    pub fn center(&self) -> (c: Vector)
        requires
            self.wf(),
        ensures
            c == self.center_spec(),
            c.x == self.pos.x + self.size.x / 2,
            c.y == self.pos.y + self.size.y / 2,
    {
        Vector { x: self.pos.x + self.size.x / 2, y: self.pos.y + self.size.y / 2 }
    }

    pub fn contains(&self, point: Vector) -> (b: bool)
        ensures
            b == self.contains_point(point.x as int, point.y as int),
    {
        point.x >= self.pos.x && point.y >= self.pos.y
            && (point.x as i128) < self.pos.x as i128 + self.size.x as i128
            && (point.y as i128) < self.pos.y as i128 + self.size.y as i128
    }
}

} // verus!

//! The circle: a projectile, or the splash of an explosion.

use vstd::prelude::*;
use vstd::std_specs::cmp::PartialEqSpecImpl;
use crate::geom::{clamp, dist2_to_rect, Rectangle, Vector};

verus! {

/// Two lengths closer than this count as equal when circles are compared.
pub const ABOUT_EQUAL: i64 = 100;

/// A circle: its centre and its radius.
#[derive(Clone, Copy, Debug)]
pub struct CircleF {
    pub pos: Vector,
    pub radius: i64,
}

/// The two lengths differ by less than `ABOUT_EQUAL`.
pub open spec fn about_equal_spec(a: i64, b: i64) -> bool {
    -ABOUT_EQUAL < a - b < ABOUT_EQUAL
}

pub fn about_equal(a: i64, b: i64) -> (r: bool)
    ensures
        r == about_equal_spec(a, b),
{
    let d: i128 = a as i128 - b as i128;
    -(ABOUT_EQUAL as i128) < d && d < ABOUT_EQUAL as i128
}

/// Distance between two coordinates.
pub open spec fn gap(a: int, b: int) -> int {
    if a >= b { a - b } else { b - a }
}

/// Distance from `p` to the farther of `lo` and `hi`.
pub open spec fn farther(p: int, lo: int, hi: int) -> int {
    if gap(lo, p) >= gap(hi, p) { gap(lo, p) } else { gap(hi, p) }
}

fn gap_wide(a: i128, b: i128) -> (d: u128)
    requires
        -0x2_0000_0000_0000_0000 <= a <= 0x2_0000_0000_0000_0000,
        -0x2_0000_0000_0000_0000 <= b <= 0x2_0000_0000_0000_0000,
    ensures
        d == gap(a as int, b as int),
{
    if a >= b { (a - b) as u128 } else { (b - a) as u128 }
}

/// The value of `lo..=lo + len` nearest to `v`, as the clamp of the geometry module.
fn nearest(v: i64, lo: i64, len: i64) -> (n: i128)
    ensures
        n == clamp(v as int, lo as int, lo + len),
        -0x1_0000_0000_0000_0000 <= n <= 0x1_0000_0000_0000_0000,
{
    let hi: i128 = lo as i128 + len as i128;
    let m: i128 = if lo > v { lo as i128 } else { v as i128 };
    if hi < m { hi } else { m }
}

/// Whether `dx * dx + dy * dy < r * r`, for magnitudes of any size.
fn within_radius(dx: u128, dy: u128, r: u128) -> (b: bool)
    requires
        r <= 0x8000_0000_0000_0000,
    ensures
        b == (dx * dx + dy * dy < r * r),
{
    if dx >= r || dy >= r {
        assert(dx * dx + dy * dy >= r * r) by (nonlinear_arith)
            requires
                dx >= r || dy >= r,
                dx >= 0,
                dy >= 0,
                r >= 0,
        ;
        false
    } else {
        assert(dx * dx <= 0x7fff_ffff_ffff_ffff * 0x7fff_ffff_ffff_ffff) by (nonlinear_arith)
            requires
                0 <= dx <= 0x7fff_ffff_ffff_ffff,
        ;
        assert(dy * dy <= 0x7fff_ffff_ffff_ffff * 0x7fff_ffff_ffff_ffff) by (nonlinear_arith)
            requires
                0 <= dy <= 0x7fff_ffff_ffff_ffff,
        ;
        assert(r * r <= 0x8000_0000_0000_0000 * 0x8000_0000_0000_0000) by (nonlinear_arith)
            requires
                0 <= r <= 0x8000_0000_0000_0000,
        ;
        dx * dx + dy * dy < r * r
    }
}

fn magnitude(v: i64) -> (m: u128)
    ensures
        m == gap(v as int, 0),
        m <= 0x8000_0000_0000_0000,
{
    if v >= 0 { v as u128 } else { (-(v as i128)) as u128 }
}

impl CircleF {
    /// The radius is not negative.
    pub open spec fn wf(self) -> bool {
        self.radius >= 0
    }

    /// The point lies strictly inside the circle.
    pub open spec fn contains_point(self, px: int, py: int) -> bool {
        (px - self.pos.x) * (px - self.pos.x) + (py - self.pos.y) * (py - self.pos.y)
            < self.radius * self.radius
    }

    /// The two circles share area: their centres are closer than the sum of their radii.
    pub open spec fn overlaps_circle_spec(self, c: CircleF) -> bool {
        (self.pos.x - c.pos.x) * (self.pos.x - c.pos.x) + (self.pos.y - c.pos.y) * (self.pos.y
            - c.pos.y) < (self.radius + c.radius) * (self.radius + c.radius)
    }

    /// The circle shares area with the rectangle: the rectangle's point nearest
    /// to the centre lies strictly inside the circle.
    pub open spec fn overlaps_rect(self, r: Rectangle) -> bool {
        dist2_to_rect(self.pos.x as int, self.pos.y as int, r) < self.radius * self.radius
    }

    /// Every point of the rectangle lies strictly inside the circle: the
    /// corner farthest from the centre does.
    pub open spec fn covers(self, r: Rectangle) -> bool {
        let fx = farther(self.pos.x as int, r.pos.x as int, r.pos.x + r.size.x);
        let fy = farther(self.pos.y as int, r.pos.y as int, r.pos.y + r.size.y);
        fx * fx + fy * fy < self.radius * self.radius
    }

    /// The square around the circle.
    pub open spec fn bounding_box_spec(self) -> Rectangle {
        Rectangle {
            pos: Vector {
                x: (self.pos.x - self.radius) as i64,
                y: (self.pos.y - self.radius) as i64,
            },
            size: Vector { x: (2 * self.radius) as i64, y: (2 * self.radius) as i64 },
        }
    }

    pub fn new(pos: Vector, radius: i64) -> (c: CircleF)
        ensures
            c.pos == pos,
            c.radius == radius,
    {
        CircleF { pos, radius }
    }

    pub fn contains(&self, v: Vector) -> (b: bool)
        ensures
            b == self.contains_point(v.x as int, v.y as int),
    {
        let dx = gap_wide(v.x as i128, self.pos.x as i128);
        let dy = gap_wide(v.y as i128, self.pos.y as i128);
        let r = magnitude(self.radius);
        assert(dx * dx == (v.x - self.pos.x) * (v.x - self.pos.x)) by (nonlinear_arith)
            requires
                dx == v.x - self.pos.x || dx == self.pos.x - v.x,
        ;
        assert(dy * dy == (v.y - self.pos.y) * (v.y - self.pos.y)) by (nonlinear_arith)
            requires
                dy == v.y - self.pos.y || dy == self.pos.y - v.y,
        ;
        assert(r * r == self.radius * self.radius) by (nonlinear_arith)
            requires
                r == self.radius || r == -self.radius,
        ;
        within_radius(dx, dy, r)
    }

    pub fn overlaps_circle(&self, c: &CircleF) -> (b: bool)
        requires
            self.wf(),
            c.wf(),
            self.radius + c.radius <= i64::MAX,
        ensures
            b == self.overlaps_circle_spec(*c),
    {
        let dx = gap_wide(self.pos.x as i128, c.pos.x as i128);
        let dy = gap_wide(self.pos.y as i128, c.pos.y as i128);
        let r = magnitude(self.radius + c.radius);
        assert(dx * dx == (self.pos.x - c.pos.x) * (self.pos.x - c.pos.x)) by (nonlinear_arith)
            requires
                dx == self.pos.x - c.pos.x || dx == c.pos.x - self.pos.x,
        ;
        assert(dy * dy == (self.pos.y - c.pos.y) * (self.pos.y - c.pos.y)) by (nonlinear_arith)
            requires
                dy == self.pos.y - c.pos.y || dy == c.pos.y - self.pos.y,
        ;
        within_radius(dx, dy, r)
    }

    /// Whether the circle shares area with `rect`.
    pub fn overlaps(&self, rect: &Rectangle) -> (b: bool)
        ensures
            b == self.overlaps_rect(*rect),
    {
        rect.overlaps_circle(self)
    }

    pub fn center(&self) -> (c: Vector)
        ensures
            c == self.pos,
    {
        self.pos
    }

    pub fn bounding_box(&self) -> (r: Rectangle)
        requires
            self.wf(),
            i64::MIN <= self.pos.x - self.radius,
            i64::MIN <= self.pos.y - self.radius,
            2 * self.radius <= i64::MAX,
        ensures
            r == self.bounding_box_spec(),
            r.pos.x == self.pos.x - self.radius,
            r.pos.y == self.pos.y - self.radius,
            r.size.x == 2 * self.radius,
            r.size.y == 2 * self.radius,
    {
        Rectangle {
            pos: Vector { x: self.pos.x - self.radius, y: self.pos.y - self.radius },
            size: Vector { x: 2 * self.radius, y: 2 * self.radius },
        }
    }

    /// The circle moved by `v`.
    pub fn translate(&self, v: Vector) -> (c: CircleF)
        requires
            i64::MIN <= self.pos.x + v.x <= i64::MAX,
            i64::MIN <= self.pos.y + v.y <= i64::MAX,
        ensures
            c.pos.x == self.pos.x + v.x,
            c.pos.y == self.pos.y + v.y,
            c.radius == self.radius,
    {
        CircleF { pos: Vector { x: self.pos.x + v.x, y: self.pos.y + v.y }, radius: self.radius }
    }
}

impl Rectangle {
    /// Whether the rectangle shares area with the circle `c`.
    pub fn overlaps_circle(&self, c: &CircleF) -> (b: bool)
        ensures
            b == c.overlaps_rect(*self),
    {
        let nx = nearest(c.pos.x, self.pos.x, self.size.x);
        let ny = nearest(c.pos.y, self.pos.y, self.size.y);
        let dx = gap_wide(nx, c.pos.x as i128);
        let dy = gap_wide(ny, c.pos.y as i128);
        let r = magnitude(c.radius);
        assert(dx * dx == (nx - c.pos.x) * (nx - c.pos.x)) by (nonlinear_arith)
            requires
                dx == nx - c.pos.x || dx == c.pos.x - nx,
        ;
        assert(dy * dy == (ny - c.pos.y) * (ny - c.pos.y)) by (nonlinear_arith)
            requires
                dy == ny - c.pos.y || dy == c.pos.y - ny,
        ;
        assert(r * r == c.radius * c.radius) by (nonlinear_arith)
            requires
                r == c.radius || r == -c.radius,
        ;
        within_radius(dx, dy, r)
    }
}

/// A circle that shares area with a rectangle shares area with every
/// rectangle around it.
pub proof fn lemma_overlap_grows(c: CircleF, inner: Rectangle, outer: Rectangle)
    requires
        inner.wf(),
        inner.within(outer),
        c.overlaps_rect(inner),
    ensures
        c.overlaps_rect(outer),
{
    let px = c.pos.x as int;
    let py = c.pos.y as int;
    let ix = gap(clamp(px, inner.pos.x as int, inner.pos.x + inner.size.x), px);
    let iy = gap(clamp(py, inner.pos.y as int, inner.pos.y + inner.size.y), py);
    let ox = gap(clamp(px, outer.pos.x as int, outer.pos.x + outer.size.x), px);
    let oy = gap(clamp(py, outer.pos.y as int, outer.pos.y + outer.size.y), py);
    assert(0 <= ox <= ix);
    assert(0 <= oy <= iy);
    lemma_square_le(ox, ix);
    lemma_square_le(oy, iy);
    lemma_square_gap(clamp(px, inner.pos.x as int, inner.pos.x + inner.size.x), px);
    lemma_square_gap(clamp(py, inner.pos.y as int, inner.pos.y + inner.size.y), py);
    lemma_square_gap(clamp(px, outer.pos.x as int, outer.pos.x + outer.size.x), px);
    lemma_square_gap(clamp(py, outer.pos.y as int, outer.pos.y + outer.size.y), py);
}

/// A circle that covers a rectangle covers, and shares area with, every
/// rectangle inside it.
pub proof fn lemma_covers_inner(c: CircleF, inner: Rectangle, outer: Rectangle)
    requires
        inner.wf(),
        inner.within(outer),
        c.covers(outer),
    ensures
        c.covers(inner),
        c.overlaps_rect(inner),
{
    let px = c.pos.x as int;
    let py = c.pos.y as int;
    let fx = farther(px, inner.pos.x as int, inner.pos.x + inner.size.x);
    let fy = farther(py, inner.pos.y as int, inner.pos.y + inner.size.y);
    let gx = farther(px, outer.pos.x as int, outer.pos.x + outer.size.x);
    let gy = farther(py, outer.pos.y as int, outer.pos.y + outer.size.y);
    let nx = gap(clamp(px, inner.pos.x as int, inner.pos.x + inner.size.x), px);
    let ny = gap(clamp(py, inner.pos.y as int, inner.pos.y + inner.size.y), py);
    assert(0 <= nx <= fx <= gx);
    assert(0 <= ny <= fy <= gy);
    lemma_square_le(fx, gx);
    lemma_square_le(fy, gy);
    lemma_square_le(nx, fx);
    lemma_square_le(ny, fy);
    lemma_square_gap(clamp(px, inner.pos.x as int, inner.pos.x + inner.size.x), px);
    lemma_square_gap(clamp(py, inner.pos.y as int, inner.pos.y + inner.size.y), py);
}

proof fn lemma_square_le(u: int, v: int)
    requires
        0 <= u <= v,
    ensures
        u * u <= v * v,
{
    assert(u * u <= v * v) by (nonlinear_arith)
        requires
            0 <= u <= v,
    ;
}

proof fn lemma_square_gap(a: int, b: int)
    ensures
        gap(a, b) * gap(a, b) == (a - b) * (a - b),
{
    assert(gap(a, b) * gap(a, b) == (a - b) * (a - b)) by (nonlinear_arith)
        requires
            gap(a, b) == a - b || gap(a, b) == b - a,
    ;
}

impl PartialEq for CircleF {
    /// Circles are equal when centre and radius agree to within `ABOUT_EQUAL`.
    fn eq(&self, other: &CircleF) -> (r: bool) {
        about_equal(self.pos.x, other.pos.x) && about_equal(self.pos.y, other.pos.y)
            && about_equal(self.radius, other.radius)
    }
}

impl PartialEqSpecImpl for CircleF {
    open spec fn obeys_eq_spec() -> bool {
        true
    }

    open spec fn eq_spec(&self, other: &CircleF) -> bool {
        about_equal_spec(self.pos.x, other.pos.x) && about_equal_spec(self.pos.y, other.pos.y)
            && about_equal_spec(self.radius, other.radius)
    }
}

impl Eq for CircleF {

}

} // verus!

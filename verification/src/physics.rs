//! Ballistics, terrain destruction and the classification of a shot's position.

use vstd::prelude::*;
use crate::building::{
    all_buildings_wf, all_wf, all_within, any_hit, any_overlap, is_hit_list, views, Building,
    BuildingView,
};
use crate::circle::{lemma_covers_inner, lemma_overlap_grows, CircleF};
use crate::game_common::Side;
use crate::game_constants::{
    DELTAT_US, EXPLOSION_DESTROY_SCALE, GRAVITY, PARTS_GRID_MIN, US_PER_MS, WINDOW_X, WINDOW_Y,
};
use crate::geom::{clamp, div_trunc, Rectangle, Vector};

verus! {

/// Quadrant `k` of `src`: 0 top-left, 1 top-right, 2 bottom-left, 3 bottom-right.
/// The left quadrants have half the width of `src`, rounded down, and the
/// right ones the rest of it; the upper ones have half its height, rounded
/// down, and the lower ones the rest. The four divide `src` among them.
pub open spec fn quadrant(src: Rectangle, k: nat) -> Rectangle {
    let w = src.size.x / 2;
    let h = src.size.y / 2;
    Rectangle {
        pos: Vector {
            x: (src.pos.x + if k % 2 == 1 { w } else { 0 }) as i64,
            y: (src.pos.y + if k >= 2 { h } else { 0 }) as i64,
        },
        size: Vector {
            x: (if k % 2 == 1 { src.size.x - w } else { w }) as i64,
            y: (if k >= 2 { src.size.y - h } else { h }) as i64,
        },
    }
}

/// A rectangle this small is not subdivided any further.
pub open spec fn is_leaf(src: Rectangle) -> bool {
    src.size.x < PARTS_GRID_MIN && src.size.y < PARTS_GRID_MIN
}

/// What quadrants `k..4` of `src` leave behind when `e` is carved out: a
/// quadrant clear of `e` stays whole, one that `e` touches is dropped if `src`
/// is a leaf and carved in turn if it is not.
pub open spec fn carve_from(e: CircleF, src: Rectangle, k: nat) -> Seq<Rectangle>
    decreases src.size.x + src.size.y, 4 - k,
    when src.wf()
{
    if k >= 4 {
        Seq::empty()
    } else {
        let q = quadrant(src, k);
        let head = if !e.overlaps_rect(q) {
            seq![q]
        } else if is_leaf(src) {
            Seq::empty()
        } else {
            carve_from(e, q, 0)
        };
        head + carve_from(e, src, k + 1)
    }
}

/// The fragments of `src` that survive the explosion `e`.
pub open spec fn carve(e: CircleF, src: Rectangle) -> Seq<Rectangle> {
    carve_from(e, src, 0)
}

/// A quadrant of a well-formed rectangle is well formed, lies within it, and
/// is strictly smaller unless the rectangle is a leaf.
pub proof fn lemma_quadrant(src: Rectangle, k: nat)
    requires
        src.wf(),
        k < 4,
    ensures
        quadrant(src, k).wf(),
        quadrant(src, k).within(src),
        !is_leaf(src) ==> quadrant(src, k).size.x + quadrant(src, k).size.y < src.size.x
            + src.size.y,
{
}

/// The quadrants leave nothing of a rectangle out: every point of it lies in
/// one of them.
pub proof fn lemma_quadrants_cover(src: Rectangle, px: int, py: int)
    requires
        src.wf(),
        src.contains_point(px, py),
    ensures
        exists|k: nat| k < 4 && (#[trigger] quadrant(src, k)).contains_point(px, py),
{
    let right: nat = if px >= src.pos.x + src.size.x / 2 {
        1
    } else {
        0
    };
    let low: nat = if py >= src.pos.y + src.size.y / 2 {
        2
    } else {
        0
    };
    assert(quadrant(src, right + low).contains_point(px, py));
}

/// No two quadrants of a rectangle share a point.
pub proof fn lemma_quadrants_apart(src: Rectangle, j: nat, k: nat, px: int, py: int)
    requires
        src.wf(),
        j < k < 4,
    ensures
        !(quadrant(src, j).contains_point(px, py) && quadrant(src, k).contains_point(px, py)),
{
}

/// A rectangle no larger than the quadrants of a leaf.
pub open spec fn is_grain(q: Rectangle) -> bool {
    q.size.x <= PARTS_GRID_MIN / 2 && q.size.y <= PARTS_GRID_MIN / 2
}

/// The point lies in one of the rectangles.
pub open spec fn in_some(parts: Seq<Rectangle>, px: int, py: int) -> bool {
    exists|i: int| 0 <= i < parts.len() && (#[trigger] parts[i]).contains_point(px, py)
}

/// The point lies in a rectangle within `src` that is no larger than the
/// quadrants of a leaf and that the explosion touches.
pub open spec fn dropped_at(e: CircleF, src: Rectangle, px: int, py: int) -> bool {
    exists|q: Rectangle|
        {
            &&& (#[trigger] q.contains_point(px, py))
            &&& q.wf()
            &&& q.within(src)
            &&& is_grain(q)
            &&& e.overlaps_rect(q)
        }
}

/// The point is within the side of a finest quadrant, along either axis, of
/// a point inside the explosion.
pub open spec fn near_explosion(e: CircleF, px: int, py: int) -> bool {
    exists|nx: int, ny: int|
        {
            &&& (#[trigger] e.contains_point(nx, ny))
            &&& px - PARTS_GRID_MIN / 2 <= nx <= px + PARTS_GRID_MIN / 2
            &&& py - PARTS_GRID_MIN / 2 <= ny <= py + PARTS_GRID_MIN / 2
        }
}

proof fn lemma_carve_from_covers(e: CircleF, src: Rectangle, k0: nat, k: nat, px: int, py: int)
    requires
        src.wf(),
        k0 <= k < 4,
        quadrant(src, k).contains_point(px, py),
    ensures
        in_some(carve_from(e, src, k0), px, py) || dropped_at(e, src, px, py),
    decreases src.size.x + src.size.y, 4 - k0,
{
    let q = quadrant(src, k0);
    lemma_quadrant(src, k0);
    let head = if !e.overlaps_rect(q) {
        seq![q]
    } else if is_leaf(src) {
        Seq::empty()
    } else {
        carve_from(e, q, 0)
    };
    let rest = carve_from(e, src, k0 + 1);
    assert(carve_from(e, src, k0) == head + rest);
    if k0 < k {
        lemma_carve_from_covers(e, src, k0 + 1, k, px, py);
        if in_some(rest, px, py) {
            let i = choose|i: int| 0 <= i < rest.len() && (#[trigger] rest[i]).contains_point(px, py);
            assert((head + rest)[head.len() + i] == rest[i]);
        }
    } else if !e.overlaps_rect(q) {
        assert((head + rest)[0] == q);
    } else if is_leaf(src) {
        assert(is_grain(q));
    } else {
        lemma_quadrants_cover(q, px, py);
        let m = choose|m: nat| m < 4 && (#[trigger] quadrant(q, m)).contains_point(px, py);
        lemma_carve_from_covers(e, q, 0, m, px, py);
        if in_some(head, px, py) {
            let i = choose|i: int| 0 <= i < head.len() && (#[trigger] head[i]).contains_point(px, py);
            assert((head + rest)[i] == head[i]);
        } else {
            let g = choose|g: Rectangle|
                {
                    &&& (#[trigger] g.contains_point(px, py))
                    &&& g.wf()
                    &&& g.within(q)
                    &&& is_grain(g)
                    &&& e.overlaps_rect(g)
                };
            assert(g.within(src));
        }
    }
}

/// Only the finest grain is lost: a point of the source that lies in no
/// fragment lies in a rectangle no larger than the quadrants of a leaf that
/// the explosion touches.
pub proof fn lemma_carve_covers(e: CircleF, src: Rectangle, px: int, py: int)
    requires
        src.wf(),
        src.contains_point(px, py),
    ensures
        in_some(carve(e, src), px, py) || dropped_at(e, src, px, py),
{
    lemma_quadrants_cover(src, px, py);
    let k = choose|k: nat| k < 4 && (#[trigger] quadrant(src, k)).contains_point(px, py);
    lemma_carve_from_covers(e, src, 0, k, px, py);
}

/// What is lost lies next to the explosion: every point of the source that
/// is not within the side of a finest quadrant of the inside of the
/// explosion lies in a fragment.
pub proof fn lemma_far_survives(e: CircleF, src: Rectangle, px: int, py: int)
    requires
        src.wf(),
        src.contains_point(px, py),
        !near_explosion(e, px, py),
    ensures
        in_some(carve(e, src), px, py),
{
    lemma_carve_covers(e, src, px, py);
    if dropped_at(e, src, px, py) {
        let q = choose|q: Rectangle|
            {
                &&& (#[trigger] q.contains_point(px, py))
                &&& q.wf()
                &&& q.within(src)
                &&& is_grain(q)
                &&& e.overlaps_rect(q)
            };
        let nx = clamp(e.pos.x as int, q.pos.x as int, q.pos.x + q.size.x);
        let ny = clamp(e.pos.y as int, q.pos.y as int, q.pos.y + q.size.y);
        assert(e.contains_point(nx, ny));
    }
}

/// Fragments never reach beyond the rectangle they were carved from, and none
/// of them shares area with the explosion.
pub proof fn lemma_carve_from_fragments(e: CircleF, src: Rectangle, k: nat)
    requires
        src.wf(),
    ensures
        all_wf(carve_from(e, src, k)),
        all_within(carve_from(e, src, k), src),
        !any_overlap(e, carve_from(e, src, k)),
    decreases src.size.x + src.size.y, 4 - k,
{
    if k < 4 {
        let q = quadrant(src, k);
        lemma_quadrant(src, k);
        let rest = carve_from(e, src, k + 1);
        lemma_carve_from_fragments(e, src, k + 1);
        let head = if !e.overlaps_rect(q) {
            seq![q]
        } else if is_leaf(src) {
            Seq::empty()
        } else {
            carve_from(e, q, 0)
        };
        if e.overlaps_rect(q) && !is_leaf(src) {
            lemma_carve_from_fragments(e, q, 0);
        }
        assert(carve_from(e, src, k) == head + rest);
        assert forall|j: int| 0 <= j < (head + rest).len() implies {
            &&& (#[trigger] (head + rest)[j]).wf()
            &&& (head + rest)[j].within(src)
            &&& !e.overlaps_rect((head + rest)[j])
        } by {
            if j < head.len() {
                assert((head + rest)[j] == head[j]);
                assert(head[j].within(q));
            } else {
                assert((head + rest)[j] == rest[j - head.len()]);
            }
        }
    }
}

/// No fragment exceeds its parent's bounds: every rectangle that `carve`
/// returns is well formed and lies within the source.
pub proof fn lemma_carve_within(e: CircleF, src: Rectangle)
    requires
        src.wf(),
    ensures
        all_wf(carve(e, src)),
        all_within(carve(e, src), src),
{
    lemma_carve_from_fragments(e, src, 0);
}

/// Nothing that `carve` returns shares area with the explosion.
pub proof fn lemma_carve_clear(e: CircleF, src: Rectangle)
    requires
        src.wf(),
    ensures
        !any_overlap(e, carve(e, src)),
{
    lemma_carve_from_fragments(e, src, 0);
}

/// An explosion that shares no area with the source removes nothing: `carve`
/// returns the four quadrants of the source, whole.
pub proof fn lemma_carve_disjoint(e: CircleF, src: Rectangle)
    requires
        src.wf(),
        !e.overlaps_rect(src),
    ensures
        carve(e, src) == seq![
            quadrant(src, 0),
            quadrant(src, 1),
            quadrant(src, 2),
            quadrant(src, 3),
        ],
{
    lemma_carve_from_disjoint(e, src, 0);
    lemma_carve_from_disjoint(e, src, 1);
    lemma_carve_from_disjoint(e, src, 2);
    lemma_carve_from_disjoint(e, src, 3);
    assert(carve_from(e, src, 4) =~= Seq::empty());
    assert(carve(e, src) =~= seq![
        quadrant(src, 0),
        quadrant(src, 1),
        quadrant(src, 2),
        quadrant(src, 3),
    ]);
}

proof fn lemma_carve_from_disjoint(e: CircleF, src: Rectangle, k: nat)
    requires
        src.wf(),
        !e.overlaps_rect(src),
        k < 4,
    ensures
        carve_from(e, src, k) == seq![quadrant(src, k)] + carve_from(e, src, k + 1),
{
    lemma_quadrant(src, k);
    if e.overlaps_rect(quadrant(src, k)) {
        lemma_overlap_grows(e, quadrant(src, k), src);
    }
}

/// An explosion that covers the whole source leaves nothing of it.
pub proof fn lemma_carve_covered(e: CircleF, src: Rectangle)
    requires
        src.wf(),
        e.covers(src),
    ensures
        carve(e, src) == Seq::<Rectangle>::empty(),
{
    lemma_carve_from_covered(e, src, 0);
}

proof fn lemma_carve_from_covered(e: CircleF, src: Rectangle, k: nat)
    requires
        src.wf(),
        e.covers(src),
    ensures
        carve_from(e, src, k) == Seq::<Rectangle>::empty(),
    decreases src.size.x + src.size.y, 4 - k,
{
    if k < 4 {
        let q = quadrant(src, k);
        lemma_quadrant(src, k);
        lemma_covers_inner(e, q, src);
        lemma_carve_from_covered(e, src, k + 1);
        if !is_leaf(src) {
            lemma_carve_from_covered(e, q, 0);
        }
        assert(carve_from(e, src, k) =~= Seq::<Rectangle>::empty());
    }
}

fn quadrant_of(source: &Rectangle, k: u8) -> (q: Rectangle)
    requires
        source.wf(),
        k < 4,
    ensures
        q == quadrant(*source, k as nat),
{
    let w = source.size.x / 2;
    let h = source.size.y / 2;
    let right = k % 2 == 1;
    let low = k >= 2;
    Rectangle {
        pos: Vector {
            x: source.pos.x + if right { w } else { 0 },
            y: source.pos.y + if low { h } else { 0 },
        },
        size: Vector {
            x: if right { source.size.x - w } else { w },
            y: if low { source.size.y - h } else { h },
        },
    }
}

/// Carves the explosion `circle` out of `source` by adaptive subdivision and
/// returns the surviving fragments.
pub fn create_parts(circle: &CircleF, source: &Rectangle) -> (v: Vec<Rectangle>)
    requires
        source.wf(),
    ensures
        v@ == carve(*circle, *source),
    decreases source.size.x + source.size.y,
{
    let leaf = source.size.x < PARTS_GRID_MIN && source.size.y < PARTS_GRID_MIN;
    let mut v: Vec<Rectangle> = Vec::new();
    let mut k: u8 = 0;
    while k < 4
        invariant
            k <= 4,
            source.wf(),
            leaf == is_leaf(*source),
            v@ + carve_from(*circle, *source, k as nat) == carve(*circle, *source),
        decreases 4 - k,
    {
        let q = quadrant_of(source, k);
        proof {
            lemma_quadrant(*source, k as nat);
        }
        let ghost before = v@;
        let ghost head: Seq<Rectangle>;
        if !circle.overlaps(&q) {
            v.push(q);
            proof {
                head = seq![q];
            }
        } else if !leaf {
            let mut sub = create_parts(circle, &q);
            v.append(&mut sub);
            proof {
                head = carve_from(*circle, q, 0);
            }
        } else {
            proof {
                head = Seq::empty();
            }
        }
        proof {
            let rest = carve_from(*circle, *source, (k + 1) as nat);
            assert(v@ =~= before + head);
            assert(carve_from(*circle, *source, k as nat) == head + rest);
            assert((before + head) + rest =~= before + (head + rest));
        }
        k += 1;
    }
    v
}

/// The test that picks the rectangles an explosion leaves alone.
pub open spec fn clear_of(e: CircleF) -> spec_fn(Rectangle) -> bool {
    |r: Rectangle| !e.overlaps_rect(r)
}

/// What is carved from the rectangles of `parts` that `e` touches, in the
/// order of `parts`.
pub open spec fn carved(e: CircleF, parts: Seq<Rectangle>) -> Seq<Rectangle>
    decreases parts.len(),
{
    if parts.len() == 0 {
        Seq::empty()
    } else {
        carved(e, parts.drop_last()) + if e.overlaps_rect(parts.last()) {
            carve(e, parts.last())
        } else {
            Seq::empty()
        }
    }
}

/// The fragments after another explosion: those that `e` does not touch,
/// unchanged and in order, followed by what is carved from the others.
pub open spec fn recarve(e: CircleF, parts: Seq<Rectangle>) -> Seq<Rectangle> {
    parts.filter(clear_of(e)) + carved(e, parts)
}

proof fn lemma_filter_step(e: CircleF, parts: Seq<Rectangle>, j: int)
    requires
        0 <= j < parts.len(),
    ensures
        parts.take(j + 1).filter(clear_of(e)) == if e.overlaps_rect(parts[j]) {
            parts.take(j).filter(clear_of(e))
        } else {
            parts.take(j).filter(clear_of(e)).push(parts[j])
        },
        carved(e, parts.take(j + 1)) == carved(e, parts.take(j)) + if e.overlaps_rect(parts[j]) {
            carve(e, parts[j])
        } else {
            Seq::empty()
        },
{
    reveal(Seq::filter);
    assert(parts.take(j + 1).drop_last() =~= parts.take(j));
    assert(parts.take(j + 1).last() == parts[j]);
}

/// Carves the explosion `circle` out of a list of fragments: the fragments it
/// does not touch stay, each of the others is replaced by what `create_parts`
/// leaves of it.
pub fn remove_parts(circle: &CircleF, parts: &mut Vec<Rectangle>)
    requires
        all_wf(old(parts)@),
    ensures
        final(parts)@ == recarve(*circle, old(parts)@),
{
    let mut keep: Vec<Rectangle> = Vec::new();
    let mut fresh: Vec<Rectangle> = Vec::new();
    let mut j: usize = 0;
    proof {
        reveal(Seq::filter);
        assert(parts@.take(0) =~= Seq::<Rectangle>::empty());
    }
    while j < parts.len()
        invariant
            j <= parts.len(),
            all_wf(parts@),
            keep@ == parts@.take(j as int).filter(clear_of(*circle)),
            fresh@ == carved(*circle, parts@.take(j as int)),
        decreases parts.len() - j,
    {
        let part = parts[j];
        proof {
            lemma_filter_step(*circle, parts@, j as int);
        }
        if circle.overlaps(&part) {
            let mut sub = create_parts(circle, &part);
            fresh.append(&mut sub);
        } else {
            keep.push(part);
        }
        j += 1;
    }
    proof {
        assert(parts@.take(j as int) =~= parts@);
    }
    keep.append(&mut fresh);
    *parts = keep;
}

/// What `recarve` returns is well formed and stays within any rectangle that
/// held the fragments before.
pub proof fn lemma_recarve_within(e: CircleF, parts: Seq<Rectangle>, outer: Rectangle)
    requires
        all_wf(parts),
        all_within(parts, outer),
    ensures
        all_wf(recarve(e, parts)),
        all_within(recarve(e, parts), outer),
{
    lemma_recarve_parts(e, parts, outer);
}

/// After `recarve` no fragment shares area with the explosion.
pub proof fn lemma_recarve_clear(e: CircleF, parts: Seq<Rectangle>)
    requires
        all_wf(parts),
    ensures
        !any_overlap(e, recarve(e, parts)),
{
    let outer = Rectangle { pos: Vector { x: 0, y: 0 }, size: Vector { x: 0, y: 0 } };
    lemma_recarve_parts(e, parts, outer);
}

proof fn lemma_recarve_parts(e: CircleF, parts: Seq<Rectangle>, outer: Rectangle)
    requires
        all_wf(parts),
    ensures
        all_wf(parts.filter(clear_of(e))),
        all_wf(carved(e, parts)),
        all_within(parts, outer) ==> all_within(parts.filter(clear_of(e)), outer) && all_within(
            carved(e, parts),
            outer,
        ),
        !any_overlap(e, parts.filter(clear_of(e))),
        !any_overlap(e, carved(e, parts)),
        all_wf(recarve(e, parts)),
        all_within(parts, outer) ==> all_within(recarve(e, parts), outer),
        !any_overlap(e, recarve(e, parts)),
    decreases parts.len(),
{
    reveal(Seq::filter);
    if parts.len() > 0 {
        let init = parts.drop_last();
        let last = parts.last();
        assert(all_wf(init)) by {
            assert forall|j: int| 0 <= j < init.len() implies (#[trigger] init[j]).wf() by {
                assert(init[j] == parts[j]);
            }
        }
        if all_within(parts, outer) {
            assert forall|j: int| 0 <= j < init.len() implies (#[trigger] init[j]).within(
                outer,
            ) by {
                assert(init[j] == parts[j]);
            }
        }
        lemma_recarve_parts(e, init, outer);
        lemma_carve_within(e, last);
        lemma_carve_clear(e, last);
        let c = carve(e, last);
        if all_within(parts, outer) && e.overlaps_rect(last) {
            assert forall|j: int| 0 <= j < c.len() implies (#[trigger] c[j]).within(outer) by {
                assert(c[j].within(last));
                assert(last.within(outer));
            }
        }
    }
    let a = parts.filter(clear_of(e));
    let b = carved(e, parts);
    assert forall|j: int| 0 <= j < (a + b).len() implies {
        &&& (#[trigger] (a + b)[j]).wf()
        &&& !e.overlaps_rect((a + b)[j])
        &&& all_within(parts, outer) ==> (a + b)[j].within(outer)
    } by {
        if j < a.len() {
            assert((a + b)[j] == a[j]);
        } else {
            assert((a + b)[j] == b[j - a.len()]);
        }
    }
}

proof fn lemma_carved_holds(e: CircleF, parts: Seq<Rectangle>, i: int, px: int, py: int)
    requires
        0 <= i < parts.len(),
        e.overlaps_rect(parts[i]),
        in_some(carve(e, parts[i]), px, py),
    ensures
        in_some(carved(e, parts), px, py),
    decreases parts.len(),
{
    let init = parts.drop_last();
    let tail = if e.overlaps_rect(parts.last()) {
        carve(e, parts.last())
    } else {
        Seq::empty()
    };
    assert(carved(e, parts) == carved(e, init) + tail);
    if i == parts.len() - 1 {
        let j = choose|j: int| 0 <= j < tail.len() && (#[trigger] tail[j]).contains_point(px, py);
        assert((carved(e, init) + tail)[carved(e, init).len() + j] == tail[j]);
    } else {
        assert(init[i] == parts[i]);
        lemma_carved_holds(e, init, i, px, py);
        let m = choose|m: int|
            0 <= m < carved(e, init).len() && (#[trigger] carved(e, init)[m]).contains_point(
                px,
                py,
            );
        assert((carved(e, init) + tail)[m] == carved(e, init)[m]);
    }
}

proof fn lemma_kept_holds(e: CircleF, parts: Seq<Rectangle>, i: int)
    requires
        0 <= i < parts.len(),
        !e.overlaps_rect(parts[i]),
    ensures
        exists|m: int|
            0 <= m < parts.filter(clear_of(e)).len() && #[trigger] parts.filter(clear_of(e))[m]
                == parts[i],
    decreases parts.len(),
{
    reveal(Seq::filter);
    let init = parts.drop_last();
    let kept = parts.filter(clear_of(e));
    if i == parts.len() - 1 {
        assert(kept == init.filter(clear_of(e)).push(parts[i]));
        assert(kept[kept.len() - 1] == parts[i]);
    } else {
        assert(init[i] == parts[i]);
        lemma_kept_holds(e, init, i);
        let m = choose|m: int|
            0 <= m < init.filter(clear_of(e)).len() && #[trigger] init.filter(clear_of(e))[m]
                == parts[i];
        assert(kept[m] == parts[i]);
    }
}

/// What another explosion takes lies next to it: a point of some fragment
/// that is not within the side of a finest quadrant of the inside of the
/// explosion still lies in a fragment afterwards.
pub proof fn lemma_recarve_covers(e: CircleF, parts: Seq<Rectangle>, px: int, py: int)
    requires
        all_wf(parts),
        in_some(parts, px, py),
        !near_explosion(e, px, py),
    ensures
        in_some(recarve(e, parts), px, py),
{
    let i = choose|i: int| 0 <= i < parts.len() && (#[trigger] parts[i]).contains_point(px, py);
    let kept = parts.filter(clear_of(e));
    let fresh = carved(e, parts);
    if e.overlaps_rect(parts[i]) {
        lemma_far_survives(e, parts[i], px, py);
        lemma_carved_holds(e, parts, i, px, py);
        let m = choose|m: int| 0 <= m < fresh.len() && (#[trigger] fresh[m]).contains_point(px, py);
        assert((kept + fresh)[kept.len() + m] == fresh[m]);
    } else {
        lemma_kept_holds(e, parts, i);
        let m = choose|m: int| 0 <= m < kept.len() && #[trigger] kept[m] == parts[i];
        assert((kept + fresh)[m] == kept[m]);
    }
}

/// An explosion that touches none of the fragments changes nothing.
pub proof fn lemma_recarve_untouched(e: CircleF, parts: Seq<Rectangle>)
    requires
        !any_overlap(e, parts),
    ensures
        recarve(e, parts) == parts,
        parts.filter(clear_of(e)) == parts,
        carved(e, parts) == Seq::<Rectangle>::empty(),
    decreases parts.len(),
{
    reveal(Seq::filter);
    if parts.len() == 0 {
        assert(recarve(e, parts) =~= parts);
    } else {
        let init = parts.drop_last();
        assert(!any_overlap(e, init)) by {
            if any_overlap(e, init) {
                let j = choose|j: int| 0 <= j < init.len() && e.overlaps_rect(#[trigger] init[j]);
                assert(e.overlaps_rect(parts[j]));
            }
        }
        lemma_recarve_untouched(e, init);
        assert(!e.overlaps_rect(parts[parts.len() - 1]));
        assert(parts.filter(clear_of(e)) =~= parts);
        assert(carved(e, parts) =~= Seq::<Rectangle>::empty());
        assert(recarve(e, parts) =~= parts);
    }
}

/// Carving the same explosion a second time changes nothing: `recarve` with
/// one circle is idempotent.
pub proof fn lemma_recarve_idempotent(e: CircleF, parts: Seq<Rectangle>)
    requires
        all_wf(parts),
    ensures
        recarve(e, recarve(e, parts)) == recarve(e, parts),
{
    lemma_recarve_clear(e, parts);
    lemma_recarve_untouched(e, recarve(e, parts));
}

/// Damage keeps a building well formed.
pub proof fn lemma_damaged_wf(b: BuildingView, e: CircleF)
    requires
        b.wf(),
    ensures
        b.damaged(e).wf(),
{
    match b.fragments {
        None => {
            lemma_carve_within(e, b.bound_box);
        },
        Some(parts) => {
            lemma_recarve_within(e, parts, b.bound_box);
        },
    }
}

/// The same explosion damages a building only once: a second time changes
/// nothing.
pub proof fn lemma_damaged_idempotent(b: BuildingView, e: CircleF)
    requires
        b.wf(),
    ensures
        b.damaged(e).damaged(e) == b.damaged(e),
{
    match b.fragments {
        None => {
            if e.overlaps_rect(b.bound_box) {
                lemma_carve_clear(e, b.bound_box);
                lemma_recarve_untouched(e, carve(e, b.bound_box));
            }
        },
        Some(parts) => {
            lemma_recarve_idempotent(e, parts);
        },
    }
}

/// The splash of a projectile: a circle about the same centre with
/// `EXPLOSION_DESTROY_SCALE` times the radius.
pub open spec fn splash(c: CircleF) -> CircleF {
    CircleF { pos: c.pos, radius: (c.radius * EXPLOSION_DESTROY_SCALE) as i64 }
}

/// The radius of the splash is representable.
pub open spec fn can_splash(c: CircleF) -> bool {
    i64::MIN <= c.radius * EXPLOSION_DESTROY_SCALE <= i64::MAX
}

fn splash_of(c: &CircleF) -> (e: CircleF)
    requires
        can_splash(*c),
    ensures
        e == splash(*c),
{
    CircleF { pos: c.pos, radius: c.radius * EXPLOSION_DESTROY_SCALE }
}

impl BuildingView {
    /// The building after the explosion `e`. An intact building that `e` does
    /// not touch stays intact; one that it touches gets its first fragments;
    /// the fragments of a damaged building are carved again.
    pub open spec fn damaged(self, e: CircleF) -> BuildingView {
        match self.fragments {
            None => if e.overlaps_rect(self.bound_box) {
                BuildingView { fragments: Some(carve(e, self.bound_box)), ..self }
            } else {
                self
            },
            Some(parts) => BuildingView { fragments: Some(recarve(e, parts)), ..self },
        }
    }
}

impl BuildingView {
    /// The point lies in the building's solid mass.
    pub open spec fn solid_at(self, px: int, py: int) -> bool {
        match self.fragments {
            None => self.bound_box.contains_point(px, py),
            Some(parts) => in_some(parts, px, py),
        }
    }
}

/// An explosion takes of a building only what lies next to it: a point of
/// the solid mass that is not within the side of a finest quadrant of the
/// inside of the explosion is solid afterwards.
pub proof fn lemma_damaged_covers(b: BuildingView, e: CircleF, px: int, py: int)
    requires
        b.wf(),
        b.solid_at(px, py),
        !near_explosion(e, px, py),
    ensures
        b.damaged(e).solid_at(px, py),
{
    match b.fragments {
        None => {
            if e.overlaps_rect(b.bound_box) {
                lemma_far_survives(e, b.bound_box, px, py);
            }
        },
        Some(parts) => {
            lemma_recarve_covers(e, parts, px, py);
        },
    }
}

impl Building {
    /// Carves the explosion `e` out of the building.
    pub fn damage(&mut self, e: &CircleF)
        requires
            old(self)@.wf(),
        ensures
            final(self)@ == old(self)@.damaged(*e),
            final(self)@.wf(),
    {
        proof {
            lemma_damaged_wf(self@, *e);
        }
        match &mut self.fragments {
            Some(parts) => {
                remove_parts(e, parts);
            },
            None => {
                if e.overlaps(&self.bound_box) {
                    self.fragments = Some(create_parts(e, &self.bound_box));
                }
            },
        }
    }
}

/// The distance covered in one tick at speed `v`.
pub open spec fn travel(v: int) -> int {
    div_trunc(DELTAT_US * v, US_PER_MS as int)
}

/// The position one tick later: forward Euler, from the speed before the tick.
pub open spec fn next_pos(pos: (int, int), speed: (int, int)) -> (int, int) {
    (pos.0 + travel(speed.0), pos.1 + travel(speed.1))
}

/// The speed one tick later: the wind is added, and gravity on top of it.
pub open spec fn next_speed(speed: (int, int), wind: (int, int)) -> (int, int) {
    (speed.0 + wind.0, speed.1 + wind.1 + GRAVITY)
}

/// Position and speed after `n` ticks of free flight.
pub open spec fn flight(pos: (int, int), speed: (int, int), wind: (int, int), n: nat) -> (
    (int, int),
    (int, int),
)
    decreases n,
{
    if n == 0 {
        (pos, speed)
    } else {
        let before = flight(pos, speed, wind, (n - 1) as nat);
        (next_pos(before.0, before.1), next_speed(before.1, wind))
    }
}

/// Both coordinates are representable.
pub open spec fn fits(v: (int, int)) -> bool {
    i64::MIN <= v.0 <= i64::MAX && i64::MIN <= v.1 <= i64::MAX
}

/// Speed only accumulates: after `n` ticks it has grown by `n` times the wind
/// plus, downwards, `n` times gravity. From rest and without wind the
/// vertical speed is exactly `n * GRAVITY`.
pub proof fn lemma_speed_accumulates(pos: (int, int), speed: (int, int), wind: (int, int), n: nat)
    ensures
        flight(pos, speed, wind, n).1 == (speed.0 + n * wind.0, speed.1 + n * (wind.1 + GRAVITY)),
        speed == (0int, 0int) && wind == (0int, 0int) ==> flight(pos, speed, wind, n).1.1 == n
            * GRAVITY,
    decreases n,
{
    if n > 0 {
        lemma_speed_accumulates(pos, speed, wind, (n - 1) as nat);
        assert(n * wind.0 == (n - 1) * wind.0 + wind.0) by (nonlinear_arith);
        assert(n * (wind.1 + GRAVITY) == (n - 1) * (wind.1 + GRAVITY) + (wind.1 + GRAVITY))
            by (nonlinear_arith);
    }
}

fn travelled(v: i64) -> (d: i128)
    ensures
        d == travel(v as int),
        -0x8000_0000_0000_0000 * 16667 <= d <= 0x8000_0000_0000_0000 * 16667,
{
    assert(-0x8000_0000_0000_0000 * 16667 <= DELTAT_US * v <= 0x8000_0000_0000_0000 * 16667)
        by (nonlinear_arith)
        requires
            DELTAT_US == 16667,
            -0x8000_0000_0000_0000 <= v <= 0x8000_0000_0000_0000,
    ;
    let p: i128 = DELTAT_US as i128 * v as i128;
    let d: i128 = p / (US_PER_MS as i128);
    assert(p == 16667 * v);
    assert(p >= 0 ==> 0 <= d <= p);
    assert(p < 0 ==> p <= d <= 0);
    d
}

/// One tick of flight without wind.
pub fn update_shot(pos: Vector, speed: Vector) -> (r: (Vector, Vector))
    requires
        fits(next_pos(pos@, speed@)),
        fits(next_speed(speed@, (0, 0))),
    ensures
        r.0@ == next_pos(pos@, speed@),
        r.1@ == next_speed(speed@, (0, 0)),
{
    (
        Vector { x: (pos.x as i128 + travelled(speed.x)) as i64, y: (pos.y as i128 + travelled(speed.y)) as i64 },
        Vector { x: speed.x, y: speed.y + GRAVITY },
    )
}

/// One tick of flight in the wind.
pub fn update_shot_windy(pos: Vector, speed: Vector, wind: Vector) -> (r: (Vector, Vector))
    requires
        fits(next_pos(pos@, speed@)),
        fits(next_speed(speed@, wind@)),
    ensures
        r.0@ == next_pos(pos@, speed@),
        r.1@ == next_speed(speed@, wind@),
{
    (
        Vector { x: (pos.x as i128 + travelled(speed.x)) as i64, y: (pos.y as i128 + travelled(speed.y)) as i64 },
        Vector {
            x: (wind.x as i128 + speed.x as i128) as i64,
            y: (wind.y as i128 + speed.y as i128 + GRAVITY as i128) as i64,
        },
    )
}

/// The position has left the field: to the left, to the right or below. Above
/// the field a shot is still in play.
pub open spec fn out_of_field(pos: Vector) -> bool {
    pos.x > WINDOW_X || pos.y > WINDOW_Y || pos.x < 0
}

/// What a shot has run into.
#[derive(Debug)]
pub enum Collision {
    /// Nothing: the shot flies on.
    Nothing,
    /// The shot has left the field.
    Sky,
    /// The shot struck terrain; the buildings within its splash are listed.
    Buildings(Vec<usize>),
    /// The shot struck a player; the buildings within its splash are listed.
    Player(Side, Vec<usize>),
}

/// The kind of a collision, without the buildings it damages.
pub enum Hit {
    Nothing,
    Sky,
    Buildings,
    Player(Side),
}

/// What a shot at `circle` has run into: terrain before the edge of the
/// field, the edge before a player, the left player before the right one.
pub open spec fn classify(
    circle: CircleF,
    left: Rectangle,
    right: Rectangle,
    buildings: Seq<BuildingView>,
) -> Hit {
    if any_hit(circle, buildings) {
        Hit::Buildings
    } else if out_of_field(circle.pos) {
        Hit::Sky
    } else if circle.overlaps_rect(left) {
        Hit::Player(Side::Left)
    } else if circle.overlaps_rect(right) {
        Hit::Player(Side::Right)
    } else {
        Hit::Nothing
    }
}

/// Terrain takes precedence: a shot that touches a building is classified
/// as a hit on terrain whatever else it touches.
pub proof fn lemma_buildings_first(
    circle: CircleF,
    left: Rectangle,
    right: Rectangle,
    buildings: Seq<BuildingView>,
)
    requires
        any_hit(circle, buildings),
    ensures
        classify(circle, left, right, buildings) == Hit::Buildings,
{
}

/// A shot past the right edge of the field that touches no building is out
/// of play, whatever player it touches.
pub proof fn lemma_past_the_edge(
    circle: CircleF,
    left: Rectangle,
    right: Rectangle,
    buildings: Seq<BuildingView>,
)
    requires
        circle.pos.x > WINDOW_X,
        !any_hit(circle, buildings),
    ensures
        classify(circle, left, right, buildings) == Hit::Sky,
{
}

/// A shot at the centre of an intact building strikes terrain, and that
/// building is within its splash.
pub proof fn lemma_centre_shot(
    circle: CircleF,
    left: Rectangle,
    right: Rectangle,
    buildings: Seq<BuildingView>,
    i: int,
)
    requires
        0 <= i < buildings.len(),
        buildings[i].fragments is None,
        buildings[i].bound_box.wf(),
        circle.pos == buildings[i].bound_box.center_spec(),
        circle.radius > 0,
        can_splash(circle),
    ensures
        classify(circle, left, right, buildings) == Hit::Buildings,
        buildings[i].hit_by(splash(circle)),
{
    let r = circle.radius as int;
    assert(0 < r * r) by (nonlinear_arith)
        requires
            r > 0,
    ;
    let b = buildings[i].bound_box;
    let dx = clamp(circle.pos.x as int, b.pos.x as int, b.pos.x + b.size.x) - circle.pos.x;
    let dy = clamp(circle.pos.y as int, b.pos.y as int, b.pos.y + b.size.y) - circle.pos.y;
    assert(dx * dx + dy * dy == 0) by (nonlinear_arith)
        requires
            dx == 0,
            dy == 0,
    ;
    assert(buildings[i].hit_by(circle));
    lemma_splash_reaches(circle, buildings[i]);
}

/// A shot above the field is not out of it: with no building and no player
/// touched it flies on, however high.
pub proof fn lemma_above_is_in_play(
    circle: CircleF,
    left: Rectangle,
    right: Rectangle,
    buildings: Seq<BuildingView>,
)
    requires
        0 <= circle.pos.x <= WINDOW_X,
        circle.pos.y < 0,
        !any_hit(circle, buildings),
        !circle.overlaps_rect(left),
        !circle.overlaps_rect(right),
    ensures
        classify(circle, left, right, buildings) == Hit::Nothing,
{
}

impl Collision {
    /// The kind of the collision.
    pub open spec fn kind(self) -> Hit {
        match self {
            Collision::Nothing => Hit::Nothing,
            Collision::Sky => Hit::Sky,
            Collision::Buildings(_) => Hit::Buildings,
            Collision::Player(side, _) => Hit::Player(side),
        }
    }
}

/// Every building of the row after the explosion `e`.
pub open spec fn blasted(buildings: Seq<BuildingView>, e: CircleF) -> Seq<BuildingView> {
    Seq::new(buildings.len(), |i: int| buildings[i].damaged(e))
}

/// An explosion changes nothing of a building that it does not hit.
pub proof fn lemma_damaged_untouched(b: BuildingView, e: CircleF)
    requires
        !b.hit_by(e),
    ensures
        b.damaged(e) == b,
{
    match b.fragments {
        None => {},
        Some(parts) => {
            lemma_recarve_untouched(e, parts);
        },
    }
}

pub fn collide_field(pos: Vector) -> (b: bool)
    ensures
        b == out_of_field(pos),
{
    pos.x > WINDOW_X || pos.y > WINDOW_Y || pos.x < 0
}

/// Whether the circle touches the solid mass of any building.
pub fn collide_buildings(circle: CircleF, buildings: &[Building]) -> (b: bool)
    ensures
        b == any_hit(circle, views(buildings@)),
{
    let mut i: usize = 0;
    while i < buildings.len()
        invariant
            i <= buildings.len(),
            forall|m: int| 0 <= m < i ==> !(#[trigger] views(buildings@)[m]).hit_by(circle),
        decreases buildings.len() - i,
    {
        if buildings[i].hit_by(&circle) {
            assert(views(buildings@)[i as int].hit_by(circle));
            return true;
        }
        i += 1;
    }
    false
}

/// The indices of the buildings whose solid mass the circle touches.
pub fn collide_shot(circle: CircleF, buildings: &[Building]) -> (v: Vec<usize>)
    ensures
        is_hit_list(v@, circle, views(buildings@)),
{
    let mut v: Vec<usize> = Vec::new();
    let mut i: usize = 0;
    while i < buildings.len()
        invariant
            i <= buildings.len(),
            is_hit_list(v@, circle, views(buildings@).take(i as int)),
            forall|k: int| 0 <= k < v.len() ==> v@[k] < i,
        decreases buildings.len() - i,
    {
        let ghost before = v@;
        if buildings[i].hit_by(&circle) {
            v.push(i);
            assert(v@.last() == i);
            assert(forall|m: int| 0 <= m < before.len() ==> v@[m] == before[m]);
            assert forall|m: int|
                0 <= m < i + 1 && (#[trigger] views(buildings@).take(i + 1)[m]).hit_by(
                    circle,
                ) implies v@.contains(m as usize) by {
                if m < i {
                    assert(views(buildings@).take(i as int)[m].hit_by(circle));
                    let w = choose|w: int| 0 <= w < before.len() && #[trigger] before[w] == m as usize;
                    assert(v@[w] == m as usize);
                } else {
                    assert(v@[v.len() - 1] == m as usize);
                }
            }
        } else {
            assert forall|m: int|
                0 <= m < i + 1 && (#[trigger] views(buildings@).take(i + 1)[m]).hit_by(
                    circle,
                ) implies v@.contains(m as usize) by {
                assert(views(buildings@).take(i as int)[m].hit_by(circle));
            }
        }
        i += 1;
    }
    assert(views(buildings@).take(i as int) =~= views(buildings@));
    v
}

pub fn collide_player(circle: CircleF, player: &Rectangle) -> (b: bool)
    ensures
        b == circle.overlaps_rect(*player),
{
    circle.overlaps(player)
}

/// Classifies the position of a shot. Terrain comes first, then the edge of
/// the field, then the left player, then the right one. The hit itself is
/// tested with the shot's own circle; the buildings listed as damaged are
/// those within its splash.
pub fn collision(circle: CircleF, left: &Rectangle, right: &Rectangle, buildings: &[Building]) -> (c:
    Collision)
    requires
        circle.wf(),
        can_splash(circle),
    ensures
        match c {
            Collision::Buildings(xs) => {
                &&& any_hit(circle, views(buildings@))
                &&& is_hit_list(xs@, splash(circle), views(buildings@))
            },
            Collision::Sky => {
                &&& !any_hit(circle, views(buildings@))
                &&& out_of_field(circle.pos)
            },
            Collision::Player(side, xs) => {
                &&& !any_hit(circle, views(buildings@))
                &&& !out_of_field(circle.pos)
                &&& side == Side::Left ==> circle.overlaps_rect(*left)
                &&& side == Side::Right ==> !circle.overlaps_rect(*left) && circle.overlaps_rect(
                    *right,
                )
                &&& is_hit_list(xs@, splash(circle), views(buildings@))
            },
            Collision::Nothing => {
                &&& !any_hit(circle, views(buildings@))
                &&& !out_of_field(circle.pos)
                &&& !circle.overlaps_rect(*left)
                &&& !circle.overlaps_rect(*right)
            },
        },
        c.kind() == classify(circle, *left, *right, views(buildings@)),
        any_hit(circle, views(buildings@)) ==> c is Buildings,
        c matches Collision::Buildings(xs) ==> forall|i: int|
            0 <= i < buildings.len() && (#[trigger] views(buildings@)[i]).hit_by(circle)
                ==> xs@.contains(i as usize),
{
    proof {
        assert forall|i: int|
            0 <= i < buildings.len() && (#[trigger] views(buildings@)[i]).hit_by(
                circle,
            ) implies views(buildings@)[i].hit_by(splash(circle)) by {
            lemma_splash_reaches(circle, views(buildings@)[i]);
        }
    }
    let hits = collide_buildings(circle, buildings);
    let explosion = splash_of(&circle);
    if hits {
        Collision::Buildings(collide_shot(explosion, buildings))
    } else if collide_field(circle.pos) {
        Collision::Sky
    } else if collide_player(circle, left) {
        Collision::Player(Side::Left, collide_shot(explosion, buildings))
    } else if collide_player(circle, right) {
        Collision::Player(Side::Right, collide_shot(explosion, buildings))
    } else {
        Collision::Nothing
    }
}

/// Whatever a projectile hits, its splash hits too.
pub proof fn lemma_splash_reaches(c: CircleF, b: BuildingView)
    requires
        c.wf(),
        can_splash(c),
        b.hit_by(c),
    ensures
        b.hit_by(splash(c)),
{
    let r = c.radius as int;
    assert(r * r <= (r * EXPLOSION_DESTROY_SCALE) * (r * EXPLOSION_DESTROY_SCALE))
        by (nonlinear_arith)
        requires
            r >= 0,
            EXPLOSION_DESTROY_SCALE == 4,
    ;
    match b.fragments {
        None => {},
        Some(parts) => {
            let j = choose|j: int| 0 <= j < parts.len() && c.overlaps_rect(#[trigger] parts[j]);
            assert(splash(c).overlaps_rect(parts[j]));
        },
    }
}

proof fn lemma_take_contains(xs: Seq<usize>, k: int, m: usize)
    requires
        0 <= k < xs.len(),
    ensures
        xs.take(k + 1).contains(m) <==> xs.take(k).contains(m) || xs[k] == m,
{
    let t0 = xs.take(k);
    let t1 = xs.take(k + 1);
    if t1.contains(m) {
        let w = choose|w: int| 0 <= w < t1.len() && #[trigger] t1[w] == m;
        if w < k {
            assert(t0[w] == m);
        }
    }
    if t0.contains(m) {
        let w = choose|w: int| 0 <= w < t0.len() && #[trigger] t0[w] == m;
        assert(t1[w] == m);
    }
    if xs[k] == m {
        assert(t1[k] == m);
    }
}

fn damage_at(buildings: &mut Vec<Building>, i: usize, e: &CircleF)
    requires
        i < old(buildings).len(),
        all_buildings_wf(views(old(buildings)@)),
    ensures
        final(buildings).len() == old(buildings).len(),
        final(buildings)[i as int]@ == old(buildings)[i as int]@.damaged(*e),
        forall|m: int|
            0 <= m < old(buildings).len() && m != i ==> final(buildings)[m] == old(buildings)[m],
        all_buildings_wf(views(final(buildings)@)),
{
    assert(views(buildings@)[i as int].wf());
    buildings[i].damage(e);
    assert forall|m: int| 0 <= m < buildings.len() implies (#[trigger] views(buildings@)[m]).wf() by {
        if m != i {
            assert(views(old(buildings)@)[m].wf());
        }
    }
}

/// Carves the splash of `circle` out of every building that `xs` names, and
/// returns the splash.
pub fn destroy_terrain(circle: &CircleF, xs: Vec<usize>, buildings: &mut Vec<Building>) -> (explosion:
    CircleF)
    requires
        can_splash(*circle),
        all_buildings_wf(views(old(buildings)@)),
        forall|k: int| 0 <= k < xs.len() ==> (#[trigger] xs[k]) < old(buildings).len(),
    ensures
        explosion == splash(*circle),
        final(buildings).len() == old(buildings).len(),
        forall|i: int|
            0 <= i < old(buildings).len() ==> (#[trigger] final(buildings)[i])@ == if xs@.contains(
                i as usize,
            ) {
                old(buildings)[i]@.damaged(explosion)
            } else {
                old(buildings)[i]@
            },
        all_buildings_wf(views(final(buildings)@)),
{
    let explosion = splash_of(circle);
    let mut k: usize = 0;
    while k < xs.len()
        invariant
            k <= xs.len(),
            buildings.len() == old(buildings).len(),
            forall|m: int| 0 <= m < xs.len() ==> (#[trigger] xs[m]) < buildings.len(),
            all_buildings_wf(views(old(buildings)@)),
            all_buildings_wf(views(buildings@)),
            forall|i: int|
                0 <= i < buildings.len() ==> (#[trigger] buildings[i])@ == if xs@.take(
                    k as int,
                ).contains(i as usize) {
                    old(buildings)[i]@.damaged(explosion)
                } else {
                    old(buildings)[i]@
                },
        decreases xs.len() - k,
    {
        let i = xs[k];
        let ghost before = buildings@;
        damage_at(buildings, i, &explosion);
        proof {
            assert(views(old(buildings)@)[i as int].wf());
            lemma_damaged_idempotent(old(buildings)[i as int]@, explosion);
            assert forall|m: int| 0 <= m < buildings.len() implies (#[trigger] buildings[m])@
                == if xs@.take(k + 1).contains(m as usize) {
                old(buildings)[m]@.damaged(explosion)
            } else {
                old(buildings)[m]@
            } by {
                lemma_take_contains(xs@, k as int, m as usize);
                if m != i {
                    assert(buildings[m] == before[m]);
                }
            }
        }
        k += 1;
    }
    assert(xs@.take(k as int) =~= xs@);
    explosion
}

} // verus!

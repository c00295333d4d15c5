use gorillas::building::Building;
use gorillas::circle::CircleF;
use gorillas::geom::{Rectangle, Vector};
use gorillas::physics::{create_parts, destroy_terrain, remove_parts};

const PX: i64 = 1_000_000;

fn rect(x: i64, y: i64, w: i64, h: i64) -> Rectangle {
    Rectangle::new(Vector::new(x * PX, y * PX), Vector::new(w * PX, h * PX))
}

fn circle(x: i64, y: i64, r: i64) -> CircleF {
    CircleF::new(Vector::new(x * PX, y * PX), r * PX)
}

fn inside(inner: &Rectangle, outer: &Rectangle) -> bool {
    inner.pos.x >= outer.pos.x
        && inner.pos.y >= outer.pos.y
        && inner.pos.x + inner.size.x <= outer.pos.x + outer.size.x
        && inner.pos.y + inner.size.y <= outer.pos.y + outer.size.y
}

#[test]
fn carve_far_circle_keeps_the_four_quadrants() {
    let parts = create_parts(&circle(500, 500, 10), &rect(0, 0, 64, 32));
    assert_eq!(
        parts,
        vec![rect(0, 0, 32, 16), rect(32, 0, 32, 16), rect(0, 16, 32, 16), rect(32, 16, 32, 16)]
    );
}

#[test]
fn carve_covering_circle_leaves_nothing() {
    let parts = create_parts(&circle(32, 32, 200), &rect(0, 0, 64, 64));
    assert!(parts.is_empty());
}

#[test]
fn carve_leaf_drops_touched_quadrants_whole() {
    // A 2 x 2 pixel source is a leaf: the circle touches only the top-left quadrant.
    let e = CircleF::new(Vector::new(0, 0), PX / 2);
    let parts = create_parts(&e, &rect(0, 0, 2, 2));
    assert_eq!(parts, vec![rect(1, 0, 1, 1), rect(0, 1, 1, 1), rect(1, 1, 1, 1)]);
}

#[test]
fn carve_subdivides_only_touched_quadrants() {
    // 16 x 16 source, circle of radius 1 about the top-left corner.
    let e = circle(0, 0, 1);
    let parts = create_parts(&e, &rect(0, 0, 16, 16));
    // Top-left quadrant (8 x 8) is carved down to 1 x 1 fragments; the other three stay whole.
    assert!(parts.contains(&rect(8, 0, 8, 8)));
    assert!(parts.contains(&rect(0, 8, 8, 8)));
    assert!(parts.contains(&rect(8, 8, 8, 8)));
    assert!(parts.contains(&rect(4, 0, 4, 4)));
    assert!(parts.contains(&rect(2, 0, 2, 2)));
    assert!(parts.contains(&rect(1, 0, 1, 1)));
    assert!(!parts.contains(&rect(0, 0, 1, 1)));
    assert_eq!(parts.len(), 3 + 3 + 3 + 3);
    for p in parts.iter() {
        assert!(!e.overlaps(p));
    }
}

#[test]
fn carve_fragments_stay_within_source() {
    let source = rect(100, 300, 96, 300);
    let e = circle(150, 320, 40);
    let parts = create_parts(&e, &source);
    assert!(!parts.is_empty());
    for p in parts.iter() {
        assert!(inside(p, &source));
        assert!(p.size.x >= 0 && p.size.y >= 0);
        assert!(!e.overlaps(p));
    }
}

#[test]
fn carve_odd_size_gives_the_odd_unit_to_the_right_and_lower_quadrants() {
    let source = Rectangle::new(Vector::new(0, 0), Vector::new(7, 5));
    let parts = create_parts(&CircleF::new(Vector::new(1000, 1000), 1), &source);
    let q = |x, y, w, h| Rectangle::new(Vector::new(x, y), Vector::new(w, h));
    assert_eq!(parts, vec![q(0, 0, 3, 2), q(3, 0, 4, 2), q(0, 2, 3, 3), q(3, 2, 4, 3)]);
}

fn holds(parts: &[Rectangle], x: i64, y: i64) -> bool {
    parts.iter().any(|p| p.contains(Vector::new(x, y)))
}

fn area(parts: &[Rectangle]) -> i128 {
    parts.iter().map(|p| p.size.x as i128 * p.size.y as i128).sum()
}

#[test]
fn carve_loses_nothing_away_from_the_explosion() {
    let source = Rectangle::new(Vector::new(0, 0), Vector::new(8_000_003, 8_000_003));
    let e = CircleF::new(Vector::new(4_500_000, 500_000), 1);
    let parts = create_parts(&e, &source);
    assert!(holds(&parts, 8_000_002, 500_000));
    assert!(holds(&parts, 8_000_002, 8_000_002));
    assert!(holds(&parts, 0, 0));
    assert!(!holds(&parts, 4_500_000, 500_000));
    // What is lost is one finest quadrant about the explosion, of at most 2 px a side.
    let lost = 8_000_003i128 * 8_000_003 - area(&parts);
    assert!(0 < lost && lost <= 2_000_000i128 * 2_000_000);
    for x in (0..8_000_003i64).step_by(250_001) {
        for y in (0..8_000_003i64).step_by(250_001) {
            let near = (x - 4_500_000).abs() <= 2_000_001 && (y - 500_000).abs() <= 2_000_001;
            assert!(near || holds(&parts, x, y));
        }
    }
}

#[test]
fn carve_with_a_far_circle_keeps_the_whole_area() {
    for (w, h) in [(7, 5), (1, 1), (1, 9_000_001), (8_000_003, 3), (64_000_000, 344_000_000)] {
        let source = Rectangle::new(Vector::new(-3, 11), Vector::new(w, h));
        let parts = create_parts(&CircleF::new(Vector::new(-900_000_000, 0), 5), &source);
        assert_eq!(parts.len(), 4);
        assert_eq!(area(&parts), w as i128 * h as i128);
    }
}

#[test]
fn repeated_hits_take_only_what_they_touch() {
    let source = rect(0, 0, 9, 9);
    let mut parts = vec![source];
    let hits = [(1, 1), (1, 1), (2, 2), (1, 2), (7, 7), (2, 1)];
    for (x, y) in hits.iter() {
        let e = CircleF::new(Vector::new(x * PX + 333_333, y * PX + 1), 700_001);
        remove_parts(&e, &mut parts);
    }
    for x in (0..9 * PX).step_by(499_999) {
        for y in (0..9 * PX).step_by(499_999) {
            let near = hits.iter().any(|(hx, hy)| {
                (x - hx * PX - 333_333).abs() <= 2_700_001 && (y - hy * PX - 1).abs() <= 2_700_001
            });
            assert!(near || holds(&parts, x, y));
        }
    }
}

#[test]
fn recarve_keeps_untouched_fragments_in_order() {
    let mut parts = vec![rect(0, 0, 2, 2), rect(100, 0, 2, 2), rect(200, 0, 2, 2)];
    let before = parts.clone();
    remove_parts(&circle(500, 500, 10), &mut parts);
    assert_eq!(parts, before);
    remove_parts(&circle(500, 500, 10), &mut parts);
    assert_eq!(parts, before);
}

#[test]
fn recarve_appends_carved_after_kept() {
    let mut parts = vec![rect(0, 0, 2, 2), rect(100, 0, 2, 2)];
    let e = CircleF::new(Vector::new(0, 0), PX / 2);
    remove_parts(&e, &mut parts);
    assert_eq!(
        parts,
        vec![rect(100, 0, 2, 2), rect(1, 0, 1, 1), rect(0, 1, 1, 1), rect(1, 1, 1, 1)]
    );
}

#[test]
fn recarve_is_idempotent() {
    let mut parts = create_parts(&circle(20, 20, 15), &rect(0, 0, 64, 64));
    let e = circle(40, 30, 12);
    remove_parts(&e, &mut parts);
    let once = parts.clone();
    remove_parts(&e, &mut parts);
    assert_eq!(parts, once);
}

#[test]
fn destroy_terrain_damages_named_buildings_only() {
    let mut buildings = vec![
        Building::new(rect(0, 300, 64, 300), vec![]),
        Building::new(rect(72, 300, 64, 300), vec![]),
    ];
    let shot = circle(32, 300, 10);
    let explosion = destroy_terrain(&shot, vec![0], &mut buildings);
    assert_eq!(explosion.radius, 40 * PX);
    assert_eq!(explosion.pos, shot.pos);
    assert!(buildings[0].fragments.is_some());
    assert!(buildings[1].fragments.is_none());
    for p in buildings[0].fragments.as_ref().unwrap() {
        assert!(inside(p, &buildings[0].bound_box));
        assert!(!explosion.overlaps(p));
    }
}

#[test]
fn destroy_terrain_leaves_untouched_intact_building_intact() {
    let mut buildings = vec![Building::new(rect(0, 300, 64, 300), vec![])];
    destroy_terrain(&circle(700, 0, 10), vec![0], &mut buildings);
    assert!(buildings[0].fragments.is_none());
}

#[test]
fn destroy_terrain_twice_is_as_once() {
    let mut a = vec![Building::new(rect(0, 300, 64, 300), vec![])];
    let mut b = vec![Building::new(rect(0, 300, 64, 300), vec![])];
    let shot = circle(32, 310, 10);
    destroy_terrain(&shot, vec![0], &mut a);
    destroy_terrain(&shot, vec![0, 0], &mut b);
    assert_eq!(a[0].fragments, b[0].fragments);
}

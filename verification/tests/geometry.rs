use gorillas::circle::{about_equal, CircleF};
use gorillas::geom::{integer_sqrt, Rectangle, Vector};

const PX: i64 = 1_000_000;

fn rect(x: i64, y: i64, w: i64, h: i64) -> Rectangle {
    Rectangle::new(Vector::new(x * PX, y * PX), Vector::new(w * PX, h * PX))
}

fn circle(x: i64, y: i64, r: i64) -> CircleF {
    CircleF::new(Vector::new(x * PX, y * PX), r * PX)
}

#[test]
fn integer_sqrt_rounds_down() {
    assert_eq!(integer_sqrt(0), 0);
    assert_eq!(integer_sqrt(1), 1);
    assert_eq!(integer_sqrt(2), 1);
    assert_eq!(integer_sqrt(3), 1);
    assert_eq!(integer_sqrt(4), 2);
    assert_eq!(integer_sqrt(24), 4);
    assert_eq!(integer_sqrt(25), 5);
    assert_eq!(integer_sqrt(2_000_000_000_000), 1_414_213);
    assert_eq!(integer_sqrt(u128::MAX), u64::MAX);
    assert_eq!(integer_sqrt((u64::MAX as u128) * (u64::MAX as u128) - 1), u64::MAX - 1);
}

#[test]
fn normalize_scales_to_unit_length() {
    assert_eq!(Vector::new(3 * PX, 4 * PX).normalize(), Vector::new(600_000, 800_000));
    assert_eq!(Vector::new(-3 * PX, 4 * PX).normalize(), Vector::new(-600_000, 800_000));
    assert_eq!(Vector::new(0, -7).normalize(), Vector::new(0, -1_000_000));
    assert_eq!(Vector::new(PX, PX).normalize(), Vector::new(707_106, 707_106));
    assert_eq!(
        Vector::new(1_000_000, -100_000).normalize(),
        Vector::new(995_037, -99_503)
    );
}

#[test]
fn normalize_is_fine_for_the_shortest_vectors() {
    assert_eq!(Vector::new(1, 1).normalize(), Vector::new(707_107, 707_107));
    assert_eq!(Vector::new(3, -4).normalize(), Vector::new(600_000, -800_000));
    assert_eq!(Vector::new(-1, 0).normalize(), Vector::new(-1_000_000, 0));
    assert_eq!(Vector::new(1, 2).normalize(), Vector::new(447_213, 894_427));
}

fn length_is_one(d: Vector) -> bool {
    let l = d.x as i128 * d.x as i128 + d.y as i128 * d.y as i128;
    999_997i128 * 999_997 <= l && l < 1_000_001i128 * 1_000_001
}

#[test]
fn normalize_gives_unit_length_at_every_size() {
    let sizes = [1i64, 7, 1000, 999_999, 1_000_000_000_000, 1_000_000_000_001, i64::MAX];
    for a in sizes.iter() {
        for b in sizes.iter() {
            assert!(length_is_one(Vector::new(*a, -*b).normalize()));
            assert!(length_is_one(Vector::new(-*a, 0).normalize()));
        }
    }
}

#[test]
fn normalize_handles_the_largest_vectors() {
    let d = Vector::new(i64::MIN, i64::MAX).normalize();
    assert_eq!(d, Vector::new(-707_106, 707_106));
    assert_eq!(Vector::new(i64::MAX, 0).normalize(), Vector::new(1_000_000, 0));
}

#[test]
fn rectangle_center_is_pos_plus_half_size() {
    assert_eq!(rect(10, 20, 64, 96).center(), Vector::new(42 * PX, 68 * PX));
    let odd = Rectangle::new(Vector::new(0, 0), Vector::new(5, 7));
    assert_eq!(odd.center(), Vector::new(2, 3));
}

#[test]
fn rectangle_contains_excludes_far_edges() {
    let r = rect(10, 10, 10, 10);
    assert!(r.contains(Vector::new(10 * PX, 10 * PX)));
    assert!(r.contains(Vector::new(20 * PX - 1, 20 * PX - 1)));
    assert!(!r.contains(Vector::new(20 * PX, 15 * PX)));
    assert!(!r.contains(Vector::new(15 * PX, 20 * PX)));
    assert!(!r.contains(Vector::new(10 * PX - 1, 15 * PX)));
}

#[test]
fn circle_contains_is_strict() {
    let c = circle(0, 0, 10);
    assert!(c.contains(Vector::new(0, 0)));
    assert!(!c.contains(Vector::new(11 * PX, 11 * PX)));
    assert!(c.contains(Vector::new(10 * PX - 1, 0)));
    assert!(!c.contains(Vector::new(10 * PX, 0)));
}

#[test]
fn circle_overlap_cases() {
    let a = circle(0, 0, 16);
    let b = circle(5, 5, 4);
    let c = circle(50, 50, 5);
    let d = rect(10, 10, 10, 10);
    assert!(a.overlaps_circle(&b));
    assert!(!a.overlaps_circle(&c));
    assert!(a.overlaps(&d));
    assert!(!c.overlaps(&d));
    assert!(d.overlaps_circle(&a));
}

#[test]
fn circle_touching_rectangle_edge_does_not_overlap() {
    let r = rect(0, 0, 10, 10);
    // Centre 5 px right of the right edge, radius 5 px: touching, not overlapping.
    assert!(!circle(15, 5, 5).overlaps(&r));
    assert!(CircleF::new(Vector::new(15 * PX, 5 * PX), 5 * PX + 1).overlaps(&r));
    // Diagonal from the corner: distance is 5 px exactly for (3, 4).
    assert!(!circle(13, 14, 5).overlaps(&r));
    assert!(CircleF::new(Vector::new(13 * PX, 14 * PX), 5 * PX + 1).overlaps(&r));
}

#[test]
fn circle_inside_rectangle_overlaps_unless_empty() {
    let r = rect(0, 0, 10, 10);
    assert!(circle(5, 5, 1).overlaps(&r));
    assert!(!circle(5, 5, 0).overlaps(&r));
}

#[test]
fn overlap_is_total_on_extreme_coordinates() {
    let far = Rectangle::new(Vector::new(i64::MAX - 10, i64::MAX - 10), Vector::new(10, 10));
    let c = CircleF::new(Vector::new(i64::MIN, i64::MIN), i64::MAX);
    assert!(!c.overlaps(&far));
    let near = CircleF::new(Vector::new(i64::MAX, i64::MAX), 1);
    assert!(near.overlaps(&far));
}

#[test]
fn circle_bounding_box_and_translate() {
    let c = circle(10, 20, 5);
    assert_eq!(c.bounding_box(), rect(5, 15, 10, 10));
    let t = c.translate(Vector::new(PX, -2 * PX));
    assert_eq!(t.pos, Vector::new(11 * PX, 18 * PX));
    assert_eq!(t.radius, 5 * PX);
    assert_eq!(c.center(), Vector::new(10 * PX, 20 * PX));
}

#[test]
fn circles_compare_with_tolerance() {
    let a = CircleF::new(Vector::new(0, 0), 10);
    assert!(a == CircleF::new(Vector::new(99, -99), 10 + 99));
    assert!(a != CircleF::new(Vector::new(100, 0), 10));
    assert!(a != CircleF::new(Vector::new(0, 0), 110));
    assert!(about_equal(500_000, 500_099));
    assert!(!about_equal(600_000, 500_000));
    assert!(!about_equal(i64::MIN, i64::MAX));
}

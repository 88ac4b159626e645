use quad_render::aabb::{Aabb, Vec2, UNITS_PER_PIXEL};

const U: i64 = UNITS_PER_PIXEL;

fn rect(x: i64, y: i64, w: i64, h: i64) -> Aabb {
    Aabb::new(Vec2::new(x, y), Vec2::new(w, h))
}

#[test]
fn from_centre_and_half_size_places_corner() {
    let a = Aabb::from_centre_and_half_size(Vec2::new(10 * U, 20 * U), Vec2::new(3 * U, 4 * U));
    assert_eq!(a, rect(7 * U, 16 * U, 6 * U, 8 * U));
}

#[test]
fn centre_is_corner_plus_half_size() {
    assert_eq!(rect(40 * U, 60 * U, 10 * U, 16 * U).centre(), Vec2::new(45 * U, 68 * U));
    assert_eq!(rect(0, 0, 8, 10).centre(), Vec2::new(4, 5));
    assert_eq!(rect(0, 0, -8, -10).centre(), Vec2::new(-4, -5));
}

#[test]
fn overlapping_rectangles_intersect_both_ways() {
    let a = rect(0, 0, 10, 10);
    let b = rect(5, 5, 10, 10);
    assert!(a.is_intersecting(&b));
    assert!(b.is_intersecting(&a));
    let inner = rect(2, 2, 1, 1);
    assert!(a.is_intersecting(&inner));
    assert!(inner.is_intersecting(&a));
}

#[test]
fn touching_rectangles_do_not_intersect() {
    let a = rect(0, 0, 10, 10);
    let right = rect(10, 0, 10, 10);
    let below = rect(0, 10, 10, 10);
    let corner = rect(10, 10, 10, 10);
    for b in [right, below, corner] {
        assert!(!a.is_intersecting(&b));
        assert!(!b.is_intersecting(&a));
    }
}

#[test]
fn separate_rectangles_do_not_intersect() {
    let a = rect(0, 0, 10, 10);
    let b = rect(50, -40, 3, 3);
    assert!(!a.is_intersecting(&b));
    assert!(!b.is_intersecting(&a));
}

#[test]
fn intersection_at_extreme_coordinates() {
    let a = rect(i64::MAX - 5, i64::MAX - 5, i64::MAX, i64::MAX);
    let b = rect(i64::MAX - 1, i64::MAX - 1, 1, 1);
    assert!(a.is_intersecting(&b));
    assert!(b.is_intersecting(&a));
}

#[test]
fn split_four_tiles_the_rectangle() {
    let r = rect(40 * U, 60 * U, 10 * U, 16 * U);
    let s = r.split_four();
    let size = Vec2::new(5 * U, 8 * U);
    assert_eq!(s.top_left, Aabb::new(Vec2::new(40 * U, 60 * U), size));
    assert_eq!(s.top_right, Aabb::new(Vec2::new(45 * U, 60 * U), size));
    assert_eq!(s.bottom_left, Aabb::new(Vec2::new(40 * U, 68 * U), size));
    assert_eq!(s.bottom_right, Aabb::new(Vec2::new(45 * U, 68 * U), size));
    let quads = [s.top_left, s.top_right, s.bottom_left, s.bottom_right];
    for i in 0..4 {
        for j in (i + 1)..4 {
            assert!(!quads[i].is_intersecting(&quads[j]));
        }
    }
    assert_eq!(s.bottom_right.top_left_coord.x + s.bottom_right.size.x, 50 * U);
    assert_eq!(s.bottom_right.top_left_coord.y + s.bottom_right.size.y, 76 * U);
}

#[test]
fn try_split_four_refuses_odd_extents() {
    assert!(rect(0, 0, 3, 4).try_split_four().is_none());
    assert!(rect(0, 0, 4, 3).try_split_four().is_none());
    let s = rect(0, 0, 6, 4).try_split_four().expect("even extents split");
    assert_eq!(s.bottom_right, rect(3, 2, 3, 2));
}

#[test]
fn try_split_four_refuses_unrepresentable_centre() {
    assert!(rect(i64::MAX - 1, 0, 4, 4).try_split_four().is_none());
    assert!(rect(0, i64::MIN, 4, -4).try_split_four().is_none());
    assert!(rect(i64::MAX - 2, 0, 4, 4).try_split_four().is_some());
}

#[test]
fn quadrants_of_one_pixel_split_again_exactly() {
    let mut q = rect(0, 0, U, U);
    for _ in 0..24 {
        let s = q.try_split_four().expect("whole units");
        assert_eq!(s.top_left.size.x * 2, q.size.x);
        assert_eq!(s.bottom_right.top_left_coord.x + s.bottom_right.size.x, q.size.x);
        q = s.top_left;
    }
    assert_eq!(q.size, Vec2::new(1, 1));
    assert!(q.try_split_four().is_none());
}

#[test]
fn doubling_a_quadrant_gives_the_parent_size() {
    let p = rect(10 * U, 20 * U, 6 * U, 4 * U);
    let s = p.split_four();
    for q in [s.top_left, s.top_right, s.bottom_left, s.bottom_right] {
        let d = q.double_about_centre();
        assert_eq!(d.size, p.size);
        assert_eq!(d.centre(), q.centre());
    }
}

#[test]
fn double_about_centre_keeps_centre_and_doubles_size() {
    let r = rect(40 * U, 60 * U, 10 * U, 16 * U);
    let d = r.double_about_centre();
    assert_eq!(d, rect(35 * U, 52 * U, 20 * U, 32 * U));
    assert_eq!(d.centre(), r.centre());
}

#[test]
fn double_is_not_the_inverse_of_split() {
    let r = rect(0, 0, 8, 8);
    let q = r.split_four().top_left;
    assert_eq!(q.double_about_centre(), rect(-2, -2, 8, 8));
    assert_ne!(q.double_about_centre(), r);
}

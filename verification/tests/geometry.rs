use voronoi_lines::Line;
use voronoi_lines::Point;
use voronoi_lines::Rect;

#[test]
fn point_new_holds_coords() {
    let p = Point::new(-3, 7);
    assert_eq!(p.x, -3);
    assert_eq!(p.y, 7);
}

#[test]
fn line_constructors_agree() {
    let l1 = Line::new_from_coords(1, 2, 3, 4);
    let l2 = Line::new(Point::new(1, 2), Point::new(3, 4));
    assert_eq!(l1, l2);
}

#[test]
fn rect_getters() {
    let r = Rect::new_from_coords(-10, -10, 10, 10);
    assert_eq!(r.get_x0(), -10);
    assert_eq!(r.get_y0(), -10);
    assert_eq!(r.get_x1(), 10);
    assert_eq!(r.get_y1(), 10);
    let r2 = Rect::new_from_points(Point::new(1, 2), Point::new(3, 4));
    assert_eq!(r2.get_x0(), 1);
    assert_eq!(r2.get_y0(), 2);
    assert_eq!(r2.get_x1(), 3);
    assert_eq!(r2.get_y1(), 4);
}

#[test]
fn length_pythagorean_triple_is_exact() {
    let l = Line::new_from_coords(0, 0, 3, 4);
    assert_eq!(l.length(), 5);
    assert_eq!(Line::length_static(l), 5);
}

#[test]
fn length_rounds_down() {
    assert_eq!(Line::new_from_coords(0, 0, 1, 1).length(), 1);
    assert_eq!(Line::new_from_coords(0, 0, 0, 0).length(), 0);
    assert_eq!(Line::new_from_coords(2, 0, 0, 3).length(), 3);
}

#[test]
fn midpoint_even_sum() {
    let l = Line::new_from_coords(0, 0, 4, 4);
    assert_eq!(l.mid_point(), Point::new(2, 2));
    assert_eq!(Line::mid_point_static(l), Point::new(2, 2));
}

#[test]
fn midpoint_truncates_toward_zero() {
    assert_eq!(Line::new_from_coords(0, 0, 3, 3).mid_point(), Point::new(1, 1));
    assert_eq!(Line::new_from_coords(0, 0, -3, -3).mid_point(), Point::new(-1, -1));
    assert_eq!(Line::new_from_coords(-1, 5, 2, 6).mid_point(), Point::new(0, 5));
}

#[test]
fn cross_signum_value() {
    // (a.x - b.x) * (p.y - a.y) - (a.y - b.y) * signum(p.y - a.x)
    let l = Line::new_from_coords(0, 0, 4, 0);
    assert_eq!(Line::cross_signum_static(l, Point::new(9, 2)), -8);
    assert_eq!(Line::cross_signum_static(l, Point::new(9, 0)), 0);
    let l2 = Line::new_from_coords(1, 3, 2, 5);
    // (1 - 2) * (7 - 3) - (3 - 5) * signum(7 - 1) = -4 + 2 = -2
    assert_eq!(Line::cross_signum_static(l2, Point::new(0, 7)), -2);
}

#[test]
fn collides_is_orientation_equality() {
    let l1 = Line::new_from_coords(0, 0, 4, 0);
    // Both endpoints at the same height give equal scalars: a collision.
    let flat = Line::new_from_coords(0, 5, 4, 5);
    assert!(Line::collides_static(l1, flat));
    assert!(l1.collides(flat));
    // Endpoints at different heights give different scalars: no collision.
    let upright = Line::new_from_coords(10, 0, 10, 4);
    assert!(!Line::collides_static(l1, upright));
    assert!(!l1.collides(upright));
}

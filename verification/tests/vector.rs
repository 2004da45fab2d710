use orbit_toy::vec2d::{PhysicsError, Vec2d};
use orbit_toy::SCALE;

#[test]
fn new_and_getters() {
    let v = Vec2d::new(3, -4);
    assert_eq!(v.x(), 3);
    assert_eq!(v.y(), -4);
}

#[test]
fn setters_replace_one_component() {
    let mut v = Vec2d::new(1, 2);
    v.set_x(10);
    assert_eq!((v.x(), v.y()), (10, 2));
    v.set_y(-7);
    assert_eq!((v.x(), v.y()), (10, -7));
}

#[test]
fn add_and_sub_are_componentwise() {
    let a = Vec2d::new(3, -4);
    let b = Vec2d::new(10, 20);
    let s = a.add(&b);
    assert_eq!((s.x(), s.y()), (13, 16));
    let d = a.sub(&b);
    assert_eq!((d.x(), d.y()), (-7, -24));
}

#[test]
fn scale_multiplies_componentwise() {
    let v = Vec2d::new(3, -4).scale(5);
    assert_eq!((v.x(), v.y()), (15, -20));
}

#[test]
fn divide_rounds_toward_zero() {
    let v = Vec2d::new(7, -7).divide(2).unwrap();
    assert_eq!((v.x(), v.y()), (3, -3));
    let w = Vec2d::new(7, -7).divide(-2).unwrap();
    assert_eq!((w.x(), w.y()), (-3, 3));
}

#[test]
fn divide_by_zero_fails() {
    let r = Vec2d::new(1, 2).divide(0);
    assert_eq!(r, Err(PhysicsError::DivideByZero));
}

#[test]
fn dot_product_is_exact() {
    let a = Vec2d::new(3, -4);
    let b = Vec2d::new(10, 20);
    assert_eq!(a.dot(&b), 3 * 10 + (-4) * 20);
}

#[test]
fn norm_of_pythagorean_vector_is_exact() {
    let v = Vec2d::new(3 * SCALE, 4 * SCALE);
    assert_eq!(v.norm(), 5 * SCALE);
}

#[test]
fn norm_is_nonnegative_and_zero_only_on_zero() {
    assert_eq!(Vec2d::new(0, 0).norm(), 0);
    assert!(Vec2d::new(1, 0).norm() > 0);
    assert!(Vec2d::new(0, -1).norm() > 0);
    assert!(Vec2d::new(-5, 12).norm() > 0);
}

#[test]
fn norm_rounds_down() {
    // sqrt(2) rounds down to 1, sqrt(8) rounds down to 2.
    assert_eq!(Vec2d::new(1, 1).norm(), 1);
    assert_eq!(Vec2d::new(2, 2).norm(), 2);
}

#[test]
fn normalize_gives_unit_length() {
    let n = Vec2d::new(3 * SCALE, 4 * SCALE).normalize().unwrap();
    assert_eq!((n.x(), n.y()), (3 * SCALE / 5, 4 * SCALE / 5));
    assert_eq!(n.norm(), SCALE);
}

#[test]
fn normalize_of_long_vector_stays_close_to_unit() {
    let n = Vec2d::new(7 * SCALE, -9 * SCALE).normalize().unwrap();
    let mag = n.norm();
    assert!(SCALE - 3 <= mag && mag <= SCALE + 3);
}

#[test]
fn normalize_of_zero_vector_fails() {
    let r = Vec2d::new(0, 0).normalize();
    assert_eq!(r, Err(PhysicsError::DegenerateVector));
}

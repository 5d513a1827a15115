use cobalt::physics::{expire_forces, Force2D, ForceMode2D, ForceTarget};
use cobalt::renderable::{OriginType, TestTriangle};

fn force(name: &'static str, mode: ForceMode2D) -> Force2D<&'static str> {
    Force2D { force: name, mode }
}

#[test]
fn impulse_acts_on_the_velocity() {
    assert_eq!(ForceMode2D::Impulse.target(), ForceTarget::Velocity);
    assert_eq!(ForceMode2D::Continuous.target(), ForceTarget::Acceleration);
    assert_eq!(ForceMode2D::Timed(5).target(), ForceTarget::Acceleration);
}

#[test]
fn timed_force_acts_until_its_time() {
    assert!(ForceMode2D::Timed(100).outlasts_step(99));
    assert!(!ForceMode2D::Timed(100).outlasts_step(100));
    assert!(!ForceMode2D::Timed(100).outlasts_step(101));
    assert!(ForceMode2D::Continuous.outlasts_step(u64::MAX));
    assert!(!ForceMode2D::Impulse.outlasts_step(0));
}

#[test]
fn step_drops_the_forces_that_are_used_up() {
    let mut forces = vec![
        force("wind", ForceMode2D::Continuous),
        force("kick", ForceMode2D::Impulse),
        force("boost", ForceMode2D::Timed(50)),
        force("spent", ForceMode2D::Timed(10)),
        force("jump", ForceMode2D::Impulse),
        force("pull", ForceMode2D::Continuous),
    ];
    expire_forces(&mut forces, 10);
    let names: Vec<&str> = forces.iter().map(|f| f.force).collect();
    assert_eq!(names, vec!["wind", "boost", "pull"]);
    expire_forces(&mut forces, 50);
    let names: Vec<&str> = forces.iter().map(|f| f.force).collect();
    assert_eq!(names, vec!["wind", "pull"]);
    let mut none: Vec<Force2D<u8>> = Vec::new();
    expire_forces(&mut none, 0);
    assert!(none.is_empty());
}

#[test]
fn test_triangle_has_no_state() {
    assert_eq!(TestTriangle::new(), TestTriangle {});
    assert_ne!(OriginType::Center, OriginType::TopLeft);
}

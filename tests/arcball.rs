use soft_raster::arcball::{Arcball, Drag, PointerEvent};
use soft_raster::camera::MoveDirection;
use soft_raster::shader::DiffuseShader;

#[test]
fn drag_yields_motions_between_positions() {
    let mut a = Arcball::new(800, 600);
    assert!(!a.is_dragging());
    assert_eq!(a.handle(PointerEvent::Move { x: 5, y: 5 }), None);
    assert!(!a.is_dragging());
    assert_eq!(a.handle(PointerEvent::Down { x: 10, y: 20 }), None);
    assert!(a.is_dragging());
    assert_eq!(a.handle(PointerEvent::Move { x: 10, y: 20 }), None);
    assert_eq!(
        a.handle(PointerEvent::Move { x: 15, y: 22 }),
        Some(Drag { from_x: 10, from_y: 20, to_x: 15, to_y: 22 })
    );
    assert_eq!(
        a.handle(PointerEvent::Down { x: 16, y: 22 }),
        Some(Drag { from_x: 15, from_y: 22, to_x: 16, to_y: 22 })
    );
    assert_eq!(a.handle(PointerEvent::Up), None);
    assert!(!a.is_dragging());
    assert_eq!(a.handle(PointerEvent::Move { x: 30, y: 30 }), None);
}

#[test]
fn centre_is_on_front_hemisphere_and_corners_are_not() {
    let a = Arcball::new(800, 600);
    assert!(a.on_front_hemisphere(400, 300));
    assert!(!a.on_front_hemisphere(0, 0));
    assert!(!a.on_front_hemisphere(800, 600));
    assert!(a.on_front_hemisphere(400, 0));
    assert!(!a.on_front_hemisphere(400, -1));
}

#[test]
fn move_directions_compare() {
    assert_eq!(MoveDirection::Left, MoveDirection::Left);
    assert_ne!(MoveDirection::Up, MoveDirection::Down);
    let _ = DiffuseShader {};
}

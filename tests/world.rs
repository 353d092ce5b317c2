use bounce::schedule::Step;
use bounce::world::World;
use glam::Vec2;

fn world_of(n: usize) -> World<u32> {
    let mut w = World::new(Vec2::new(2.0, 1.5));
    for k in 0..n {
        w.insert_item(k as u32 * 10);
    }
    w
}

#[test]
fn new_world_is_empty() {
    let w: World<u32> = World::new(Vec2::new(2.0, 1.5));
    assert_eq!(w.n_items(), 0);
    assert!(!w.is_dragging());
    assert_eq!(w.size(), Vec2::new(2.0, 1.5));
    assert!(w.derivative_steps().is_empty());
}

#[test]
fn missed_grab_leaves_no_drag() {
    let mut w = world_of(3);
    w.drag_acquire(Vec2::new(5.0, 5.0), &vec![None, None, None]);
    assert!(!w.is_dragging());
    w.drag_move(Vec2::new(1.0, 1.0));
    assert!(!w.is_dragging());
    w.drag_release();
    assert!(w.drag().is_none());
    assert_eq!(w.items(), &[0, 10, 20]);
}

#[test]
fn grab_takes_first_hit() {
    let mut w = world_of(3);
    let pos = Vec2::new(0.5, 0.25);
    let anchors = vec![None, Some(Vec2::new(0.1, 0.0)), Some(Vec2::new(0.2, 0.0))];
    w.drag_acquire(pos, &anchors);
    let d = w.drag().expect("an item is hit");
    assert_eq!(d.item, 1);
    assert_eq!(d.target, pos);
    assert_eq!(d.anchor, Vec2::new(0.1, 0.0));
    assert_eq!(w.derivative_steps().last(), Some(&Step::Attract(1)));

    w.drag_move(Vec2::new(-1.0, 0.0));
    let moved = w.drag().unwrap();
    assert_eq!(moved.item, 1);
    assert_eq!(moved.target, Vec2::new(-1.0, 0.0));
    assert_eq!(moved.anchor, Vec2::new(0.1, 0.0));

    w.drag_release();
    assert!(!w.is_dragging());
}

#[test]
fn removing_dragged_item_ends_drag() {
    let mut w = world_of(3);
    w.drag_acquire(Vec2::ZERO, &vec![None, None, Some(Vec2::ZERO)]);
    assert!(w.is_dragging());
    let taken = w.remove_item(2);
    assert_eq!(taken, 20);
    assert!(!w.is_dragging());
    assert_eq!(w.n_items(), 2);
}

#[test]
fn removing_other_item_ends_drag_too() {
    let mut w = world_of(3);
    w.drag_acquire(Vec2::ZERO, &vec![Some(Vec2::ZERO), None, None]);
    assert_eq!(w.remove_item(1), 10);
    assert!(!w.is_dragging());
    assert_eq!(w.items(), &[0, 20]);
}

#[test]
fn resize_keeps_items_and_drag() {
    let mut w = world_of(2);
    w.drag_acquire(Vec2::ZERO, &vec![Some(Vec2::ONE), None]);
    w.resize(Vec2::new(3.0, 3.0));
    assert_eq!(w.size(), Vec2::new(3.0, 3.0));
    assert_eq!(w.n_items(), 2);
    assert!(w.is_dragging());
}

#[test]
fn items_update_in_place() {
    let mut w = world_of(3);
    for item in w.items_mut().iter_mut() {
        *item += 1;
    }
    assert_eq!(w.items(), &[1, 11, 21]);
    assert_eq!(w.state_cells().len(), 12);
}

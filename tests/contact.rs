use bounce::contact::{contact_axis, pair_contacts, Axis, ContactCall, ShapeKind};
use bounce::schedule::{derivative_schedule, Step};
use geom2::{Disk, HalfPlane, Integrable, Intersect};
use glam::Vec2;

#[test]
fn axis_per_shape_pair() {
    assert_eq!(contact_axis(ShapeKind::Circle, ShapeKind::Circle), Axis::CenterLine);
    assert_eq!(
        contact_axis(ShapeKind::Circle, ShapeKind::Rectangle),
        Axis::DiskPolygon { flipped: false }
    );
    assert_eq!(
        contact_axis(ShapeKind::Rectangle, ShapeKind::Circle),
        Axis::DiskPolygon { flipped: true }
    );
    assert_eq!(contact_axis(ShapeKind::Rectangle, ShapeKind::Rectangle), Axis::Polygons);
}

#[test]
fn contact_calls_are_opposite() {
    let (a, b) = pair_contacts(2, 5);
    assert_eq!(a, ContactCall { body: 2, reference: 5, sign: -1 });
    assert_eq!(b, ContactCall { body: 5, reference: 2, sign: 1 });
    assert_eq!(a.sign, -b.sign);
}

#[test]
fn overlapping_circles_push_apart() {
    let first = Disk::new(Vec2::new(0.0, 0.0), 0.2);
    let second = Disk::new(Vec2::new(0.3, 0.0), 0.2);
    let overlap = first.intersect(&second).expect("the disks overlap");
    let area = match overlap {
        either::Either::Left(lens) => lens.moment().area,
        either::Either::Right(disk) => disk.moment().area,
    };
    assert!(area > 0.0);
    assert_eq!(contact_axis(ShapeKind::Circle, ShapeKind::Circle), Axis::CenterLine);
    let (a, b) = pair_contacts(0, 1);
    assert_eq!(a.sign, -b.sign);
    let axis = second.center - first.center;
    let force_a = axis * (a.sign as f32 * area);
    let force_b = axis * (b.sign as f32 * area);
    assert_eq!(force_a, -force_b);
    assert!(force_a.x < 0.0 && force_b.x > 0.0);
}

#[test]
fn centered_circle_touches_no_wall() {
    let size = Vec2::new(2.0, 2.0);
    let wall = size - 0.04 * size.min_element();
    let disk = Disk::new(Vec2::ZERO, 0.1);
    let walls = [
        HalfPlane { normal: Vec2::new(1.0, 0.0), offset: -wall.x },
        HalfPlane { normal: Vec2::new(-1.0, 0.0), offset: -wall.x },
        HalfPlane { normal: Vec2::new(0.0, 1.0), offset: -wall.y },
        HalfPlane { normal: Vec2::new(0.0, -1.0), offset: -wall.y },
    ];
    for plane in walls.iter() {
        assert!(disk.intersect(plane).is_none());
    }
    let steps = derivative_schedule(1, None);
    let walls_checked = steps.iter().filter(|s| matches!(s, Step::WallContact(0, _))).count();
    assert_eq!(walls_checked, 4);
    let gravity = steps.iter().filter(|s| **s == Step::Gravity(0)).count();
    assert_eq!(gravity, 1);
}

//! How a contact between two items is resolved: which overlap computation
//! the pair of shape kinds calls for, along which axis the contact pushes,
//! and the two symmetric contact calls that follow from one overlap.
use vstd::prelude::*;

verus! {

/// The kind of an item's shape.
#[derive(Clone, Copy, Debug, PartialEq, Eq, Structural)]
pub enum ShapeKind {
    Circle,
    Rectangle,
}

/// The overlap computation and contact axis for a pair of shapes.
#[derive(Clone, Copy, Debug, PartialEq, Eq, Structural)]
pub enum Axis {
    /// Two disks: the axis is the raw vector from the first center to the
    /// second, not normalized.
    CenterLine,
    /// A disk and a polygon: the axis is the unit perpendicular of the
    /// weighted edge sum of their overlap, where the disk's boundary weighs
    /// `-1/2` and the polygon's `+1/2`. `flipped` negates it, so that the
    /// disk is pushed away from the polygon whichever operand comes first.
    DiskPolygon { flipped: bool },
    /// Two polygons: the unit perpendicular of the weighted edge sum, the
    /// first polygon's boundary weighing `-1/2`, the second's `+1/2`.
    Polygons,
}

/// The axis convention for a contact of a shape of kind `a` (first
/// operand) with one of kind `b`.
pub open spec fn axis_of(a: ShapeKind, b: ShapeKind) -> Axis {
    match (a, b) {
        (ShapeKind::Circle, ShapeKind::Circle) => Axis::CenterLine,
        (ShapeKind::Circle, ShapeKind::Rectangle) => Axis::DiskPolygon { flipped: false },
        (ShapeKind::Rectangle, ShapeKind::Circle) => Axis::DiskPolygon { flipped: true },
        (ShapeKind::Rectangle, ShapeKind::Rectangle) => Axis::Polygons,
    }
}

/// Selects the overlap computation and axis convention for a pair.
pub fn contact_axis(a: ShapeKind, b: ShapeKind) -> (r: Axis)
    ensures
        r == axis_of(a, b),
{
    match (a, b) {
        (ShapeKind::Circle, ShapeKind::Circle) => Axis::CenterLine,
        (ShapeKind::Circle, ShapeKind::Rectangle) => Axis::DiskPolygon { flipped: false },
        (ShapeKind::Rectangle, ShapeKind::Circle) => Axis::DiskPolygon { flipped: true },
        (ShapeKind::Rectangle, ShapeKind::Rectangle) => Axis::Polygons,
    }
}

/// The sign that turns the raw axis of `axis` into the contact direction.
pub open spec fn axis_sign(axis: Axis) -> int {
    match axis {
        Axis::DiskPolygon { flipped: true } => -1,
        _ => 1,
    }
}

/// One call of the contact force on a body: the body receives the
/// deformation `sign * area * direction` at the overlap centroid, measured
/// against the velocity of body `reference` at that point.
#[derive(Clone, Copy, Debug, PartialEq, Eq, Structural)]
pub struct ContactCall {
    pub body: usize,
    pub reference: usize,
    pub sign: i8,
}

/// The two contact calls that one overlap of items `a` and `b` gives: the
/// first operand is pushed against the direction, the second along it, and
/// each is measured against the other's velocity.
pub open spec fn contact_calls(a: usize, b: usize) -> (ContactCall, ContactCall) {
    (ContactCall { body: a, reference: b, sign: -1i8 }, ContactCall { body: b, reference: a, sign: 1i8 })
}

/// The contact calls for an overlap of items `a` and `b`, in the order in
/// which they are made.
pub fn pair_contacts(a: usize, b: usize) -> (r: (ContactCall, ContactCall))
    ensures
        r == contact_calls(a, b),
{
    (ContactCall { body: a, reference: b, sign: -1i8 }, ContactCall { body: b, reference: a, sign: 1i8 })
}

/// Action and reaction: the two calls of one contact deliver opposite
/// deformations at the same point, each body measured against the other.
pub proof fn lemma_contact_antisymmetric(a: usize, b: usize)
    ensures
        contact_calls(a, b).0.sign == -contact_calls(a, b).1.sign,
        contact_calls(a, b).0.body == contact_calls(a, b).1.reference,
        contact_calls(a, b).1.body == contact_calls(a, b).0.reference,
{
}

/// A disk in contact with a polygon is pushed the same way whichever of the
/// two is the first operand: the weighted edge sum is taken with the same
/// weights in both orders, and the sign that the disk's deformation carries
/// against it does not change.
pub proof fn lemma_disk_polygon_order(disk: usize, polygon: usize)
    ensures
        axis_sign(axis_of(ShapeKind::Circle, ShapeKind::Rectangle)) * contact_calls(disk, polygon).0.sign
            == axis_sign(axis_of(ShapeKind::Rectangle, ShapeKind::Circle)) * contact_calls(polygon, disk).1.sign,
        axis_sign(axis_of(ShapeKind::Circle, ShapeKind::Rectangle)) * contact_calls(disk, polygon).1.sign
            == axis_sign(axis_of(ShapeKind::Rectangle, ShapeKind::Circle)) * contact_calls(polygon, disk).0.sign,
        contact_calls(disk, polygon).0.body == contact_calls(polygon, disk).1.body,
{
}

} // verus!

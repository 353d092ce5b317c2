//! Decision core of a 2D soft-contact toy: a box of circular and
//! rectangular bodies, the schedule of one force pass over them, the
//! dispatch of pairwise contacts, and the pointer drag.
//!
//! Vectors and scalars of the simulation are carried as `glam::Vec2`
//! values that this library never inspects; every arithmetic step on them
//! happens in the host program, driven by the plans computed here.

pub mod geom;
pub mod schedule;
pub mod contact;
pub mod world;

use vstd::prelude::*;

verus! {

/// `glam::Vec2`, a 2D vector of the host program. The library stores and
/// hands back such values (the box size, the drag target and anchor)
/// without ever reading their components.
#[verifier::external_type_specification]
#[verifier::external_body]
pub struct ExVec2(glam::Vec2);

} // verus!

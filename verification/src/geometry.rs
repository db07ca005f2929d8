use vstd::prelude::*;

verus! {

/// A point in the simulated world, as glam gives it.
#[verifier::external_type_specification]
#[verifier::external_body]
pub struct ExVec3(glam::Vec3);

/// A heading, as glam gives it.
#[verifier::external_type_specification]
#[verifier::external_body]
pub struct ExQuat(glam::Quat);

/// glam's `Vec3::clone`, derived on a `Copy` type: the clone is the value
/// itself.
pub assume_specification[ <glam::Vec3 as Clone>::clone ](v: &glam::Vec3) -> (copy: glam::Vec3)
    ensures
        copy == *v,
;

/// glam's `Quat::clone`, derived on a `Copy` type: the clone is the value
/// itself.
pub assume_specification[ <glam::Quat as Clone>::clone ](q: &glam::Quat) -> (copy: glam::Quat)
    ensures
        copy == *q,
;

} // verus!

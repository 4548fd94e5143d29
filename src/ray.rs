//! Classification of traced rays.
use vstd::prelude::*;

verus! {

/// Why a ray was cast: from the camera, or as the mirror or the refracted
/// continuation of another ray. Debugging views draw each kind differently.
#[derive(Clone, Copy, Debug, PartialEq, Eq, Structural)]
pub enum RayType {
    NormalRay,
    ReflectionRay,
    TransmissionRay,
}

} // verus!

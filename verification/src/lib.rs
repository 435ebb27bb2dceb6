//! Mesh-generation engine for cylindrical pattern rollers.
//!
//! A rectangular grid of surface radii (sampled from a pattern image) is
//! turned into a closed triangle mesh of a roller and serialized as binary
//! STL.  All geometry inside this crate is carried in fixed-point integers:
//! one model unit is `fixed::UNIT` (a million) ticks.  This keeps every
//! geometric decision — diagonal selection, ear tests, orientation and
//! degeneracy checks — exact, so the invariants of the generation pass can
//! be stated and proved precisely.  Callers convert to and from floating
//! point only at the crate boundary (trigonometric tables in, 32-bit floats
//! for the STL records out).

#![verifier::loop_isolation(false)]

use vstd::prelude::*;

pub mod circles;
pub mod construct;
pub mod eartrim;
pub mod encode;
pub mod fixed;
pub mod parameters;
pub mod raster;
pub mod split;
pub mod stl;
pub mod vectors;

verus! {

/// Everything that can go wrong while validating parameters, generating
/// faces, or closing the sink.
#[derive(Clone, Copy, PartialEq, Eq, Structural, Debug)]
pub enum RollerError {
    /// The expected face count does not fit in a 32-bit counter.
    FaceCountOverflow,
    /// A face has a repeated vertex or a zero normal.
    DegenerateFace,
    /// A face's winding disagrees with its supplied normal.
    InvertedNormal,
    /// More faces were written than the sink was opened for.
    FaceCountExceeded,
    /// The sink was closed before the promised number of faces arrived.
    FaceCountShort,
    /// Ear clipping found no ear although vertices remained.
    TriangulationFailed,
}

} // verus!

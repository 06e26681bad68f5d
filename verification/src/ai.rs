//! Inference engine entry points.  The engine is device-bound and an
//! external collaborator of this core; only its lifecycle and error
//! vocabulary live here.

use vstd::prelude::*;

verus! {

/// Inference errors.
#[derive(Clone, Copy, PartialEq, Eq, Structural, Debug)]
pub enum AiError {
    ModelNotFound,
    InferenceFailed,
}

/// Initialize the inference engine; models load on demand.
pub fn init() {
}

} // verus!

//! The request values the engine's outward interface hands to the core. The
//! HTTP surface itself is an outside collaborator in the embedding program.

use vstd::prelude::*;

verus! {

/// A manual scan request: the path to examine.
#[derive(Debug)]
pub struct ScanRequest {
    pub path: String,
}

} // verus!

//! Per-file scan verdicts.

use vstd::prelude::*;

verus! {

/// The verdict on one scanned file: clean, or a detected threat together
/// with the human-readable signature that flagged it (a pattern-rule
/// identifier, a hash-store label, or a synthesized classifier string).
#[derive(Debug, Clone)]
pub enum ThreatStatus {
    Clean,
    ThreatDetected { signature: String },
}

impl ThreatStatus {
    /// Is this a threat verdict?
    pub open spec fn spec_is_threat(&self) -> bool {
        self is ThreatDetected
    }

    /// The signature of a threat verdict; the empty sequence for a clean one.
    pub open spec fn spec_signature(&self) -> Seq<char> {
        match self {
            ThreatStatus::Clean => Seq::empty(),
            ThreatStatus::ThreatDetected { signature } => signature@,
        }
    }

    /// Returns whether this verdict flags a threat.
    pub fn is_threat(&self) -> (r: bool)
        ensures
            r == self.spec_is_threat(),
    {
        match self {
            ThreatStatus::Clean => false,
            ThreatStatus::ThreatDetected { .. } => true,
        }
    }
}

impl PartialEq for ThreatStatus {
    fn eq(&self, other: &ThreatStatus) -> (r: bool) {
        match (self, other) {
            (ThreatStatus::Clean, ThreatStatus::Clean) => true,
            (
                ThreatStatus::ThreatDetected { signature: a },
                ThreatStatus::ThreatDetected { signature: b },
            ) => crate::text::str_eq(a.as_str(), b.as_str()),
            _ => false,
        }
    }
}

impl vstd::std_specs::cmp::PartialEqSpecImpl for ThreatStatus {
    open spec fn obeys_eq_spec() -> bool {
        true
    }

    open spec fn eq_spec(&self, other: &ThreatStatus) -> bool {
        match (self, other) {
            (ThreatStatus::Clean, ThreatStatus::Clean) => true,
            (
                ThreatStatus::ThreatDetected { signature: a },
                ThreatStatus::ThreatDetected { signature: b },
            ) => a@ == b@,
            _ => false,
        }
    }
}

/// The outcome of scanning one file: the path that was examined and the
/// verdict on its content.
#[derive(Debug, Clone)]
pub struct ScanResult {
    pub path: String,
    pub status: ThreatStatus,
}

} // verus!

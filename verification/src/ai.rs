//! The remote classifier's decoded reply and the fixed-threshold decision
//! over it.
//!
//! The scoring service itself is an outside collaborator reached over the
//! network, so the library never talks to it: the embedding program posts
//! the file bytes, decodes the JSON reply and hands the result in as an
//! [`AiPrediction`] (the reported confidence scaled to hundredths of a
//! percent). A scripted reply source stands in for the service inside the
//! verified scan loop, so every claim holds whatever the service answers.

use vstd::prelude::*;
use vstd::string::StringExecFns;
use crate::text::{push_digits, spec_digits};

verus! {

/// A classifier opinion is trusted only at or above this confidence,
/// in hundredths of a percent (80.00%).
pub const AI_CONFIDENCE_THRESHOLD_BP: u32 = 8000;

/// A decoded reply of the scoring service: its verdict flag, its confidence
/// in hundredths of a percent (0 to 10000), and the digest it reports, when
/// it reports one.
pub struct AiPrediction {
    pub malicious: bool,
    pub confidence_bp: u32,
    pub sha256: Option<String>,
}

impl AiPrediction {
    /// Field-wise copy.
    pub fn duplicate(&self) -> (r: AiPrediction)
        ensures
            r.malicious == self.malicious,
            r.confidence_bp == self.confidence_bp,
            r.sha256.deep_view() == self.sha256.deep_view(),
    {
        let sha256 = match &self.sha256 {
            Some(s) => Some(s.clone()),
            None => None,
        };
        AiPrediction { malicious: self.malicious, confidence_bp: self.confidence_bp, sha256 }
    }
}

/// Does a reply count as a threat opinion: flagged malicious with confidence
/// at or above the fixed threshold.
pub open spec fn spec_ai_is_threat(malicious: bool, confidence_bp: nat) -> bool {
    malicious && confidence_bp >= AI_CONFIDENCE_THRESHOLD_BP
}

/// The confidence as a percentage with two decimals: the integer percent,
/// a dot, and the two-digit remainder.
pub open spec fn spec_confidence_percent(confidence_bp: nat) -> Seq<char> {
    let whole = confidence_bp / 100;
    let frac = confidence_bp % 100;
    spec_digits(whole) + "."@ + (if frac < 10 {
        "0"@ + spec_digits(frac)
    } else {
        spec_digits(frac)
    })
}

/// The signature synthesized for a trusted classifier opinion, embedding the
/// confidence percentage.
pub open spec fn spec_ai_signature(confidence_bp: nat) -> Seq<char> {
    "AI-Detected (Confidence: "@ + spec_confidence_percent(confidence_bp) + "%)"@
}

/// Builds the synthesized signature for a trusted classifier opinion.
pub fn ai_signature(confidence_bp: u32) -> (r: String)
    ensures
        r@ == spec_ai_signature(confidence_bp as nat),
{
    let mut s = String::from_str("AI-Detected (Confidence: ");
    push_digits((confidence_bp / 100) as u64, &mut s);
    s.append(".");
    let frac = confidence_bp % 100;
    if frac < 10 {
        s.append("0");
    }
    push_digits(frac as u64, &mut s);
    s.append("%)");
    proof {
        assert(s@ =~= spec_ai_signature(confidence_bp as nat));
    }
    s
}

/// Applies the fixed-threshold policy to a classifier reply: the synthesized
/// signature exactly when the reply is malicious with confidence at or above
/// the threshold, and no opinion otherwise.
pub fn classifier_verdict(prediction: &AiPrediction) -> (r: Option<String>)
    ensures
        match r {
            Some(sig) => spec_ai_is_threat(prediction.malicious, prediction.confidence_bp as nat)
                && sig@ == spec_ai_signature(prediction.confidence_bp as nat),
            None => !spec_ai_is_threat(prediction.malicious, prediction.confidence_bp as nat),
        },
{
    if prediction.malicious && prediction.confidence_bp >= AI_CONFIDENCE_THRESHOLD_BP {
        Some(ai_signature(prediction.confidence_bp))
    } else {
        None
    }
}

/// A scripted source of classifier replies: the verified scan loop consumes
/// one entry per consultation, in order, and treats an exhausted script or a
/// `None` entry as a failed call ("no opinion"). Nothing in the library
/// depends on which replies the script holds, so what is proved holds for
/// every behaviour of the remote service.
pub struct ClassifierScript {
    replies: Vec<Option<AiPrediction>>,
    consumed: usize,
}

impl ClassifierScript {
    /// The scripted replies.
    pub closed spec fn spec_replies(&self) -> Seq<Option<AiPrediction>> {
        self.replies@
    }

    /// How many consultations have been made.
    pub closed spec fn spec_consumed(&self) -> nat {
        self.consumed as nat
    }

    /// A script over the given replies, none consumed yet.
    pub fn new(replies: Vec<Option<AiPrediction>>) -> (r: ClassifierScript)
        ensures
            r.spec_replies() == replies@,
            r.spec_consumed() == 0,
    {
        ClassifierScript { replies, consumed: 0 }
    }

    /// A script that answers every consultation with "call failed".
    pub fn unavailable() -> (r: ClassifierScript)
        ensures
            r.spec_replies().len() == 0,
            r.spec_consumed() == 0,
    {
        ClassifierScript { replies: Vec::new(), consumed: 0 }
    }

    /// How many consultations have been made, as a value.
    pub fn consumed(&self) -> (r: usize)
        ensures
            r == self.spec_consumed(),
    {
        self.consumed
    }

    /// Consumes the next scripted reply; an exhausted script answers as a
    /// failed call.
    pub fn next_reply(&mut self) -> (r: Option<AiPrediction>)
        requires
            old(self).spec_consumed() < usize::MAX,
        ensures
            final(self).spec_replies() == old(self).spec_replies(),
            final(self).spec_consumed() == old(self).spec_consumed() + 1,
            match r {
                Some(p) => {
                    let entry = old(self).spec_replies()[old(self).spec_consumed() as int];
                    &&& old(self).spec_consumed() < old(self).spec_replies().len()
                    &&& entry is Some
                    &&& p.malicious == entry->0.malicious
                    &&& p.confidence_bp == entry->0.confidence_bp
                },
                None => old(self).spec_consumed() >= old(self).spec_replies().len() || old(
                    self,
                ).spec_replies()[old(self).spec_consumed() as int] is None,
            },
    {
        let r = if self.consumed < self.replies.len() {
            match &self.replies[self.consumed] {
                Some(p) => Some(p.duplicate()),
                None => None,
            }
        } else {
            None
        };
        self.consumed = self.consumed + 1;
        r
    }
}

} // verus!

//! Hash- and pattern-based detection: a load-once store of known-bad
//! content digests together with a compiled pattern-rule set.

use vstd::prelude::*;
use crate::errors::AvError;
use crate::pattern;
use crate::text::{eq_ignore_case, lower_seq, spec_lines, spec_trim, split_lines, trim_str};

verus! {

/// Wrapper for a compiled pattern-rule set.
pub struct DebuggableRules(pub yara::Rules);

/// Does the digest list hold `digest`, up to ASCII case?
pub open spec fn spec_contains_hash(db: Seq<Seq<char>>, digest: Seq<char>) -> bool {
    exists|i: int| 0 <= i < db.len() && lower_seq(db[i]) == lower_seq(digest)
}

/// The digest list read from a hash-store text: one entry per line, each
/// trimmed of surrounding whitespace.
pub open spec fn spec_hash_lines(content: Seq<char>) -> Seq<Seq<char>> {
    spec_lines(content).map_values(|l: Seq<char>| spec_trim(l))
}

/// Detection store over known-bad SHA-256 digests and compiled pattern rules.
/// The digest list is immutable after loading; membership is checked up to
/// ASCII case.
pub struct SignatureDetector {
    hash_db: Vec<String>,
    yara_rules: DebuggableRules,
}

impl SignatureDetector {
    /// The stored digest entries.
    pub closed spec fn spec_hashes(&self) -> Seq<Seq<char>> {
        self.hash_db.deep_view()
    }

    /// Loads the digest store from the hash file's text and compiles the
    /// pattern-rule source; a rule-compilation failure is fatal and is the
    /// only failure.
    pub fn load(db_content: &str, rules_source: &str) -> (r: Result<SignatureDetector, AvError>)
        ensures
            match r {
                Ok(d) => d.spec_hashes() == spec_hash_lines(db_content@),
                Err(e) => e is Yara,
            },
    {
        let lines = split_lines(db_content);
        let mut hash_db: Vec<String> = Vec::new();
        let n = lines.len();
        let mut i: usize = 0;
        while i < n
            invariant
                i <= n,
                n == lines@.len(),
                lines.deep_view() == spec_lines(db_content@),
                hash_db.deep_view().len() == i,
                forall|j: int| 0 <= j < i ==> hash_db.deep_view()[j] == spec_trim(
                    lines.deep_view()[j],
                ),
            decreases n - i,
        {
            let t = trim_str(lines[i].as_str());
            let ghost tview = t@;
            let ghost pre = hash_db.deep_view();
            let ghost prev = hash_db@;
            proof {
                assert(lines.deep_view()[i as int] == lines@[i as int]@);
            }
            hash_db.push(t);
            proof {
                assert forall|j: int| 0 <= j < i + 1 implies hash_db.deep_view()[j] == spec_trim(
                    lines.deep_view()[j],
                ) by {
                    assert(hash_db.deep_view()[j] == hash_db@[j]@);
                    if j == i {
                        assert(hash_db@[j]@ == tview);
                        assert(tview == spec_trim(lines@[j]@));
                        assert(lines.deep_view()[j] == lines@[j]@);
                    } else {
                        assert(hash_db@[j] == prev[j]);
                        assert(pre[j] == prev[j]@);
                        assert(pre[j] == spec_trim(lines.deep_view()[j]));
                    }
                }
            }
            i = i + 1;
        }
        proof {
            assert(hash_db.deep_view() =~= spec_hash_lines(db_content@));
        }
        let yara_rules = DebuggableRules(pattern::compile_rules(rules_source)?);
        Ok(SignatureDetector { hash_db, yara_rules })
    }

    /// Evaluates the compiled pattern rules against `content` and reports
    /// whether any rule matched; a timeout or rule-engine failure is an
    /// error, never "no match".
    pub fn yara_match(&self, content: &[u8]) -> (r: Result<bool, AvError>)
        ensures
            r matches Err(e) ==> e is Timeout || e is Yara,
    {
        let matched = pattern::rules_scan_mem(&self.yara_rules.0, content, 5)?;
        Ok(matched.len() > 0)
    }

    /// Is `sha256` one of the stored known-bad digests? The comparison
    /// ignores ASCII case on both sides.
    pub fn is_malicious_hash(&self, sha256: &str) -> (r: bool)
        ensures
            r == spec_contains_hash(self.spec_hashes(), sha256@),
    {
        let n = self.hash_db.len();
        let mut i: usize = 0;
        while i < n
            invariant
                i <= n,
                n == self.hash_db@.len(),
                forall|j: int| 0 <= j < i ==> lower_seq(self.spec_hashes()[j]) != lower_seq(
                    sha256@,
                ),
            decreases n - i,
        {
            if eq_ignore_case(self.hash_db[i].as_str(), sha256) {
                assert(lower_seq(self.spec_hashes()[i as int]) == lower_seq(sha256@));
                return true;
            }
            i = i + 1;
        }
        false
    }
}

/// Digest membership is insensitive to ASCII case: two digests with the same
/// lower-case form are either both in the store or both absent.
pub proof fn lemma_hash_membership_case_insensitive(
    db: Seq<Seq<char>>,
    d1: Seq<char>,
    d2: Seq<char>,
)
    requires
        lower_seq(d1) == lower_seq(d2),
    ensures
        spec_contains_hash(db, d1) == spec_contains_hash(db, d2),
{
}

} // verus!

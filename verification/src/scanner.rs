//! The tiered per-file scanner: pattern rules first, then the known-bad
//! digest store, then the remote classifier's opinion, short-circuiting in
//! that fixed order.

use vstd::prelude::*;
use crate::ai::{classifier_verdict, spec_ai_is_threat, spec_ai_signature, AiPrediction,
    ClassifierScript};
use crate::crypto::{sha256_hex, sha256_of, spec_hex_lower};
use crate::detection::{ScanResult, ThreatStatus};
use crate::disk::{spec_walk, Disk};
use crate::errors::AvError;
use crate::pattern;
use crate::text::{char_pos, eq_ignore_case, find_char, lemma_char_pos_is, lower_seq, spec_lines,
    spec_trim, split_lines, substr, trim_str};

verus! {

/// First-match lookup in the digest store; digests compare up to ASCII case.
pub open spec fn spec_db_lookup(
    db: Seq<(Seq<char>, Seq<char>)>,
    digest: Seq<char>,
) -> Option<Seq<char>>
    decreases db.len(),
{
    if db.len() == 0 {
        None
    } else if lower_seq(db[0].0) == lower_seq(digest) {
        Some(db[0].1)
    } else {
        spec_db_lookup(db.drop_first(), digest)
    }
}

/// A digest that matches no entry is not found.
pub proof fn lemma_db_lookup_none(db: Seq<(Seq<char>, Seq<char>)>, digest: Seq<char>)
    requires
        forall|j: int| 0 <= j < db.len() ==> lower_seq(db[j].0) != lower_seq(digest),
    ensures
        spec_db_lookup(db, digest) is None,
    decreases db.len(),
{
    if db.len() > 0 {
        assert forall|j: int| 0 <= j < db.drop_first().len() implies lower_seq(
            db.drop_first()[j].0,
        ) != lower_seq(digest) by {
            assert(db.drop_first()[j] == db[j + 1]);
        }
        lemma_db_lookup_none(db.drop_first(), digest);
    }
}

/// Lookup returns the label of the first matching entry.
pub proof fn lemma_db_lookup_at(db: Seq<(Seq<char>, Seq<char>)>, digest: Seq<char>, i: int)
    requires
        0 <= i < db.len(),
        lower_seq(db[i].0) == lower_seq(digest),
        forall|j: int| 0 <= j < i ==> lower_seq(db[j].0) != lower_seq(digest),
    ensures
        spec_db_lookup(db, digest) == Some(db[i].1),
    decreases db.len(),
{
    if i > 0 {
        assert forall|j: int| 0 <= j < i - 1 implies lower_seq(db.drop_first()[j].0) != lower_seq(
            digest,
        ) by {
            assert(db.drop_first()[j] == db[j + 1]);
        }
        assert(db.drop_first()[i - 1] == db[i]);
        lemma_db_lookup_at(db.drop_first(), digest, i - 1);
    }
}

/// Storing `key -> label`: the first entry whose digest equals `key` up to
/// ASCII case keeps its stored digest and takes the new label; with no such
/// entry the pair is appended.
pub open spec fn spec_db_upsert(
    db: Seq<(Seq<char>, Seq<char>)>,
    key: Seq<char>,
    label: Seq<char>,
) -> Seq<(Seq<char>, Seq<char>)>
    decreases db.len(),
{
    if db.len() == 0 {
        seq![(key, label)]
    } else if lower_seq(db[0].0) == lower_seq(key) {
        seq![(db[0].0, label)] + db.drop_first()
    } else {
        seq![db[0]] + spec_db_upsert(db.drop_first(), key, label)
    }
}

/// With a match at position `i` (and none before), the upsert is an update
/// in place.
pub proof fn lemma_db_upsert_found(
    db: Seq<(Seq<char>, Seq<char>)>,
    key: Seq<char>,
    label: Seq<char>,
    i: int,
)
    requires
        0 <= i < db.len(),
        lower_seq(db[i].0) == lower_seq(key),
        forall|j: int| 0 <= j < i ==> lower_seq(db[j].0) != lower_seq(key),
    ensures
        spec_db_upsert(db, key, label) =~= db.update(i, (db[i].0, label)),
    decreases db.len(),
{
    if i == 0 {
        assert(spec_db_upsert(db, key, label) =~= db.update(0, (db[0].0, label)));
    } else {
        assert forall|j: int| 0 <= j < i - 1 implies lower_seq(db.drop_first()[j].0) != lower_seq(
            key,
        ) by {
            assert(db.drop_first()[j] == db[j + 1]);
        }
        assert(db.drop_first()[i - 1] == db[i]);
        lemma_db_upsert_found(db.drop_first(), key, label, i - 1);
        assert(db.update(i, (db[i].0, label)).drop_first() =~= db.drop_first().update(
            i - 1,
            (db[i].0, label),
        ));
        assert(spec_db_upsert(db, key, label) =~= db.update(i, (db[i].0, label)));
    }
}

/// With no matching entry, the upsert appends the pair.
pub proof fn lemma_db_upsert_none(
    db: Seq<(Seq<char>, Seq<char>)>,
    key: Seq<char>,
    label: Seq<char>,
)
    requires
        forall|j: int| 0 <= j < db.len() ==> lower_seq(db[j].0) != lower_seq(key),
    ensures
        spec_db_upsert(db, key, label) =~= db.push((key, label)),
    decreases db.len(),
{
    if db.len() > 0 {
        assert forall|j: int| 0 <= j < db.drop_first().len() implies lower_seq(
            db.drop_first()[j].0,
        ) != lower_seq(key) by {
            assert(db.drop_first()[j] == db[j + 1]);
        }
        lemma_db_upsert_none(db.drop_first(), key, label);
        assert(spec_db_upsert(db, key, label) =~= db.push((key, label)));
    }
}

/// One line applied to the store: a `digest:label` line upserts the trimmed
/// digest and label; a line without a colon is skipped.
pub open spec fn spec_db_line(
    db: Seq<(Seq<char>, Seq<char>)>,
    line: Seq<char>,
) -> Seq<(Seq<char>, Seq<char>)> {
    let p = char_pos(line, ':');
    if p >= line.len() {
        db
    } else {
        spec_db_upsert(db, spec_trim(line.take(p as int)), spec_trim(line.skip(p as int + 1)))
    }
}

/// The store after applying the lines in order.
pub open spec fn spec_db_lines(
    db: Seq<(Seq<char>, Seq<char>)>,
    lines: Seq<Seq<char>>,
) -> Seq<(Seq<char>, Seq<char>)>
    decreases lines.len(),
{
    if lines.len() == 0 {
        db
    } else {
        spec_db_lines(spec_db_line(db, lines[0]), lines.drop_first())
    }
}

/// Applying one more line folds onto the end.
pub proof fn lemma_db_lines_snoc(
    db: Seq<(Seq<char>, Seq<char>)>,
    lines: Seq<Seq<char>>,
    line: Seq<char>,
)
    ensures
        spec_db_lines(db, lines.push(line)) == spec_db_line(spec_db_lines(db, lines), line),
    decreases lines.len(),
{
    if lines.len() == 0 {
        assert(lines.push(line)[0] == line);
        assert(lines.push(line).drop_first() =~= Seq::<Seq<char>>::empty());
        assert(spec_db_lines(db, lines.push(line)) == spec_db_lines(
            spec_db_line(db, line),
            lines.push(line).drop_first(),
        ));
        assert(spec_db_lines(spec_db_line(db, line), Seq::empty()) == spec_db_line(db, line));
    } else {
        assert(lines.push(line)[0] == lines[0]);
        assert(lines.push(line).drop_first() =~= lines.drop_first().push(line));
        lemma_db_lines_snoc(spec_db_line(db, lines[0]), lines.drop_first(), line);
        assert(spec_db_lines(db, lines.push(line)) == spec_db_lines(
            spec_db_line(db, lines[0]),
            lines.drop_first().push(line),
        ));
        assert(spec_db_lines(db, lines) == spec_db_lines(
            spec_db_line(db, lines[0]),
            lines.drop_first(),
        ));
    }
}

/// The digest store read from the hash file's text: one `digest:label` entry
/// per line, digest and label trimmed, later lines overriding earlier ones
/// with the same digest (up to ASCII case); other lines are skipped.
pub open spec fn spec_parse_db(content: Seq<char>) -> Seq<(Seq<char>, Seq<char>)> {
    spec_db_lines(Seq::empty(), spec_lines(content))
}

/// Inserts `key -> label` into the store, replacing the label of the entry
/// with the same digest (up to ASCII case) if one is there.
fn db_upsert(db: &mut Vec<(String, String)>, key: String, label: String)
    ensures
        final(db).deep_view() == spec_db_upsert(old(db).deep_view(), key@, label@),
{
    let ghost pre = old(db).deep_view();
    let ghost prev = old(db)@;
    let n = db.len();
    let mut i: usize = 0;
    while i < n
        invariant
            i <= n,
            n == db@.len(),
            db@ == prev,
            pre == db.deep_view(),
            pre == old(db).deep_view(),
            forall|j: int| 0 <= j < i ==> lower_seq(pre[j].0) != lower_seq(key@),
        decreases n - i,
    {
        if eq_ignore_case(db[i].0.as_str(), key.as_str()) {
            proof {
                assert(pre[i as int].0 == db@[i as int].0@);
                lemma_db_upsert_found(pre, key@, label@, i as int);
            }
            let ghost lview = label@;
            db[i].1 = label;
            proof {
                assert forall|j: int| 0 <= j < db@.len() implies db.deep_view()[j] == pre.update(
                    i as int,
                    (pre[i as int].0, lview),
                )[j] by {
                    assert(db.deep_view()[j] == db@[j].deep_view());
                    if j != i {
                        assert(db@[j] == prev[j]);
                        assert(pre[j] == prev[j].deep_view());
                    } else {
                        assert(pre[j] == prev[j].deep_view());
                        assert(db@[j].0 == prev[j].0);
                        assert(db@[j].1@ == lview);
                    }
                }
                assert(db.deep_view() =~= pre.update(i as int, (pre[i as int].0, lview)));
                assert(db.deep_view() == spec_db_upsert(pre, key@, lview));
                assert(db.deep_view() == spec_db_upsert(old(db).deep_view(), key@, label@));
            }
            return;
        }
        proof {
            assert(pre[i as int].0 == db@[i as int].0@);
        }
        i = i + 1;
    }
    proof {
        lemma_db_upsert_none(pre, key@, label@);
    }
    let ghost kview = key@;
    let ghost lview = label@;
    db.push((key, label));
    proof {
        assert forall|j: int| 0 <= j < db@.len() implies db.deep_view()[j] == pre.push(
            (kview, lview),
        )[j] by {
            assert(db.deep_view()[j] == db@[j].deep_view());
            if j < n {
                assert(db@[j] == prev[j]);
                assert(pre[j] == prev[j].deep_view());
            }
        }
        assert(db.deep_view() =~= pre.push((kview, lview)));
    }
}

/// Reads the digest store from the hash file's text.
pub fn load_signature_db(content: &str) -> (db: Vec<(String, String)>)
    ensures
        db.deep_view() == spec_parse_db(content@),
{
    let lines = split_lines(content);
    let mut db: Vec<(String, String)> = Vec::new();
    let n = lines.len();
    let mut i: usize = 0;
    proof {
        assert(lines.deep_view().take(0) =~= Seq::<Seq<char>>::empty());
    }
    while i < n
        invariant
            i <= n,
            n == lines@.len(),
            lines.deep_view() == spec_lines(content@),
            db.deep_view() == spec_db_lines(Seq::empty(), lines.deep_view().take(i as int)),
        decreases n - i,
    {
        let line = lines[i].as_str();
        proof {
            assert(lines.deep_view()[i as int] == lines@[i as int]@);
        }
        let line_len = line.unicode_len();
        match find_char(line, ':', 0) {
            Some(p) => {
                proof {
                    lemma_char_pos_is(line@, ':', p as int);
                }
                let key = trim_str(substr(line, 0, p).as_str());
                let label = trim_str(substr(line, p + 1, line_len).as_str());
                db_upsert(&mut db, key, label);
            },
            None => {
                proof {
                    lemma_char_pos_is(line@, ':', line@.len() as int);
                }
            },
        }
        i = i + 1;
        proof {
            lemma_db_lines_snoc(
                Seq::empty(),
                lines.deep_view().take(i - 1),
                lines.deep_view()[i - 1],
            );
            assert(lines.deep_view().take(i as int) =~= lines.deep_view().take(i - 1).push(
                lines.deep_view()[i - 1],
            ));
        }
    }
    proof {
        assert(lines.deep_view().take(n as int) =~= lines.deep_view());
    }
    db
}

} // verus!

verus! {

/// Does the verdict flag what the optional signature says: a threat carrying
/// exactly that signature, or clean when there is none?
pub open spec fn status_matches(status: ThreatStatus, sig: Option<Seq<char>>) -> bool {
    match sig {
        Some(s) => status is ThreatDetected && status.spec_signature() == s,
        None => status is Clean,
    }
}

/// The classifier tier over one consumed reply: the synthesized signature
/// when the reply is a trusted threat opinion, and nothing for a failed call
/// or an opinion below the threshold.
pub open spec fn spec_ai_tier(entry: Option<AiPrediction>) -> Option<Seq<char>> {
    match entry {
        Some(p) => if spec_ai_is_threat(p.malicious, p.confidence_bp as nat) {
            Some(spec_ai_signature(p.confidence_bp as nat))
        } else {
            None
        },
        None => None,
    }
}

/// The signature decided by the fixed tier order: the first matched pattern
/// identifier; else the stored label of the content's digest; else the
/// classifier tier; else none (clean).
pub open spec fn spec_scan_signature(
    db: Seq<(Seq<char>, Seq<char>)>,
    patterns: Seq<Seq<char>>,
    digest: Seq<char>,
    ai: Option<AiPrediction>,
) -> Option<Seq<char>> {
    if patterns.len() > 0 {
        Some(patterns[0])
    } else if spec_db_lookup(db, digest) is Some {
        spec_db_lookup(db, digest)
    } else {
        spec_ai_tier(ai)
    }
}

/// The reply the script would serve next: the entry at the cursor, or a
/// failed call once the script is exhausted.
pub open spec fn spec_next_entry(script: ClassifierScript) -> Option<AiPrediction> {
    if script.spec_consumed() < script.spec_replies().len() {
        script.spec_replies()[script.spec_consumed() as int]
    } else {
        None
    }
}

/// Everything one tiered examination of `content` promises: the result names
/// the scanned path; the scripted replies themselves are untouched; when a
/// pattern matched or the digest store knows the content, the classifier is
/// not consulted and the verdict is the local tiers'; only otherwise is
/// exactly one reply consumed, and the verdict follows it.
pub open spec fn spec_scan_outcome(
    db: Seq<(Seq<char>, Seq<char>)>,
    patterns: Seq<Seq<char>>,
    content: Seq<u8>,
    before: ClassifierScript,
    after: ClassifierScript,
    res: ScanResult,
    path: Seq<char>,
) -> bool {
    let digest = spec_hex_lower(sha256_of(content));
    &&& res.path@ == path
    &&& after.spec_replies() == before.spec_replies()
    &&& if patterns.len() > 0 || spec_db_lookup(db, digest) is Some {
        &&& after == before
        &&& status_matches(res.status, spec_scan_signature(db, patterns, digest, None))
    } else {
        &&& after.spec_consumed() == before.spec_consumed() + 1
        &&& status_matches(
            res.status,
            spec_scan_signature(db, patterns, digest, spec_next_entry(before)),
        )
    }
}

/// Exactly one tier decides, in the fixed order pattern, then hash, then
/// classifier: a matched pattern preempts the other tiers, a hash hit
/// preempts the classifier, the classifier opinion decides only when both
/// local tiers miss, and the verdict is clean exactly when all three miss.
pub proof fn lemma_tier_policy(
    db: Seq<(Seq<char>, Seq<char>)>,
    patterns: Seq<Seq<char>>,
    digest: Seq<char>,
    ai: Option<AiPrediction>,
)
    ensures
        spec_scan_signature(db, patterns, digest, ai) is Some <==> (patterns.len() > 0
            || spec_db_lookup(db, digest) is Some || spec_ai_tier(ai) is Some),
        patterns.len() > 0 ==> spec_scan_signature(db, patterns, digest, ai) == Some(patterns[0]),
        patterns.len() == 0 && spec_db_lookup(db, digest) is Some ==> spec_scan_signature(
            db,
            patterns,
            digest,
            ai,
        ) == spec_db_lookup(db, digest),
        patterns.len() == 0 && spec_db_lookup(db, digest) is None ==> spec_scan_signature(
            db,
            patterns,
            digest,
            ai,
        ) == spec_ai_tier(ai),
{
}

/// The tiered scanner: the immutable digest store and the compiled
/// pattern-rule set, evaluated in the fixed order.
pub struct Scanner {
    signature_db: Vec<(String, String)>,
    yara_rules: yara::Rules,
}

impl Scanner {
    /// The digest store: `(digest, label)` pairs in storage order.
    pub closed spec fn spec_db(&self) -> Seq<(Seq<char>, Seq<char>)> {
        self.signature_db.deep_view()
    }

    /// Builds a scanner: reads the digest store from the hash file's text
    /// and compiles the pattern-rule source. A rule-compilation failure is
    /// fatal to construction and is the only failure.
    pub fn new(db_content: &str, rules_source: &str) -> (r: Result<Scanner, AvError>)
        ensures
            r matches Ok(s) ==> s.spec_db() == spec_parse_db(db_content@),
            r matches Err(e) ==> e is Yara,
    {
        let signature_db = load_signature_db(db_content);
        let yara_rules = pattern::compile_rules(rules_source)?;
        Ok(Scanner { signature_db, yara_rules })
    }

    /// Looks `digest` up in the store, up to ASCII case.
    pub fn db_lookup(&self, digest: &str) -> (r: Option<String>)
        ensures
            match r {
                Some(label) => spec_db_lookup(self.spec_db(), digest@) == Some(label@),
                None => spec_db_lookup(self.spec_db(), digest@) is None,
            },
    {
        let n = self.signature_db.len();
        let mut i: usize = 0;
        while i < n
            invariant
                i <= n,
                n == self.signature_db@.len(),
                forall|j: int| 0 <= j < i ==> lower_seq(self.spec_db()[j].0) != lower_seq(digest@),
            decreases n - i,
        {
            proof {
                assert(self.spec_db()[i as int] == self.signature_db@[i as int].deep_view());
            }
            if eq_ignore_case(self.signature_db[i].0.as_str(), digest) {
                proof {
                    lemma_db_lookup_at(self.spec_db(), digest@, i as int);
                }
                return Some(self.signature_db[i].1.clone());
            }
            i = i + 1;
        }
        proof {
            lemma_db_lookup_none(self.spec_db(), digest@);
        }
        None
    }

    /// Applies the tier policy to a known pattern-match list: pattern tier,
    /// then hash tier, then one classifier consultation, with the exact
    /// verdict for every input.
    pub fn verdict_from_matches(
        &self,
        path: &str,
        matched: &Vec<String>,
        content: &[u8],
        classifier: &mut ClassifierScript,
    ) -> (r: ScanResult)
        requires
            old(classifier).spec_consumed() < usize::MAX,
        ensures
            spec_scan_outcome(
                self.spec_db(),
                matched.deep_view(),
                content@,
                *old(classifier),
                *final(classifier),
                r,
                path@,
            ),
    {
        if matched.len() > 0 {
            proof {
                assert(matched.deep_view()[0] == matched@[0]@);
            }
            return ScanResult {
                path: path.to_owned(),
                status: ThreatStatus::ThreatDetected { signature: matched[0].clone() },
            };
        }
        let digest = sha256_hex(content);
        match self.db_lookup(digest.as_str()) {
            Some(label) => {
                return ScanResult {
                    path: path.to_owned(),
                    status: ThreatStatus::ThreatDetected { signature: label },
                };
            },
            None => {},
        }
        let reply = classifier.next_reply();
        let status = match reply {
            Some(p) => match classifier_verdict(&p) {
                Some(signature) => ThreatStatus::ThreatDetected { signature },
                None => ThreatStatus::Clean,
            },
            None => ThreatStatus::Clean,
        };
        ScanResult { path: path.to_owned(), status }
    }

    /// Scans raw bytes: evaluates the compiled rules (a timeout or rule
    /// failure aborts this file's scan as an error), then applies the tier
    /// policy. The rule engine is outside code, so the exact verdict is
    /// stated by `verdict_from_matches` over the match list, which is bound
    /// existentially here.
    pub fn scan_bytes(
        &self,
        path: &str,
        content: &[u8],
        classifier: &mut ClassifierScript,
    ) -> (r: Result<ScanResult, AvError>)
        requires
            old(classifier).spec_consumed() < usize::MAX,
        ensures
            match r {
                Ok(res) => exists|ms: Seq<Seq<char>>|
                    spec_scan_outcome(
                        self.spec_db(),
                        ms,
                        content@,
                        *old(classifier),
                        *final(classifier),
                        res,
                        path@,
                    ),
                Err(e) => *final(classifier) == *old(classifier) && (e is Timeout || e is Yara),
            },
    {
        let matched = match pattern::rules_scan_mem(&self.yara_rules, content, 10) {
            Ok(m) => m,
            Err(e) => {
                return Err(e);
            },
        };
        let res = self.verdict_from_matches(path, &matched, content, classifier);
        proof {
            assert(spec_scan_outcome(
                self.spec_db(),
                matched.deep_view(),
                content@,
                *old(classifier),
                *final(classifier),
                res,
                path@,
            ));
        }
        Ok(res)
    }
}

} // verus!

verus! {

/// Everything `scan_file` promises about one examination of a stored path:
/// a missing file is exactly the I/O error, a rule-engine failure or timeout
/// surfaces as such, the script is untouched on every error, and an Ok
/// result carries the tier outcome over the stored content.
pub open spec fn spec_scan_file_outcome(
    scanner: Scanner,
    tree: Map<Seq<char>, Seq<u8>>,
    path: Seq<char>,
    before: ClassifierScript,
    after: ClassifierScript,
    r: Result<ScanResult, AvError>,
) -> bool {
    match r {
        Ok(res) => tree.contains_key(path) && exists|ms: Seq<Seq<char>>|
            spec_scan_outcome(scanner.spec_db(), ms, tree[path], before, after, res, path),
        Err(e) => {
            &&& after == before
            &&& (e is Io <==> !tree.contains_key(path))
            &&& (e is Io || e is Timeout || e is Yara)
        },
    }
}

impl Scanner {
    /// Evaluates the compiled pattern rules against a byte buffer within
    /// `timeout` seconds and reports the matching rules' identifiers in
    /// evaluation order; a timeout or rule failure is an error, never an
    /// empty match list. What is done with the matches is stated exactly by
    /// `verdict_from_matches`.
    pub fn match_patterns(&self, content: &[u8], timeout: i32) -> (r: Result<Vec<String>, AvError>)
        ensures
            r matches Err(e) ==> e is Timeout || e is Yara,
    {
        pattern::rules_scan_mem(&self.yara_rules, content, timeout)
    }

    /// Scans the file stored at `path`: reads its bytes from the tree and
    /// applies the tiered policy. A missing file aborts this file's scan as
    /// an I/O error; no error consults the classifier.
    pub fn scan_file(
        &self,
        disk: &Disk,
        path: &str,
        classifier: &mut ClassifierScript,
    ) -> (r: Result<ScanResult, AvError>)
        requires
            disk.wf(),
            old(classifier).spec_consumed() < usize::MAX,
        ensures
            spec_scan_file_outcome(
                *self,
                disk@,
                path@,
                *old(classifier),
                *final(classifier),
                r,
            ),
    {
        let content = match disk.read(path) {
            Some(bytes) => bytes,
            None => {
                return Err(AvError::Io("failed to read the file".to_owned()));
            },
        };
        self.scan_bytes(path, content.as_slice(), classifier)
    }

    /// Scans every file at or under `path_to_scan`, one at a time in storage
    /// order, reporting nothing per file (acting on verdicts is the
    /// orchestrator's work). Per-file errors do not abort the walk.
    pub fn scan_path(
        &self,
        disk: &Disk,
        path_to_scan: &str,
        classifier: &mut ClassifierScript,
    ) -> (r: Result<(), AvError>)
        requires
            disk.wf(),
            old(classifier).spec_consumed() + disk.spec_entries().len() <= usize::MAX,
        ensures
            r is Ok,
            final(classifier).spec_replies() == old(classifier).spec_replies(),
            old(classifier).spec_consumed() <= final(classifier).spec_consumed() <= old(
                classifier,
            ).spec_consumed() + spec_walk(disk.spec_entries(), path_to_scan@).len(),
    {
        proof {
            lemma_walk_len(disk.spec_entries(), path_to_scan@);
        }
        let files = disk.walk_files(path_to_scan);
        let n = files.len();
        proof {
            lemma_walk_len(disk.spec_entries(), path_to_scan@);
            assert(files.deep_view().len() == files@.len());
        }
        let mut i: usize = 0;
        while i < n
            invariant
                i <= n,
                n == files@.len(),
                n <= disk.spec_entries().len(),
                disk.wf(),
                classifier.spec_replies() == old(classifier).spec_replies(),
                old(classifier).spec_consumed() <= classifier.spec_consumed() <= old(
                    classifier,
                ).spec_consumed() + i,
                old(classifier).spec_consumed() + disk.spec_entries().len() <= usize::MAX,
            decreases n - i,
        {
            let _ = self.scan_file(disk, files[i].as_str(), classifier);
            i = i + 1;
        }
        Ok(())
    }
}

/// The number of files a walk reports is at most the number of stored files.
pub proof fn lemma_walk_len(entries: Seq<(Seq<char>, Seq<u8>)>, root: Seq<char>)
    ensures
        spec_walk(entries, root).len() <= entries.len(),
    decreases entries.len(),
{
    if entries.len() > 0 {
        lemma_walk_len(entries.drop_last(), root);
    }
}

} // verus!

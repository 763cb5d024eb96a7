//! The engine: the scan-session orchestrator over the modelled tree, its
//! progress and counter discipline, per-file handling with the exclusion
//! policy, and the quarantine and web-protection entry points.

use vstd::prelude::*;
use vstd::string::{StrSliceExecFns, StringExecFns};
use crate::ai::ClassifierScript;
use crate::crypto::{sha256_of, spec_hex_lower};
use crate::detection::ThreatStatus;
use crate::disk::{spec_dir_exists, spec_walk, Disk};
use crate::errors::AvError;
use crate::quarantine::{file_name_of, spec_delete, spec_file_name, spec_info_matches,
    spec_is_quarantine_name, spec_is_unique_id, spec_join, spec_list, spec_meta_path,
    spec_quarantine, spec_recorded_path, spec_restore, QuarantineManager, QuarantineStats};
use crate::detection::ScanResult;
use crate::scanner::{lemma_walk_len, spec_db_lookup, spec_scan_file_outcome, spec_scan_outcome,
    Scanner};
use crate::settings::Settings;
use crate::text::{is_hex_char, last_char_pos, last_index_of_char, lemma_last_char_pos_is,
    lower_seq, path_starts_with, spec_path_starts_with, spec_trim_start_ch, substr,
    trim_start_matches_char, eq_ignore_case};
use crate::web::WebSecurity;
use vstd::utf8::valid_utf8;

verus! {

/// The progress snapshot of the active scan session, readable by outside
/// observers: whether a session runs, the file under examination, and the
/// monotone scanned-files counter below its fixed total.
#[derive(Debug)]
pub struct ScanProgress {
    pub is_running: bool,
    pub current_file: String,
    pub total_files: u64,
    pub scanned_files: u64,
}

impl Default for ScanProgress {
    /// The resting state: no session, no file, both counters zero.
    fn default() -> (r: ScanProgress)
        ensures
            !r.is_running,
            r.current_file@ == Seq::<char>::empty(),
            r.total_files == 0,
            r.scanned_files == 0,
    {
        ScanProgress {
            is_running: false,
            current_file: String::new(),
            total_files: 0,
            scanned_files: 0,
        }
    }
}

impl ScanProgress {
    /// A field-wise copy for outside observers.
    pub fn snapshot(&self) -> (r: ScanProgress)
        ensures
            r.is_running == self.is_running,
            r.current_file@ == self.current_file@,
            r.total_files == self.total_files,
            r.scanned_files == self.scanned_files,
    {
        ScanProgress {
            is_running: self.is_running,
            current_file: self.current_file.clone(),
            total_files: self.total_files,
            scanned_files: self.scanned_files,
        }
    }
}

/// The engine's outward status: the process-lifetime counters, whether a
/// scan runs, how many files sit in quarantine, and whether web protection
/// is on.
#[derive(Debug)]
pub struct EngineStatus {
    pub is_scanning: bool,
    pub files_scanned: u64,
    pub threats_found: u64,
    pub quarantined_count: u64,
    pub is_web_protection_active: bool,
}

/// The extension of a file name: what follows the last dot; none when there
/// is no dot or the name starts with its only dot.
pub open spec fn spec_extension_of(name: Seq<char>) -> Option<Seq<char>> {
    let k = last_char_pos(name, '.');
    if k <= 0 {
        None
    } else {
        Some(name.skip(k + 1))
    }
}

/// The extension of a path's final component.
pub open spec fn spec_path_extension(path: Seq<char>) -> Option<Seq<char>> {
    spec_extension_of(spec_file_name(path))
}

/// The extension of a file name.
pub fn extension_of(name: &str) -> (r: Option<String>)
    ensures
        match r {
            Some(ext) => spec_extension_of(name@) == Some(ext@),
            None => spec_extension_of(name@) is None,
        },
{
    let n = name.unicode_len();
    match last_index_of_char(name, '.') {
        Some(k) => {
            proof {
                lemma_last_char_pos_is(name@, '.', k as int);
            }
            if k == 0 {
                None
            } else {
                Some(substr(name, k + 1, n))
            }
        },
        None => {
            proof {
                lemma_last_char_pos_is(name@, '.', -1);
            }
            None
        },
    }
}

/// Does the path's extension appear in the exclusion list? Extensions
/// compare case-insensitively, and leading dots on configured entries are
/// ignored, so `tmp`, `.tmp` and `TMP` all exclude `a.TMP`.
pub open spec fn spec_is_excluded(excluded: Seq<Seq<char>>, path: Seq<char>) -> bool {
    match spec_path_extension(path) {
        Some(ext) => exists|i: int|
            0 <= i < excluded.len() && lower_seq(
                spec_trim_start_ch(#[trigger] excluded[i], '.'),
            ) == lower_seq(ext),
        None => false,
    }
}

/// Decides the extension exclusion for one path.
pub fn is_excluded(excluded: &Vec<String>, path: &str) -> (r: bool)
    ensures
        r == spec_is_excluded(excluded.deep_view(), path@),
{
    let name = match file_name_of(path) {
        Some(n) => n,
        None => {
            proof {
                assert(spec_extension_of(spec_file_name(path@)) is None);
            }
            return false;
        },
    };
    let ext = match extension_of(name.as_str()) {
        Some(e) => e,
        None => {
            return false;
        },
    };
    let n = excluded.len();
    let mut i: usize = 0;
    while i < n
        invariant
            i <= n,
            n == excluded@.len(),
            spec_path_extension(path@) == Some(ext@),
            forall|j: int| 0 <= j < i ==> lower_seq(
                spec_trim_start_ch(#[trigger] excluded.deep_view()[j], '.'),
            ) != lower_seq(ext@),
        decreases n - i,
    {
        proof {
            assert(excluded.deep_view()[i as int] == excluded@[i as int]@);
        }
        let entry = trim_start_matches_char(excluded[i].as_str(), '.');
        if eq_ignore_case(entry.as_str(), ext.as_str()) {
            return true;
        }
        i = i + 1;
    }
    false
}

/// A name that begins with a 36-character unique-identifier segment looks
/// like a file the engine itself placed in quarantine and is skipped.
pub open spec fn spec_has_unique_id_prefix(name: Seq<char>) -> bool {
    name.len() >= 36 && spec_is_unique_id(name.take(36))
}

/// Tests the already-quarantined heuristic on a file name.
pub fn has_unique_id_prefix(name: &str) -> (r: bool)
    ensures
        r == spec_has_unique_id_prefix(name@),
{
    let n = name.unicode_len();
    if n < 36 {
        return false;
    }
    let mut i: usize = 0;
    while i < 36
        invariant
            i <= 36,
            36 <= n,
            n == name@.len(),
            forall|j: int|
                0 <= j < i ==> if j == 8 || j == 13 || j == 18 || j == 23 {
                    name@.take(36)[j] == '-'
                } else {
                    crate::text::spec_is_hex_char(name@.take(36)[j])
                },
        decreases 36 - i,
    {
        let c = name.get_char(i);
        proof {
            assert(name@.take(36)[i as int] == name@[i as int]);
        }
        if i == 8 || i == 13 || i == 18 || i == 23 {
            if c != '-' {
                return false;
            }
        } else {
            if !is_hex_char(c) {
                return false;
            }
        }
        i = i + 1;
    }
    true
}

/// Is this file taken by a scan session: stored on the tree, not carrying
/// the already-quarantined name shape, and not of an excluded extension?
pub open spec fn spec_should_scan(
    tree: Map<Seq<char>, Seq<u8>>,
    excluded: Seq<Seq<char>>,
    path: Seq<char>,
) -> bool {
    &&& tree.contains_key(path)
    &&& !spec_has_unique_id_prefix(spec_file_name(path))
    &&& !spec_is_excluded(excluded, path)
}

/// The engine: configuration, the tiered scanner, the quarantine manager,
/// the web-protection state, the process-lifetime counters, and the progress
/// of the active scan session.
pub struct Engine {
    pub settings: Settings,
    pub scanner: Scanner,
    pub quarantine: QuarantineManager,
    pub web_security: WebSecurity,
    pub files_scanned: u64,
    pub threats_found: u64,
    pub is_scanning: bool,
    pub scan_progress: ScanProgress,
}

impl Engine {
    /// Everything but the session progress is unchanged.
    pub open spec fn same_but_progress(&self, other: &Engine) -> bool {
        &&& self.settings == other.settings
        &&& self.scanner == other.scanner
        &&& self.quarantine == other.quarantine
        &&& self.web_security == other.web_security
        &&& self.files_scanned == other.files_scanned
        &&& self.threats_found == other.threats_found
        &&& self.is_scanning == other.is_scanning
    }

    /// Everything but the two counters is unchanged.
    pub open spec fn same_but_counters(&self, other: &Engine) -> bool {
        &&& self.settings == other.settings
        &&& self.scanner == other.scanner
        &&& self.quarantine == other.quarantine
        &&& self.web_security == other.web_security
        &&& self.is_scanning == other.is_scanning
        &&& self.scan_progress == other.scan_progress
    }

    /// Builds an engine around a prepared scanner: counters at zero, no
    /// session, and web protection on exactly when the configuration enables
    /// a protection class (its blocking set starts empty; the embedding
    /// program fills it).
    pub fn new(settings: Settings, scanner: Scanner) -> (r: Result<Engine, AvError>)
        ensures
            match r {
                Ok(e) => {
                    &&& e.settings == settings
                    &&& e.scanner == scanner
                    &&& e.files_scanned == 0
                    &&& e.threats_found == 0
                    &&& !e.is_scanning
                    &&& !e.scan_progress.is_running
                    &&& e.scan_progress.current_file@ == Seq::<char>::empty()
                    &&& e.scan_progress.total_files == 0
                    &&& e.scan_progress.scanned_files == 0
                    &&& e.web_security.spec_is_active()
                        == settings.web_security.spec_wants_protection_at_startup()
                    &&& e.web_security.spec_blocklist().len() == 0
                },
                Err(_) => false,
            },
    {
        let quarantine = QuarantineManager::new();
        let mut web_security = WebSecurity::new()?;
        let activate = settings.web_security.wants_protection_at_startup();
        if activate {
            web_security.resume_protection()?;
        }
        Ok(
            Engine {
                settings,
                scanner,
                quarantine,
                web_security,
                files_scanned: 0,
                threats_found: 0,
                is_scanning: false,
                scan_progress: Default::default(),
            },
        )
    }

    /// Collects the engine's outward status from the counters, the
    /// quarantine directory and the web-protection state.
    pub fn get_current_status(&self, disk: &Disk) -> (r: Result<EngineStatus, AvError>)
        ensures
            match r {
                Ok(st) => {
                    &&& st.is_scanning == self.is_scanning
                    &&& st.files_scanned == self.files_scanned
                    &&& st.threats_found == self.threats_found
                    &&& st.quarantined_count == spec_list(
                        disk.spec_entries(),
                        self.settings.quarantine_dir@,
                    ).len()
                    &&& st.is_web_protection_active == self.web_security.spec_is_active()
                },
                Err(_) => false,
            },
    {
        let stats = self.quarantine.get_stats(disk, self.settings.quarantine_dir.as_str())?;
        Ok(
            EngineStatus {
                is_scanning: self.is_scanning,
                files_scanned: self.files_scanned,
                threats_found: self.threats_found,
                quarantined_count: stats.count,
                is_web_protection_active: self.web_security.is_protection_active(),
            },
        )
    }

    /// Opens a scan session: the progress is overwritten wholesale with the
    /// computed total, a zero scanned count and the running flag set.
    pub fn begin_session(&mut self, total_files: u64)
        ensures
            final(self).same_but_progress(old(self)),
            final(self).scan_progress.is_running,
            final(self).scan_progress.current_file@ == "Scan starting..."@,
            final(self).scan_progress.total_files == total_files,
            final(self).scan_progress.scanned_files == 0,
    {
        self.scan_progress = ScanProgress {
            is_running: true,
            current_file: String::from_str("Scan starting..."),
            total_files,
            scanned_files: 0,
        };
    }

    /// Publishes the file under examination.
    pub fn note_current_file(&mut self, path: &str)
        ensures
            final(self).same_but_progress(old(self)),
            final(self).scan_progress.current_file@ == path@,
            final(self).scan_progress.is_running == old(self).scan_progress.is_running,
            final(self).scan_progress.total_files == old(self).scan_progress.total_files,
            final(self).scan_progress.scanned_files == old(self).scan_progress.scanned_files,
    {
        self.scan_progress.current_file = path.to_owned();
    }

    /// Counts one examined file: the scanned count rises by exactly one and
    /// never passes the session total; the running flag and the total are
    /// untouched. Over a session of N files the count therefore takes
    /// exactly the values 0 through N, in order.
    pub fn file_scanned(&mut self)
        requires
            old(self).scan_progress.scanned_files < old(self).scan_progress.total_files,
        ensures
            final(self).same_but_progress(old(self)),
            final(self).scan_progress.scanned_files == old(self).scan_progress.scanned_files + 1,
            final(self).scan_progress.scanned_files <= final(self).scan_progress.total_files,
            final(self).scan_progress.is_running == old(self).scan_progress.is_running,
            final(self).scan_progress.total_files == old(self).scan_progress.total_files,
            final(self).scan_progress.current_file@ == old(self).scan_progress.current_file@,
    {
        self.scan_progress.scanned_files = self.scan_progress.scanned_files + 1;
    }

    /// Closes the session: the running flag falls, every other progress
    /// field keeps its last value until the next session.
    pub fn end_session(&mut self)
        ensures
            final(self).same_but_progress(old(self)),
            !final(self).scan_progress.is_running,
            final(self).scan_progress.total_files == old(self).scan_progress.total_files,
            final(self).scan_progress.scanned_files == old(self).scan_progress.scanned_files,
            final(self).scan_progress.current_file@ == old(self).scan_progress.current_file@,
    {
        self.scan_progress.is_running = false;
    }

    /// The read-only quarantine aggregate over the configured directory.
    pub fn get_quarantine_stats(&self, disk: &Disk) -> (r: Result<QuarantineStats, AvError>)
        ensures
            match r {
                Ok(stats) => {
                    let records = spec_list(disk.spec_entries(), self.settings.quarantine_dir@);
                    &&& stats.count == records.len()
                    &&& stats.files@.len() == records.len()
                    &&& forall|k: int|
                        0 <= k < records.len() ==> spec_info_matches(
                            #[trigger] stats.files@[k],
                            records[k],
                        )
                },
                Err(_) => false,
            },
    {
        self.quarantine.get_stats(disk, self.settings.quarantine_dir.as_str())
    }

    /// Deletes a quarantined name from the configured directory; deleting
    /// never fails, absent files included.
    pub fn delete_quarantined_file(&self, disk: &mut Disk, filename: &str) -> (r: Result<
        (),
        AvError,
    >)
        requires
            old(disk).wf(),
        ensures
            final(disk).wf(),
            r is Ok,
            final(disk)@ == spec_delete(old(disk)@, self.settings.quarantine_dir@, filename@),
    {
        self.quarantine.delete_file(disk, filename, self.settings.quarantine_dir.as_str())
    }

    /// Restores a quarantined name from the configured directory; a file
    /// already at the recorded original path is a conflict and nothing
    /// changes.
    pub fn restore_quarantined_file(&self, disk: &mut Disk, filename: &str) -> (r: Result<
        (),
        AvError,
    >)
        requires
            old(disk).wf(),
        ensures
            final(disk).wf(),
            match r {
                Ok(_) => {
                    let dir = self.settings.quarantine_dir@;
                    &&& old(disk)@.contains_key(spec_meta_path(dir, filename@))
                    &&& old(disk)@.contains_key(spec_join(dir, filename@))
                    &&& valid_utf8(old(disk)@[spec_meta_path(dir, filename@)])
                    &&& !old(disk)@.contains_key(spec_recorded_path(old(disk)@, dir, filename@))
                    &&& final(disk)@ == spec_restore(old(disk)@, dir, filename@)
                },
                Err(e) => {
                    let dir = self.settings.quarantine_dir@;
                    &&& *final(disk) == *old(disk)
                    &&& (e is Conflict <==> old(disk)@.contains_key(spec_meta_path(dir, filename@))
                        && old(disk)@.contains_key(spec_join(dir, filename@)) && valid_utf8(
                        old(disk)@[spec_meta_path(dir, filename@)],
                    ) && old(disk)@.contains_key(spec_recorded_path(old(disk)@, dir, filename@)))
                },
            },
    {
        self.quarantine.restore_file(disk, filename, self.settings.quarantine_dir.as_str())
    }

    /// Applies a new configuration (persisting its text is the embedding
    /// program's work) and re-applies the web-protection policy: protection
    /// ends up on exactly when the new configuration wants it.
    pub fn update_and_save_settings(&mut self, new_settings: Settings) -> (r: Result<(), AvError>)
        ensures
            r is Ok,
            final(self).settings == new_settings,
            final(self).scanner == old(self).scanner,
            final(self).quarantine == old(self).quarantine,
            final(self).files_scanned == old(self).files_scanned,
            final(self).threats_found == old(self).threats_found,
            final(self).is_scanning == old(self).is_scanning,
            final(self).scan_progress == old(self).scan_progress,
            final(self).web_security.spec_is_active()
                == new_settings.web_security.spec_wants_protection(),
            final(self).web_security.spec_blocklist() == old(
                self,
            ).web_security.spec_blocklist(),
    {
        let should_be_active = new_settings.web_security.wants_protection();
        self.settings = new_settings;
        if should_be_active {
            self.web_security.resume_protection()?;
        } else {
            self.web_security.stop_protection()?;
        }
        Ok(())
    }

    /// Turns web protection on over its current blocking set (the embedding
    /// program refreshes the set with `update_blocklist` around this call).
    pub fn enable_web_protection(&mut self) -> (r: Result<(), AvError>)
        ensures
            r is Ok,
            final(self).same_but_web(old(self)),
            final(self).web_security.spec_is_active(),
            final(self).web_security.spec_blocklist() == old(self).web_security.spec_blocklist(),
    {
        self.web_security.resume_protection()
    }

    /// Turns web protection off.
    pub fn disable_web_protection(&mut self) -> (r: Result<(), AvError>)
        ensures
            r is Ok,
            final(self).same_but_web(old(self)),
            !final(self).web_security.spec_is_active(),
            final(self).web_security.spec_blocklist() == old(self).web_security.spec_blocklist(),
    {
        self.web_security.stop_protection()
    }

    /// Reports whether web protection is on.
    pub fn is_web_protection_active(&self) -> (r: bool)
        ensures
            r == self.web_security.spec_is_active(),
    {
        self.web_security.is_protection_active()
    }

    /// Everything but the web-protection state is unchanged.
    pub open spec fn same_but_web(&self, other: &Engine) -> bool {
        &&& self.settings == other.settings
        &&& self.scanner == other.scanner
        &&& self.quarantine == other.quarantine
        &&& self.files_scanned == other.files_scanned
        &&& self.threats_found == other.threats_found
        &&& self.is_scanning == other.is_scanning
        &&& self.scan_progress == other.scan_progress
    }
}

} // verus!

verus! {

/// The quarantine move a threat verdict causes: either the tree changed by
/// the quarantine shape under some fresh name carrying the verdict's
/// signature, or the path has no final component — the one ground on which
/// isolating a stored file fails — and the tree stays put.
pub open spec fn spec_quarantine_attempt(
    before: Map<Seq<char>, Seq<u8>>,
    after: Map<Seq<char>, Seq<u8>>,
    path: Seq<char>,
    signature: Seq<char>,
    dir: Seq<char>,
) -> bool {
    ||| exists|name: Seq<char>|
        spec_is_quarantine_name(name, spec_file_name(path)) && after == spec_quarantine(
            before,
            path,
            signature,
            dir,
            name,
        )
    ||| (after == before && spec_file_name(path).len() == 0)
}

/// The per-file relation of one session step, over the counters, the tree
/// and the classifier: an ineligible file moves nothing; an eligible one is
/// counted exactly once and scanned, and the verdict decides the rest in
/// both directions — a threat verdict is exactly a threats-found increment
/// and forces the quarantine move carrying the verdict's signature, a clean
/// verdict or a scan error leaves the tree and the threat counter alone, and
/// the classifier is consulted only when the content's digest is not in the
/// store.
pub open spec fn spec_handled(
    scanner: Scanner,
    excluded: Seq<Seq<char>>,
    dir: Seq<char>,
    fs0: u64,
    tf0: u64,
    d0: Map<Seq<char>, Seq<u8>>,
    c0: ClassifierScript,
    fs1: u64,
    tf1: u64,
    d1: Map<Seq<char>, Seq<u8>>,
    c1: ClassifierScript,
    path: Seq<char>,
) -> bool {
    &&& c1.spec_replies() == c0.spec_replies()
    &&& c0.spec_consumed() <= c1.spec_consumed() <= c0.spec_consumed() + 1
    &&& tf0 <= tf1 <= tf0 + 1
    &&& if !spec_should_scan(d0, excluded, path) {
        fs1 == fs0 && tf1 == tf0 && d1 == d0 && c1 == c0
    } else {
        &&& fs1 == fs0 + 1
        &&& exists|r: Result<ScanResult, AvError>|
            {
                &&& #[trigger] spec_scan_file_outcome(scanner, d0, path, c0, c1, r)
                &&& match r {
                    Ok(res) => {
                        &&& (res.status is ThreatDetected <==> tf1 == tf0 + 1)
                        &&& (res.status is Clean ==> d1 == d0)
                        &&& (res.status is ThreatDetected ==> spec_quarantine_attempt(
                            d0,
                            d1,
                            path,
                            res.status.spec_signature(),
                            dir,
                        ))
                    },
                    Err(_) => tf1 == tf0 && d1 == d0,
                }
            }
        &&& (c1.spec_consumed() != c0.spec_consumed() ==> spec_db_lookup(
            scanner.spec_db(),
            spec_hex_lower(sha256_of(d0[path])),
        ) is None)
    }
}

/// A whole session's effect on the counters, the tree and the classifier:
/// the per-file relation folded over the walked files, in order.
pub open spec fn spec_session(
    scanner: Scanner,
    excluded: Seq<Seq<char>>,
    dir: Seq<char>,
    fs0: u64,
    tf0: u64,
    d0: Map<Seq<char>, Seq<u8>>,
    c0: ClassifierScript,
    fs1: u64,
    tf1: u64,
    d1: Map<Seq<char>, Seq<u8>>,
    c1: ClassifierScript,
    files: Seq<Seq<char>>,
) -> bool
    decreases files.len(),
{
    if files.len() == 0 {
        fs1 == fs0 && tf1 == tf0 && d1 == d0 && c1 == c0
    } else {
        exists|fsm: u64, tfm: u64, dm: Map<Seq<char>, Seq<u8>>, cm: ClassifierScript|
            {
                &&& #[trigger] spec_handled(
                    scanner,
                    excluded,
                    dir,
                    fs0,
                    tf0,
                    d0,
                    c0,
                    fsm,
                    tfm,
                    dm,
                    cm,
                    files[0],
                )
                &&& spec_session(
                    scanner,
                    excluded,
                    dir,
                    fsm,
                    tfm,
                    dm,
                    cm,
                    fs1,
                    tf1,
                    d1,
                    c1,
                    files.drop_first(),
                )
            }
    }
}

/// A session extends by one more handled file.
pub proof fn lemma_session_snoc(
    scanner: Scanner,
    excluded: Seq<Seq<char>>,
    dir: Seq<char>,
    fs0: u64,
    tf0: u64,
    d0: Map<Seq<char>, Seq<u8>>,
    c0: ClassifierScript,
    fsm: u64,
    tfm: u64,
    dm: Map<Seq<char>, Seq<u8>>,
    cm: ClassifierScript,
    fs1: u64,
    tf1: u64,
    d1: Map<Seq<char>, Seq<u8>>,
    c1: ClassifierScript,
    files: Seq<Seq<char>>,
    path: Seq<char>,
)
    requires
        spec_session(scanner, excluded, dir, fs0, tf0, d0, c0, fsm, tfm, dm, cm, files),
        spec_handled(scanner, excluded, dir, fsm, tfm, dm, cm, fs1, tf1, d1, c1, path),
    ensures
        spec_session(
            scanner,
            excluded,
            dir,
            fs0,
            tf0,
            d0,
            c0,
            fs1,
            tf1,
            d1,
            c1,
            files.push(path),
        ),
    decreases files.len(),
{
    if files.len() == 0 {
        assert(files.push(path)[0] == path);
        assert(files.push(path).drop_first() =~= Seq::<Seq<char>>::empty());
        assert(spec_handled(
            scanner,
            excluded,
            dir,
            fs0,
            tf0,
            d0,
            c0,
            fs1,
            tf1,
            d1,
            c1,
            files.push(path)[0],
        ));
        assert(spec_session(
            scanner,
            excluded,
            dir,
            fs1,
            tf1,
            d1,
            c1,
            fs1,
            tf1,
            d1,
            c1,
            files.push(path).drop_first(),
        ));
    } else {
        assert(exists|fsa: u64, tfa: u64, da: Map<Seq<char>, Seq<u8>>, ca: ClassifierScript|
            {
                &&& #[trigger] spec_handled(
                    scanner,
                    excluded,
                    dir,
                    fs0,
                    tf0,
                    d0,
                    c0,
                    fsa,
                    tfa,
                    da,
                    ca,
                    files[0],
                )
                &&& spec_session(
                    scanner,
                    excluded,
                    dir,
                    fsa,
                    tfa,
                    da,
                    ca,
                    fsm,
                    tfm,
                    dm,
                    cm,
                    files.drop_first(),
                )
            });
        let (fsa, tfa, da, ca) = choose|
            fsa: u64,
            tfa: u64,
            da: Map<Seq<char>, Seq<u8>>,
            ca: ClassifierScript,
        |
            {
                &&& #[trigger] spec_handled(
                    scanner,
                    excluded,
                    dir,
                    fs0,
                    tf0,
                    d0,
                    c0,
                    fsa,
                    tfa,
                    da,
                    ca,
                    files[0],
                )
                &&& spec_session(
                    scanner,
                    excluded,
                    dir,
                    fsa,
                    tfa,
                    da,
                    ca,
                    fsm,
                    tfm,
                    dm,
                    cm,
                    files.drop_first(),
                )
            };
        lemma_session_snoc(
            scanner,
            excluded,
            dir,
            fsa,
            tfa,
            da,
            ca,
            fsm,
            tfm,
            dm,
            cm,
            fs1,
            tf1,
            d1,
            c1,
            files.drop_first(),
            path,
        );
        assert(files.push(path)[0] == files[0]);
        assert(files.push(path).drop_first() =~= files.drop_first().push(path));
        assert(spec_handled(
            scanner,
            excluded,
            dir,
            fs0,
            tf0,
            d0,
            c0,
            fsa,
            tfa,
            da,
            ca,
            files.push(path)[0],
        ));
        assert(spec_session(
            scanner,
            excluded,
            dir,
            fsa,
            tfa,
            da,
            ca,
            fs1,
            tf1,
            d1,
            c1,
            files.push(path).drop_first(),
        ));
    }
}

/// Everything one path scan does to the counters, the tree and the
/// classifier: nothing when the root lies inside the quarantine directory,
/// and otherwise a full session over the files walked at the start.
pub open spec fn spec_path_scan_effect(
    scanner: Scanner,
    excluded: Seq<Seq<char>>,
    dir: Seq<char>,
    fs0: u64,
    tf0: u64,
    d0: Disk,
    c0: ClassifierScript,
    fs1: u64,
    tf1: u64,
    d1: Disk,
    c1: ClassifierScript,
    root: Seq<char>,
) -> bool {
    if spec_path_starts_with(root, dir) {
        fs1 == fs0 && tf1 == tf0 && d1 == d0 && c1 == c0
    } else {
        spec_session(
            scanner,
            excluded,
            dir,
            fs0,
            tf0,
            d0@,
            c0,
            fs1,
            tf1,
            d1@,
            c1,
            spec_walk(d0.spec_entries(), root),
        )
    }
}

/// One quick-scan phase over a priority path: a full path scan when the path
/// names a directory on the tree, and no change at all otherwise.
pub open spec fn spec_quick_scan_phase(
    scanner: Scanner,
    excluded: Seq<Seq<char>>,
    dir: Seq<char>,
    fs0: u64,
    tf0: u64,
    d0: Disk,
    c0: ClassifierScript,
    fs1: u64,
    tf1: u64,
    d1: Disk,
    c1: ClassifierScript,
    root: Seq<char>,
) -> bool {
    if spec_dir_exists(d0.spec_entries(), root) {
        spec_path_scan_effect(scanner, excluded, dir, fs0, tf0, d0, c0, fs1, tf1, d1, c1, root)
    } else {
        fs1 == fs0 && tf1 == tf0 && d1 == d0 && c1 == c0
    }
}

impl Engine {
    /// Handles one file of a session: skipped entirely (nothing in the
    /// engine, the tree or the classifier moves) when the file is absent,
    /// carries the already-quarantined name shape, or has an excluded
    /// extension. Otherwise the scanned-files counter rises by one, the file
    /// goes through the tiered scan, a threat verdict raises the
    /// threats-found counter and moves the file into quarantine, and the
    /// classifier is consulted only when the content's digest is not in the
    /// signature store (and no pattern matched). Scan and quarantine
    /// failures are swallowed; the session goes on.
    pub fn scan_and_handle(&mut self, disk: &mut Disk, path: &str, classifier: &mut ClassifierScript)
        requires
            old(disk).wf(),
            old(self).files_scanned < u64::MAX,
            old(self).threats_found < u64::MAX,
            old(classifier).spec_consumed() < usize::MAX,
        ensures
            final(disk).wf(),
            final(disk).spec_entries().len() <= old(disk).spec_entries().len() + 1,
            final(self).same_but_counters(old(self)),
            final(classifier).spec_replies() == old(classifier).spec_replies(),
            old(classifier).spec_consumed() <= final(classifier).spec_consumed() <= old(
                classifier,
            ).spec_consumed() + 1,
            old(self).files_scanned <= final(self).files_scanned <= old(self).files_scanned + 1,
            old(self).threats_found <= final(self).threats_found <= old(self).threats_found + 1,
            spec_handled(
                old(self).scanner,
                old(self).settings.excluded_extensions.deep_view(),
                old(self).settings.quarantine_dir@,
                old(self).files_scanned,
                old(self).threats_found,
                old(disk)@,
                *old(classifier),
                final(self).files_scanned,
                final(self).threats_found,
                final(disk)@,
                *final(classifier),
                path@,
            ),
            !spec_should_scan(
                old(disk)@,
                old(self).settings.excluded_extensions.deep_view(),
                path@,
            ) ==> (*final(self) == *old(self) && *final(disk) == *old(disk) && *final(classifier)
                == *old(classifier)),
    {
        if !disk.contains(path) {
            return;
        }
        match file_name_of(path) {
            Some(name) => {
                if has_unique_id_prefix(name.as_str()) {
                    return;
                }
            },
            None => {
                proof {
                    assert(!spec_has_unique_id_prefix(spec_file_name(path@)));
                }
            },
        }
        if is_excluded(&self.settings.excluded_extensions, path) {
            return;
        }
        proof {
            assert(spec_should_scan(
                old(disk)@,
                old(self).settings.excluded_extensions.deep_view(),
                path@,
            ));
        }
        self.files_scanned = self.files_scanned + 1;
        let scan_outcome = self.scanner.scan_file(disk, path, classifier);
        let ghost outcome = scan_outcome;
        proof {
            if classifier.spec_consumed() != old(classifier).spec_consumed() {
                assert(outcome is Ok);
                let res = outcome->Ok_0;
                let ms = choose|ms: Seq<Seq<char>>|
                    spec_scan_outcome(
                        old(self).scanner.spec_db(),
                        ms,
                        old(disk)@[path@],
                        *old(classifier),
                        *classifier,
                        res,
                        path@,
                    );
                assert(spec_db_lookup(
                    old(self).scanner.spec_db(),
                    spec_hex_lower(sha256_of(old(disk)@[path@])),
                ) is None);
            }
        }
        match scan_outcome {
            Ok(result) => {
                let ghost verdict = result;
                match result.status {
                    ThreatStatus::ThreatDetected { signature } => {
                        self.threats_found = self.threats_found + 1;
                        match self.quarantine.quarantine_file(
                            disk,
                            path,
                            signature.as_str(),
                            self.settings.quarantine_dir.as_str(),
                        ) {
                            Ok(name) => {
                                proof {
                                    assert(spec_is_quarantine_name(
                                        name@,
                                        spec_file_name(path@),
                                    ) && disk@ == spec_quarantine(
                                        old(disk)@,
                                        path@,
                                        signature@,
                                        old(self).settings.quarantine_dir@,
                                        name@,
                                    ));
                                    assert(spec_quarantine_attempt(
                                        old(disk)@,
                                        disk@,
                                        path@,
                                        verdict.status.spec_signature(),
                                        old(self).settings.quarantine_dir@,
                                    ));
                                }
                            },
                            Err(_) => {
                                proof {
                                    assert(spec_file_name(path@).len() == 0);
                                    assert(spec_quarantine_attempt(
                                        old(disk)@,
                                        disk@,
                                        path@,
                                        verdict.status.spec_signature(),
                                        old(self).settings.quarantine_dir@,
                                    ));
                                }
                            },
                        }
                        proof {
                            assert(spec_scan_file_outcome(
                                old(self).scanner,
                                old(disk)@,
                                path@,
                                *old(classifier),
                                *classifier,
                                outcome,
                            ));
                        }
                    },
                    ThreatStatus::Clean => {
                        proof {
                            assert(spec_scan_file_outcome(
                                old(self).scanner,
                                old(disk)@,
                                path@,
                                *old(classifier),
                                *classifier,
                                outcome,
                            ));
                        }
                    },
                }
            },
            Err(_) => {
                proof {
                    assert(spec_scan_file_outcome(
                        old(self).scanner,
                        old(disk)@,
                        path@,
                        *old(classifier),
                        *classifier,
                        outcome,
                    ));
                }
            },
        }
    }

    /// One full scan session over the tree at `path_to_scan`: a scan rooted
    /// inside the quarantine directory is refused outright (nothing moves);
    /// otherwise a first pass counts the files to fix the session total, and
    /// a second pass hands each file in turn to `scan_and_handle` while the
    /// scanned count climbs from 0 to the total, where it stands when the
    /// running flag falls.
    pub fn run_path_scan(
        &mut self,
        disk: &mut Disk,
        path_to_scan: &str,
        classifier: &mut ClassifierScript,
    ) -> (r: Result<(), AvError>)
        requires
            old(disk).wf(),
            old(self).files_scanned + old(disk).spec_entries().len() <= u64::MAX,
            old(self).threats_found + old(disk).spec_entries().len() <= u64::MAX,
            old(classifier).spec_consumed() + old(disk).spec_entries().len() <= usize::MAX,
        ensures
            r is Ok,
            final(disk).wf(),
            final(self).settings == old(self).settings,
            final(self).scanner == old(self).scanner,
            final(self).quarantine == old(self).quarantine,
            final(self).web_security == old(self).web_security,
            final(self).is_scanning == old(self).is_scanning,
            final(classifier).spec_replies() == old(classifier).spec_replies(),
            old(self).files_scanned <= final(self).files_scanned,
            old(self).threats_found <= final(self).threats_found,
            spec_path_scan_effect(
                old(self).scanner,
                old(self).settings.excluded_extensions.deep_view(),
                old(self).settings.quarantine_dir@,
                old(self).files_scanned,
                old(self).threats_found,
                *old(disk),
                *old(classifier),
                final(self).files_scanned,
                final(self).threats_found,
                *final(disk),
                *final(classifier),
                path_to_scan@,
            ),
            spec_path_starts_with(path_to_scan@, old(self).settings.quarantine_dir@)
                ==> (*final(self) == *old(self) && *final(disk) == *old(disk)
                && *final(classifier) == *old(classifier)),
            !spec_path_starts_with(path_to_scan@, old(self).settings.quarantine_dir@) ==> ({
                let total = spec_walk(old(disk).spec_entries(), path_to_scan@).len();
                &&& !final(self).scan_progress.is_running
                &&& final(self).scan_progress.total_files == total
                &&& final(self).scan_progress.scanned_files == total
                &&& final(self).files_scanned <= old(self).files_scanned + total
                &&& final(self).threats_found <= old(self).threats_found + total
                &&& final(classifier).spec_consumed() <= old(classifier).spec_consumed() + total
                &&& final(disk).spec_entries().len() <= old(disk).spec_entries().len() + total
            }),
    {
        if path_starts_with(path_to_scan, self.settings.quarantine_dir.as_str()) {
            return Ok(());
        }
        let files = disk.walk_files(path_to_scan);
        proof {
            lemma_walk_len(disk.spec_entries(), path_to_scan@);
        }
        let n = files.len();
        self.begin_session(n as u64);
        let mut j: usize = 0;
        proof {
            assert(files.deep_view().take(0) =~= Seq::<Seq<char>>::empty());
        }
        while j < n
            invariant
                j <= n,
                n == files@.len(),
                n == spec_walk(old(disk).spec_entries(), path_to_scan@).len(),
                n <= old(disk).spec_entries().len(),
                disk.wf(),
                disk.spec_entries().len() <= old(disk).spec_entries().len() + j,
                self.settings == old(self).settings,
                self.scanner == old(self).scanner,
                self.quarantine == old(self).quarantine,
                self.web_security == old(self).web_security,
                self.is_scanning == old(self).is_scanning,
                self.scan_progress.is_running,
                self.scan_progress.total_files == n as u64,
                self.scan_progress.scanned_files == j as u64,
                old(self).files_scanned <= self.files_scanned <= old(self).files_scanned + j,
                old(self).threats_found <= self.threats_found <= old(self).threats_found + j,
                classifier.spec_replies() == old(classifier).spec_replies(),
                old(classifier).spec_consumed() <= classifier.spec_consumed() <= old(
                    classifier,
                ).spec_consumed() + j,
                old(self).files_scanned + old(disk).spec_entries().len() <= u64::MAX,
                old(self).threats_found + old(disk).spec_entries().len() <= u64::MAX,
                old(classifier).spec_consumed() + old(disk).spec_entries().len() <= usize::MAX,
                files.deep_view() == spec_walk(old(disk).spec_entries(), path_to_scan@),
                spec_session(
                    old(self).scanner,
                    old(self).settings.excluded_extensions.deep_view(),
                    old(self).settings.quarantine_dir@,
                    old(self).files_scanned,
                    old(self).threats_found,
                    old(disk)@,
                    *old(classifier),
                    self.files_scanned,
                    self.threats_found,
                    disk@,
                    *classifier,
                    files.deep_view().take(j as int),
                ),
            decreases n - j,
        {
            let ghost fsm = self.files_scanned;
            let ghost tfm = self.threats_found;
            let ghost dm = disk@;
            let ghost cm = *classifier;
            let path = files[j].clone();
            proof {
                assert(files.deep_view()[j as int] == files@[j as int]@);
            }
            self.note_current_file(path.as_str());
            self.scan_and_handle(disk, path.as_str(), classifier);
            proof {
                lemma_session_snoc(
                    old(self).scanner,
                    old(self).settings.excluded_extensions.deep_view(),
                    old(self).settings.quarantine_dir@,
                    old(self).files_scanned,
                    old(self).threats_found,
                    old(disk)@,
                    *old(classifier),
                    fsm,
                    tfm,
                    dm,
                    cm,
                    self.files_scanned,
                    self.threats_found,
                    disk@,
                    *classifier,
                    files.deep_view().take(j as int),
                    path@,
                );
                assert(files.deep_view().take(j + 1) =~= files.deep_view().take(j as int).push(
                    path@,
                ));
            }
            self.file_scanned();
            j = j + 1;
        }
        self.end_session();
        proof {
            assert(files.deep_view().take(n as int) =~= files.deep_view());
        }
        Ok(())
    }

    /// A quick scan: one session over each of a fixed, small set of priority
    /// paths, taken in order and skipping any that is not a directory on the
    /// tree; the global scanning flag is up for the whole run and down
    /// afterwards.
    pub fn run_quick_scan(&mut self, disk: &mut Disk, classifier: &mut ClassifierScript) -> (r:
        Result<(), AvError>)
        requires
            old(disk).wf(),
            old(self).files_scanned + 3 * old(disk).spec_entries().len() <= u64::MAX,
            old(self).threats_found + 3 * old(disk).spec_entries().len() <= u64::MAX,
            old(classifier).spec_consumed() + 3 * old(disk).spec_entries().len() <= usize::MAX,
        ensures
            r is Ok,
            final(disk).wf(),
            !final(self).is_scanning,
            final(self).settings == old(self).settings,
            final(self).scanner == old(self).scanner,
            final(self).quarantine == old(self).quarantine,
            final(self).web_security == old(self).web_security,
            final(classifier).spec_replies() == old(classifier).spec_replies(),
            old(self).files_scanned <= final(self).files_scanned,
            old(self).threats_found <= final(self).threats_found,
            exists|fsm: u64, tfm: u64, dm: Disk, cm: ClassifierScript|
                {
                    &&& #[trigger] spec_quick_scan_phase(
                        old(self).scanner,
                        old(self).settings.excluded_extensions.deep_view(),
                        old(self).settings.quarantine_dir@,
                        old(self).files_scanned,
                        old(self).threats_found,
                        *old(disk),
                        *old(classifier),
                        fsm,
                        tfm,
                        dm,
                        cm,
                        "C:\\AIAV_Test\\TempA"@,
                    )
                    &&& spec_quick_scan_phase(
                        old(self).scanner,
                        old(self).settings.excluded_extensions.deep_view(),
                        old(self).settings.quarantine_dir@,
                        fsm,
                        tfm,
                        dm,
                        cm,
                        final(self).files_scanned,
                        final(self).threats_found,
                        *final(disk),
                        *final(classifier),
                        "C:\\AIAV_Test\\TempB"@,
                    )
                },
    {
        self.is_scanning = true;
        let path_a = "C:\\AIAV_Test\\TempA";
        let path_b = "C:\\AIAV_Test\\TempB";
        if disk.dir_exists(path_a) {
            self.run_path_scan(disk, path_a, classifier)?;
            proof {
                lemma_walk_len(old(disk).spec_entries(), path_a@);
            }
        }
        let ghost fsm = self.files_scanned;
        let ghost tfm = self.threats_found;
        let ghost dm = *disk;
        let ghost cm = *classifier;
        proof {
            assert(spec_quick_scan_phase(
                old(self).scanner,
                old(self).settings.excluded_extensions.deep_view(),
                old(self).settings.quarantine_dir@,
                old(self).files_scanned,
                old(self).threats_found,
                *old(disk),
                *old(classifier),
                fsm,
                tfm,
                dm,
                cm,
                "C:\\AIAV_Test\\TempA"@,
            ));
        }
        if disk.dir_exists(path_b) {
            self.run_path_scan(disk, path_b, classifier)?;
        }
        self.is_scanning = false;
        proof {
            assert(spec_quick_scan_phase(
                old(self).scanner,
                old(self).settings.excluded_extensions.deep_view(),
                old(self).settings.quarantine_dir@,
                fsm,
                tfm,
                dm,
                cm,
                self.files_scanned,
                self.threats_found,
                *disk,
                *classifier,
                "C:\\AIAV_Test\\TempB"@,
            ));
        }
        Ok(())
    }
}

} // verus!

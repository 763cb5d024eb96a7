//! The quarantine lifecycle: isolating a detected file under a fresh unique
//! name next to a sidecar metadata file, listing, deleting and restoring
//! quarantined files.
//!
//! Every operation works on the modelled directory tree ([`crate::disk`]);
//! the embedding program mirrors the moves, writes and removals onto the
//! real filesystem. Paths join with `/`.

use vstd::prelude::*;
use vstd::string::{StrSliceExecFns, StringExecFns};
use vstd::utf8::{decode_utf8, encode_utf8, valid_utf8};
use crate::disk::Disk;
use crate::errors::AvError;
use crate::text::{ends_with_str, find_char, last_char_pos, lemma_last_char_pos,
    lemma_last_char_pos_is, lemma_lines_concat, lemma_lines_single, last_index_of_char,
    starts_with_str, spec_is_hex_char, spec_lines, spec_trim_end_ch, spec_trim_start_ch,
    strip_cr, strip_prefix_str, substr, trim_matches_char, utf8_to_string, split_lines};

verus! {

/// One quarantined file as reported to callers: its unique on-disk name, the
/// absolute path it was taken from, the (never populated) isolation time,
/// and the signature that flagged it.
#[derive(Debug)]
pub struct QuarantinedFileInfo {
    pub quarantined_name: String,
    pub original_path: String,
    pub quarantined_at: String,
    pub signature: String,
}

/// The read-only aggregate over the quarantine directory.
#[derive(Debug)]
pub struct QuarantineStats {
    pub count: u64,
    pub files: Vec<QuarantinedFileInfo>,
}

/// `dir/name`.
pub open spec fn spec_join(dir: Seq<char>, name: Seq<char>) -> Seq<char> {
    dir + "/"@ + name
}

/// `dir/name.meta`: the sidecar metadata path for a quarantined name.
pub open spec fn spec_meta_path(dir: Seq<char>, name: Seq<char>) -> Seq<char> {
    spec_join(dir, name) + ".meta"@
}

/// The final component of a `/`-joined path: everything after the last `/`.
pub open spec fn spec_file_name(path: Seq<char>) -> Seq<char> {
    path.skip(last_char_pos(path, '/') + 1)
}

/// The hyphenated shape of a fresh unique identifier: 36 characters with
/// dashes at positions 8, 13, 18 and 23 and hex digits everywhere else.
pub open spec fn spec_is_unique_id(s: Seq<char>) -> bool {
    &&& s.len() == 36
    &&& forall|i: int|
        0 <= i < 36 ==> if i == 8 || i == 13 || i == 18 || i == 23 {
            s[i] == '-'
        } else {
            spec_is_hex_char(s[i])
        }
}

/// A quarantined name: a unique identifier, a dash, then the original file
/// name (extension included).
pub open spec fn spec_is_quarantine_name(name: Seq<char>, file_name: Seq<char>) -> bool {
    &&& name.len() == 37 + file_name.len()
    &&& spec_is_unique_id(name.take(36))
    &&& name[36] == '-'
    &&& name.skip(37) == file_name
}

/// Relies on uuid::Uuid::new_v4 and its display form: a freshly drawn random
/// identifier, printed as 36 hyphenated hex characters. Freshness is chance,
/// so nothing is promised beyond the shape.
#[verifier::external_body]
fn fresh_unique_id() -> (r: String)
    ensures
        spec_is_unique_id(r@),
{
    uuid::Uuid::new_v4().to_string()
}

/// The sidecar metadata text: a header line, the quoted signature, and the
/// quoted original path.
pub open spec fn spec_meta_content(signature: Seq<char>, original_path: Seq<char>) -> Seq<char> {
    "[Threat Info]\nsignature = \""@ + signature + "\"\noriginal_path = \""@ + original_path
        + "\""@
}

/// Builds the sidecar metadata text for a quarantined file.
pub fn meta_content(signature: &str, original_path: &str) -> (r: String)
    ensures
        r@ == spec_meta_content(signature@, original_path@),
{
    let mut s = String::from_str("[Threat Info]\nsignature = \"");
    s.append(signature);
    s.append("\"\noriginal_path = \"");
    s.append(original_path);
    s.append("\"");
    proof {
        assert(s@ =~= spec_meta_content(signature@, original_path@));
    }
    s
}

/// A metadata value with surrounding quotes removed.
pub open spec fn spec_quote_trim(s: Seq<char>) -> Seq<char> {
    spec_trim_end_ch(spec_trim_start_ch(s, '"'), '"')
}

/// The value of the last metadata line that starts with `prefix`, with
/// surrounding quotes removed; empty if no line matches.
pub open spec fn spec_meta_field(lines: Seq<Seq<char>>, prefix: Seq<char>) -> Seq<char>
    decreases lines.len(),
{
    if lines.len() == 0 {
        Seq::empty()
    } else if lines.last().len() >= prefix.len() && lines.last().take(prefix.len() as int)
        == prefix {
        spec_quote_trim(lines.last().skip(prefix.len() as int))
    } else {
        spec_meta_field(lines.drop_last(), prefix)
    }
}

/// The `(signature, original_path)` pair read from a sidecar metadata text.
pub open spec fn spec_parse_meta(content: Seq<char>) -> (Seq<char>, Seq<char>) {
    (
        spec_meta_field(spec_lines(content), "signature = "@),
        spec_meta_field(spec_lines(content), "original_path = "@),
    )
}

/// Reads the signature and original path out of a sidecar metadata text:
/// lines are scanned in order, each `signature = ` or `original_path = `
/// line overwriting the value, quotes trimmed; missing fields stay empty.
pub fn parse_meta(content: &str) -> (r: (String, String))
    ensures
        (r.0@, r.1@) == spec_parse_meta(content@),
{
    let lines = split_lines(content);
    let mut signature = String::new();
    let mut original_path = String::new();
    let n = lines.len();
    let mut i: usize = 0;
    proof {
        assert(lines.deep_view().take(0) =~= Seq::<Seq<char>>::empty());
    }
    while i < n
        invariant
            i <= n,
            n == lines@.len(),
            lines.deep_view() == spec_lines(content@),
            signature@ == spec_meta_field(lines.deep_view().take(i as int), "signature = "@),
            original_path@ == spec_meta_field(
                lines.deep_view().take(i as int),
                "original_path = "@,
            ),
        decreases n - i,
    {
        let line = lines[i].as_str();
        proof {
            assert(lines.deep_view()[i as int] == lines@[i as int]@);
            assert(lines.deep_view().take(i + 1).drop_last() =~= lines.deep_view().take(i as int));
            assert(lines.deep_view().take(i + 1).last() == lines.deep_view()[i as int]);
        }
        match strip_prefix_str(line, "signature = ") {
            Some(value) => {
                signature = trim_matches_char(value.as_str(), '"');
            },
            None => {},
        }
        match strip_prefix_str(line, "original_path = ") {
            Some(value) => {
                original_path = trim_matches_char(value.as_str(), '"');
            },
            None => {},
        }
        i = i + 1;
    }
    proof {
        assert(lines.deep_view().take(n as int) =~= lines.deep_view());
    }
    (signature, original_path)
}

} // verus!

verus! {

/// The final component of `path`, or nothing when `path` ends in `/` or is
/// empty.
pub fn file_name_of(path: &str) -> (r: Option<String>)
    ensures
        match r {
            Some(name) => name@ == spec_file_name(path@) && name@.len() > 0,
            None => spec_file_name(path@).len() == 0,
        },
{
    let n = path.unicode_len();
    match last_index_of_char(path, '/') {
        Some(k) => {
            proof {
                lemma_last_char_pos_is(path@, '/', k as int);
            }
            if k + 1 < n {
                Some(substr(path, k + 1, n))
            } else {
                None
            }
        },
        None => {
            proof {
                lemma_last_char_pos_is(path@, '/', -1);
                assert(path@.skip(0) =~= path@);
            }
            if n > 0 {
                Some(path.to_owned())
            } else {
                None
            }
        },
    }
}

/// Manages the on-disk lifecycle of isolated files and their sidecar
/// metadata inside a quarantine directory.
#[derive(Clone)]
pub struct QuarantineManager;

/// The tree after quarantining `original_path` under `name`: the original
/// file is moved to `dir/name` and the metadata text is written beside it.
pub open spec fn spec_quarantine(
    m: Map<Seq<char>, Seq<u8>>,
    original_path: Seq<char>,
    signature: Seq<char>,
    dir: Seq<char>,
    name: Seq<char>,
) -> Map<Seq<char>, Seq<u8>> {
    m.remove(original_path).insert(spec_join(dir, name), m[original_path]).insert(
        spec_meta_path(dir, name),
        encode_utf8(spec_meta_content(signature, original_path)),
    )
}

/// The tree after deleting quarantined `name`: data and metadata file gone,
/// whether or not they were there.
pub open spec fn spec_delete(
    m: Map<Seq<char>, Seq<u8>>,
    dir: Seq<char>,
    name: Seq<char>,
) -> Map<Seq<char>, Seq<u8>> {
    m.remove(spec_join(dir, name)).remove(spec_meta_path(dir, name))
}

/// The original path recorded in the metadata of quarantined `name`.
pub open spec fn spec_recorded_path(
    m: Map<Seq<char>, Seq<u8>>,
    dir: Seq<char>,
    name: Seq<char>,
) -> Seq<char> {
    spec_parse_meta(decode_utf8(m[spec_meta_path(dir, name)])).1
}

/// The tree after restoring quarantined `name`: the data file is moved back
/// to the recorded original path and the metadata file is removed.
pub open spec fn spec_restore(
    m: Map<Seq<char>, Seq<u8>>,
    dir: Seq<char>,
    name: Seq<char>,
) -> Map<Seq<char>, Seq<u8>> {
    m.remove(spec_join(dir, name)).remove(spec_meta_path(dir, name)).insert(
        spec_recorded_path(m, dir, name),
        m[spec_join(dir, name)],
    )
}

impl QuarantineManager {
    /// A manager; the embedding program creates the directory itself.
    pub fn new() -> QuarantineManager {
        QuarantineManager
    }

    /// The data and metadata paths of a quarantined name.
    pub fn get_quarantine_paths(&self, quarantine_dir: &str, quarantined_name: &str) -> (r: (
        String,
        String,
    ))
        ensures
            r.0@ == spec_join(quarantine_dir@, quarantined_name@),
            r.1@ == spec_meta_path(quarantine_dir@, quarantined_name@),
    {
        let mut file_path = String::from_str(quarantine_dir);
        file_path.append("/");
        file_path.append(quarantined_name);
        let mut meta_path = file_path.clone();
        meta_path.append(".meta");
        proof {
            assert(file_path@ =~= spec_join(quarantine_dir@, quarantined_name@));
        }
        (file_path, meta_path)
    }

    /// Isolates the file at `original_path`: moves it into the quarantine
    /// directory under a fresh `<unique-id>-<file-name>` name, then writes
    /// the sidecar metadata, and reports the quarantined name. It fails
    /// exactly when the path has no final component (nothing to name the
    /// file by) or no file is at the path; failure changes nothing.
    pub fn quarantine_file(
        &self,
        disk: &mut Disk,
        original_path: &str,
        signature: &str,
        quarantine_dir: &str,
    ) -> (r: Result<String, AvError>)
        requires
            old(disk).wf(),
        ensures
            final(disk).wf(),
            final(disk).spec_entries().len() <= old(disk).spec_entries().len() + 1,
            match r {
                Ok(name) => {
                    &&& old(disk)@.contains_key(original_path@)
                    &&& spec_file_name(original_path@).len() > 0
                    &&& spec_is_quarantine_name(name@, spec_file_name(original_path@))
                    &&& final(disk)@ == spec_quarantine(
                        old(disk)@,
                        original_path@,
                        signature@,
                        quarantine_dir@,
                        name@,
                    )
                },
                Err(e) => {
                    &&& *final(disk) == *old(disk)
                    &&& (spec_file_name(original_path@).len() == 0 || !old(disk)@.contains_key(
                        original_path@,
                    ))
                    &&& (e is Other ==> spec_file_name(original_path@).len() == 0)
                    &&& (e is Io ==> spec_file_name(original_path@).len() > 0 && !old(
                        disk,
                    )@.contains_key(original_path@))
                    &&& (e is Other || e is Io)
                },
            },
    {
        let file_name = match file_name_of(original_path) {
            Some(name) => name,
            None => {
                return Err(
                    AvError::Other("could not get a file name from the path".to_owned()),
                );
            },
        };
        let mut unique_name = fresh_unique_id();
        let ghost id_view = unique_name@;
        unique_name.append("-");
        unique_name.append(file_name.as_str());
        let (destination_path, meta_path) = self.get_quarantine_paths(
            quarantine_dir,
            unique_name.as_str(),
        );
        match disk.rename(original_path, destination_path.as_str()) {
            Ok(_) => {},
            Err(e) => {
                return Err(e);
            },
        }
        let meta = meta_content(signature, original_path);
        disk.write(meta_path.as_str(), meta.as_str().as_bytes_vec());
        proof {
            reveal_strlit("-");
            assert(unique_name@.take(36) =~= id_view);
            assert(unique_name@[36] == '-');
            assert(unique_name@.skip(37) =~= file_name@);
            assert(spec_is_quarantine_name(unique_name@, spec_file_name(original_path@)));
            assert(disk@ =~= spec_quarantine(
                old(disk)@,
                original_path@,
                signature@,
                quarantine_dir@,
                unique_name@,
            ));
        }
        Ok(unique_name)
    }

    /// Removes the data and metadata files of quarantined `name`; a file
    /// already absent is not an error, so deleting never fails.
    pub fn delete_file(
        &self,
        disk: &mut Disk,
        quarantined_name: &str,
        quarantine_dir: &str,
    ) -> (r: Result<(), AvError>)
        requires
            old(disk).wf(),
        ensures
            final(disk).wf(),
            r is Ok,
            final(disk)@ == spec_delete(old(disk)@, quarantine_dir@, quarantined_name@),
    {
        let (file_path, meta_path) = self.get_quarantine_paths(quarantine_dir, quarantined_name);
        disk.remove(file_path.as_str());
        disk.remove(meta_path.as_str());
        Ok(())
    }

    /// Moves quarantined `name` back to the original path recorded in its
    /// metadata and removes the metadata file. It fails exactly when the
    /// metadata file is missing, the data file is missing, the metadata is
    /// not decodable text, or a file already sits at the recorded original
    /// path (a conflict); every failure leaves the tree untouched.
    pub fn restore_file(
        &self,
        disk: &mut Disk,
        quarantined_name: &str,
        quarantine_dir: &str,
    ) -> (r: Result<(), AvError>)
        requires
            old(disk).wf(),
        ensures
            final(disk).wf(),
            match r {
                Ok(_) => {
                    let file = spec_join(quarantine_dir@, quarantined_name@);
                    let meta = spec_meta_path(quarantine_dir@, quarantined_name@);
                    &&& old(disk)@.contains_key(meta)
                    &&& old(disk)@.contains_key(file)
                    &&& valid_utf8(old(disk)@[meta])
                    &&& !old(disk)@.contains_key(
                        spec_recorded_path(old(disk)@, quarantine_dir@, quarantined_name@),
                    )
                    &&& final(disk)@ == spec_restore(
                        old(disk)@,
                        quarantine_dir@,
                        quarantined_name@,
                    )
                },
                Err(e) => {
                    let file = spec_join(quarantine_dir@, quarantined_name@);
                    let meta = spec_meta_path(quarantine_dir@, quarantined_name@);
                    &&& *final(disk) == *old(disk)
                    &&& (e is Conflict <==> old(disk)@.contains_key(meta)
                        && old(disk)@.contains_key(file) && valid_utf8(old(disk)@[meta]) && old(
                        disk,
                    )@.contains_key(
                        spec_recorded_path(old(disk)@, quarantine_dir@, quarantined_name@),
                    ))
                    &&& (e is Other ==> !old(disk)@.contains_key(meta) || !old(
                        disk,
                    )@.contains_key(file))
                    &&& (e is Io ==> !valid_utf8(old(disk)@[meta]))
                    &&& (e is Conflict || e is Other || e is Io)
                },
            },
    {
        let (file_path, meta_path) = self.get_quarantine_paths(quarantine_dir, quarantined_name);
        if !disk.contains(meta_path.as_str()) {
            return Err(AvError::Other("metadata file not found".to_owned()));
        }
        if !disk.contains(file_path.as_str()) {
            return Err(AvError::Other("quarantined data file not found".to_owned()));
        }
        let meta_bytes = match disk.read(meta_path.as_str()) {
            Some(bytes) => bytes,
            None => {
                return Err(AvError::Other("metadata file not found".to_owned()));
            },
        };
        let meta_text = match utf8_to_string(meta_bytes) {
            Some(text) => text,
            None => {
                return Err(AvError::Io("metadata file holds no readable text".to_owned()));
            },
        };
        let (_, original_path) = parse_meta(meta_text.as_str());
        proof {
            vstd::utf8::encode_utf8_decode_utf8(meta_text@);
            assert(original_path@ == spec_recorded_path(
                old(disk)@,
                quarantine_dir@,
                quarantined_name@,
            ));
        }
        if disk.contains(original_path.as_str()) {
            return Err(
                AvError::Conflict(
                    "cannot restore: a file already exists at the original path".to_owned(),
                ),
            );
        }
        match disk.rename(file_path.as_str(), original_path.as_str()) {
            Ok(_) => {},
            Err(e) => {
                return Err(e);
            },
        }
        disk.remove(meta_path.as_str());
        proof {
            assert(disk@ =~= spec_restore(old(disk)@, quarantine_dir@, quarantined_name@));
        }
        Ok(())
    }
}

} // verus!

verus! {

/// Does this stored file name a sidecar metadata file directly inside `dir`
/// whose bytes decode as text?
pub open spec fn spec_is_meta_entry(path: Seq<char>, content: Seq<u8>, dir: Seq<char>) -> bool {
    &&& path.len() > dir.len() + 6
    &&& path.take(dir.len() as int + 1) == dir + "/"@
    &&& path.skip(path.len() - 5) == ".meta"@
    &&& (forall|j: int| dir.len() as int + 1 <= j < path.len() - 5 ==> path[j] != '/')
    &&& valid_utf8(content)
}

/// The quarantined name of a metadata entry: the path between the directory
/// prefix and the `.meta` suffix.
pub open spec fn spec_meta_entry_name(path: Seq<char>, dir: Seq<char>) -> Seq<char> {
    path.subrange(dir.len() as int + 1, path.len() - 5)
}

/// The records read from the tree, in storage order: one
/// `(quarantined_name, original_path, signature)` triple per metadata entry
/// directly inside `dir`; data files without metadata do not appear.
pub open spec fn spec_list(
    entries: Seq<(Seq<char>, Seq<u8>)>,
    dir: Seq<char>,
) -> Seq<(Seq<char>, Seq<char>, Seq<char>)>
    decreases entries.len(),
{
    if entries.len() == 0 {
        Seq::empty()
    } else {
        spec_list(entries.drop_last(), dir) + (if spec_is_meta_entry(
            entries.last().0,
            entries.last().1,
            dir,
        ) {
            let parsed = spec_parse_meta(decode_utf8(entries.last().1));
            seq![(spec_meta_entry_name(entries.last().0, dir), parsed.1, parsed.0)]
        } else {
            Seq::empty()
        })
    }
}

/// Does a reported record carry exactly this triple (and the placeholder
/// isolation time)?
pub open spec fn spec_info_matches(
    info: QuarantinedFileInfo,
    record: (Seq<char>, Seq<char>, Seq<char>),
) -> bool {
    &&& info.quarantined_name@ == record.0
    &&& info.original_path@ == record.1
    &&& info.signature@ == record.2
    &&& info.quarantined_at@ == "N/A"@
}

impl QuarantineManager {
    /// Reads every sidecar metadata file directly inside the quarantine
    /// directory and reports one record per readable one, in storage order;
    /// unreadable metadata is skipped, and orphaned data files (no metadata
    /// beside them) do not appear.
    pub fn list_files(&self, disk: &Disk, quarantine_dir: &str) -> (r: Result<
        Vec<QuarantinedFileInfo>,
        AvError,
    >)
        ensures
            match r {
                Ok(files) => {
                    let records = spec_list(disk.spec_entries(), quarantine_dir@);
                    &&& files@.len() == records.len()
                    &&& forall|k: int|
                        0 <= k < records.len() ==> spec_info_matches(#[trigger] files@[k], records[k])
                },
                Err(_) => false,
            },
    {
        let mut dir_slash = String::from_str(quarantine_dir);
        dir_slash.append("/");
        let dir_len = quarantine_dir.unicode_len();
        let mut files: Vec<QuarantinedFileInfo> = Vec::new();
        let n = disk.entry_count();
        let mut i: usize = 0;
        proof {
            reveal_strlit("/");
            reveal_strlit(".meta");
            assert(disk.spec_entries().take(0) =~= Seq::<(Seq<char>, Seq<u8>)>::empty());
        }
        while i < n
            invariant
                i <= n,
                n == disk.spec_entries().len(),
                dir_slash@ == quarantine_dir@ + "/"@,
                dir_len == quarantine_dir@.len(),
                dir_len + 1 == dir_slash@.len(),
                files@.len() == spec_list(disk.spec_entries().take(i as int), quarantine_dir@).len(),
                forall|k: int|
                    0 <= k < files@.len() ==> spec_info_matches(
                        #[trigger] files@[k],
                        spec_list(disk.spec_entries().take(i as int), quarantine_dir@)[k],
                    ),
            decreases n - i,
        {
            let ghost pre_records = spec_list(disk.spec_entries().take(i as int), quarantine_dir@);
            let (path, content) = disk.entry_at(i);
            let path_str = path.as_str();
            let path_len = path_str.unicode_len();
            proof {
                reveal_strlit("/");
                reveal_strlit(".meta");
                assert(disk.spec_entries().take(i + 1).drop_last() =~= disk.spec_entries().take(
                    i as int,
                ));
                assert(disk.spec_entries().take(i + 1).last() == disk.spec_entries()[i as int]);
            }
            let qualifies = path_len > dir_len && path_len - dir_len > 6 && starts_with_str(
                path_str,
                dir_slash.as_str(),
            ) && ends_with_str(path_str, ".meta");
            if qualifies {
                let middle_clear = match find_char(path_str, '/', dir_len + 1) {
                    Some(k) => k >= path_len - 5,
                    None => true,
                };
                if middle_clear {
                    match utf8_to_string(content) {
                        Some(text) => {
                            proof {
                                vstd::utf8::encode_utf8_decode_utf8(text@);
                                assert(spec_is_meta_entry(
                                    path@,
                                    disk.spec_entries()[i as int].1,
                                    quarantine_dir@,
                                ));
                            }
                            let (signature, original_path) = parse_meta(text.as_str());
                            let quarantined_name = substr(path_str, dir_len + 1, path_len - 5);
                            let info = QuarantinedFileInfo {
                                quarantined_name,
                                original_path,
                                quarantined_at: "N/A".to_owned(),
                                signature,
                            };
                            files.push(info);
                        },
                        None => {
                            proof {
                                assert(!spec_is_meta_entry(
                                    path@,
                                    disk.spec_entries()[i as int].1,
                                    quarantine_dir@,
                                ));
                            }
                        },
                    }
                } else {
                    proof {
                        assert(!spec_is_meta_entry(
                            path@,
                            disk.spec_entries()[i as int].1,
                            quarantine_dir@,
                        ));
                    }
                }
            } else {
                proof {
                    if path@.len() > quarantine_dir@.len() + 6 {
                        assert(path@.take(dir_slash@.len() as int).len() == dir_slash@.len());
                    }
                    assert(!spec_is_meta_entry(
                        path@,
                        disk.spec_entries()[i as int].1,
                        quarantine_dir@,
                    ));
                }
            }
            i = i + 1;
            proof {
                assert(files@.len() == spec_list(
                    disk.spec_entries().take(i as int),
                    quarantine_dir@,
                ).len());
            }
        }
        proof {
            assert(disk.spec_entries().take(n as int) =~= disk.spec_entries());
        }
        Ok(files)
    }

    /// The read-only aggregate: the records of `list_files` and their count.
    pub fn get_stats(&self, disk: &Disk, quarantine_dir: &str) -> (r: Result<
        QuarantineStats,
        AvError,
    >)
        ensures
            match r {
                Ok(stats) => {
                    let records = spec_list(disk.spec_entries(), quarantine_dir@);
                    &&& stats.count == records.len()
                    &&& stats.files@.len() == records.len()
                    &&& forall|k: int|
                        0 <= k < records.len() ==> spec_info_matches(
                            #[trigger] stats.files@[k],
                            records[k],
                        )
                },
                Err(_) => false,
            },
    {
        let files = self.list_files(disk, quarantine_dir)?;
        let count = files.len() as u64;
        Ok(QuarantineStats { count, files })
    }
}

} // verus!

verus! {

/// Quote-wrapping then quote-trimming gives the value back when it neither
/// starts nor ends with a quote.
proof fn lemma_quote_trim_wrapped(s: Seq<char>)
    requires
        s.len() > 0 ==> s[0] != '"' && s.last() != '"',
    ensures
        spec_quote_trim(seq!['"'] + s + seq!['"']) == s,
{
    let w = seq!['"'] + s + seq!['"'];
    assert(w[0] == '"');
    assert(w.drop_first() =~= s + seq!['"']);
    if s.len() == 0 {
        assert(w.drop_first() =~= seq!['"']);
        assert(spec_trim_start_ch(w, '"') == spec_trim_start_ch(seq!['"'], '"'));
        assert(seq!['"'][0] == '"');
        assert(seq!['"'].drop_first() =~= Seq::<char>::empty());
        assert(spec_trim_start_ch(seq!['"'], '"') == spec_trim_start_ch(
            Seq::<char>::empty(),
            '"',
        ));
        assert(spec_trim_start_ch(Seq::<char>::empty(), '"') == Seq::<char>::empty());
        assert(spec_quote_trim(w) =~= s);
    } else {
        assert(spec_trim_start_ch(w, '"') == spec_trim_start_ch(s + seq!['"'], '"'));
        assert((s + seq!['"'])[0] == s[0]);
        assert(spec_trim_start_ch(s + seq!['"'], '"') == s + seq!['"']);
        assert((s + seq!['"']).last() == '"');
        assert((s + seq!['"']).drop_last() =~= s);
        assert(spec_trim_end_ch(s + seq!['"'], '"') == spec_trim_end_ch(s, '"'));
        assert(spec_trim_end_ch(s, '"') == s);
    }
}

/// A sidecar metadata text reads back exactly the signature and original
/// path it was written with, for values that contain no newline and neither
/// start nor end with a quote.
pub proof fn lemma_meta_round_trip(signature: Seq<char>, original_path: Seq<char>)
    requires
        forall|j: int| 0 <= j < signature.len() ==> signature[j] != '\n',
        forall|j: int| 0 <= j < original_path.len() ==> original_path[j] != '\n',
        signature.len() > 0 ==> signature[0] != '"' && signature.last() != '"',
        original_path.len() > 0 ==> original_path[0] != '"' && original_path.last() != '"',
    ensures
        spec_parse_meta(spec_meta_content(signature, original_path)) == (
            signature,
            original_path,
        ),
{
    reveal_strlit("[Threat Info]\nsignature = \"");
    reveal_strlit("\"\noriginal_path = \"");
    reveal_strlit("\"");
    reveal_strlit("[Threat Info]");
    reveal_strlit("signature = \"");
    reveal_strlit("original_path = \"");
    reveal_strlit("signature = ");
    reveal_strlit("original_path = ");
    let meta = spec_meta_content(signature, original_path);
    let l0 = "[Threat Info]"@;
    let l1 = "signature = \""@ + signature + seq!['"'];
    let l2 = "original_path = \""@ + original_path + seq!['"'];
    assert(meta =~= l0 + seq!['\n'] + (l1 + seq!['\n'] + l2));
    assert forall|j: int| 0 <= j < l1.len() implies l1[j] != '\n' by {
        if j < 13 {
        } else if j < 13 + signature.len() {
            assert(l1[j] == signature[j - 13]);
        } else {
            assert(l1[j] == '"');
        }
    }
    assert forall|j: int| 0 <= j < l2.len() implies l2[j] != '\n' by {
        if j < 17 {
        } else if j < 17 + original_path.len() {
            assert(l2[j] == original_path[j - 17]);
        } else {
            assert(l2[j] == '"');
        }
    }
    lemma_lines_concat(l0, l1 + seq!['\n'] + l2);
    lemma_lines_concat(l1, l2);
    lemma_lines_single(l2);
    assert(strip_cr(l0) == l0);
    assert(l1.last() == '"');
    assert(strip_cr(l1) == l1);
    assert(l2.last() == '"');
    assert(strip_cr(l2) == l2);
    let lines = spec_lines(meta);
    assert(lines =~= seq![l0, l1, l2]);
    assert(lines.last() == l2);
    assert(lines.drop_last() =~= seq![l0, l1]);
    assert(seq![l0, l1].last() == l1);
    assert(seq![l0, l1].drop_last() =~= seq![l0]);
    assert(seq![l0].last() == l0);

    // The signature field: l2 does not carry it, l1 does.
    let sp = "signature = "@;
    assert(l2.take(sp.len() as int)[0] == 'o');
    assert(sp[0] == 's');
    assert(l2.take(sp.len() as int) != sp);
    assert(l1.take(sp.len() as int) =~= sp);
    assert(l1.skip(sp.len() as int) =~= seq!['"'] + signature + seq!['"']);
    lemma_quote_trim_wrapped(signature);
    assert(spec_meta_field(lines, sp) == spec_meta_field(seq![l0, l1], sp));
    assert(spec_meta_field(seq![l0, l1], sp) == spec_quote_trim(l1.skip(sp.len() as int)));
    assert(spec_meta_field(lines, sp) == signature);

    // The original-path field: l2 carries it.
    let pp = "original_path = "@;
    assert(l2.take(pp.len() as int) =~= pp);
    assert(l2.skip(pp.len() as int) =~= seq!['"'] + original_path + seq!['"']);
    lemma_quote_trim_wrapped(original_path);
    assert(spec_meta_field(lines, pp) == original_path);
}

/// Deleting a quarantined name twice is deleting it once: the second call
/// finds nothing and changes nothing.
pub proof fn lemma_delete_idempotent(m: Map<Seq<char>, Seq<u8>>, dir: Seq<char>, name: Seq<char>)
    ensures
        spec_delete(spec_delete(m, dir, name), dir, name) == spec_delete(m, dir, name),
{
    assert(spec_delete(spec_delete(m, dir, name), dir, name) =~= spec_delete(m, dir, name));
}

/// A quarantined name holds no path separator.
proof fn lemma_quarantine_name_no_slash(name: Seq<char>, original_path: Seq<char>)
    requires
        spec_is_quarantine_name(name, spec_file_name(original_path)),
    ensures
        forall|j: int| 0 <= j < name.len() ==> name[j] != '/',
{
    lemma_last_char_pos(original_path, '/');
    let fname = spec_file_name(original_path);
    assert forall|j: int| 0 <= j < name.len() implies name[j] != '/' by {
        if j < 36 {
            assert(name.take(36)[j] == name[j]);
            if j == 8 || j == 13 || j == 18 || j == 23 {
            } else {
                assert(spec_is_hex_char(name[j]));
            }
        } else if j == 36 {
        } else {
            assert(name.skip(37)[j - 37] == name[j]);
            assert(fname[j - 37] == original_path[last_char_pos(original_path, '/') + 1 + j - 37]);
        }
    }
}

/// Round trip: quarantining a file and then restoring its quarantined name
/// is the identity on the tree — the original bytes sit at the original path
/// again, byte for byte, and neither the data file nor the metadata file
/// remains. `name` is any name the quarantine step can report whose data and
/// metadata paths are fresh (what the random unique identifier is for), and
/// the signature and path must survive the metadata text: no newlines, and
/// no quote at either end.
pub proof fn lemma_quarantine_restore_round_trip(
    m: Map<Seq<char>, Seq<u8>>,
    original_path: Seq<char>,
    signature: Seq<char>,
    dir: Seq<char>,
    name: Seq<char>,
)
    requires
        m.contains_key(original_path),
        spec_file_name(original_path).len() > 0,
        spec_is_quarantine_name(name, spec_file_name(original_path)),
        !m.contains_key(spec_join(dir, name)),
        !m.contains_key(spec_meta_path(dir, name)),
        forall|j: int| 0 <= j < signature.len() ==> signature[j] != '\n',
        forall|j: int| 0 <= j < original_path.len() ==> original_path[j] != '\n',
        signature.len() > 0 ==> signature[0] != '"' && signature.last() != '"',
        original_path.len() > 0 ==> original_path[0] != '"' && original_path.last() != '"',
    ensures
        ({
            let m2 = spec_quarantine(m, original_path, signature, dir, name);
            &&& m2.contains_key(spec_join(dir, name))
            &&& m2.contains_key(spec_meta_path(dir, name))
            &&& valid_utf8(m2[spec_meta_path(dir, name)])
            &&& spec_recorded_path(m2, dir, name) == original_path
            &&& !m2.contains_key(spec_recorded_path(m2, dir, name))
            &&& spec_restore(m2, dir, name) == m
        }),
{
    reveal_strlit("/");
    reveal_strlit(".meta");
    let file = spec_join(dir, name);
    let meta = spec_meta_path(dir, name);
    let m2 = spec_quarantine(m, original_path, signature, dir, name);
    assert(meta.len() == file.len() + 5);
    lemma_quarantine_name_no_slash(name, original_path);

    // The quarantined data path is not the original path: its file name is
    // the whole quarantined name, which is longer than the original file
    // name it ends with.
    assert forall|j: int| dir.len() + 1 <= j < file.len() implies file[j] != '/' by {
        assert(file[j] == name[j - dir.len() - 1]);
    }
    assert(file[dir.len() as int] == '/');
    lemma_last_char_pos_is(file, '/', dir.len() as int);
    assert(spec_file_name(file) =~= name);
    if file == original_path {
        assert(spec_file_name(original_path).len() == name.len());
        assert(false);
    }

    // Nor is the metadata path.
    assert forall|j: int| dir.len() + 1 <= j < meta.len() implies meta[j] != '/' by {
        if j < file.len() {
            assert(meta[j] == name[j - dir.len() - 1]);
        } else {
            assert(meta[j] == ".meta"@[j - file.len()]);
        }
    }
    assert(meta[dir.len() as int] == '/');
    lemma_last_char_pos_is(meta, '/', dir.len() as int);
    if meta == original_path {
        assert(spec_file_name(original_path).len() == meta.len() - dir.len() - 1);
        assert(false);
    }

    let content = spec_meta_content(signature, original_path);
    assert(m2[meta] == encode_utf8(content));
    vstd::utf8::encode_utf8_valid_utf8(content);
    vstd::utf8::encode_utf8_decode_utf8(content);
    lemma_meta_round_trip(signature, original_path);
    assert(spec_recorded_path(m2, dir, name) == original_path);
    assert(m2[file] == m[original_path]);
    assert(spec_restore(m2, dir, name) =~= m);
}

} // verus!

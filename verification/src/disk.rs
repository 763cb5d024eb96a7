//! An in-memory model of the directory tree the engine works on.
//!
//! The engine's remediation logic is verified against this model: a flat map
//! from absolute path to file content, with the operations the quarantine
//! lifecycle needs (existence, read, write, remove, rename). The embedding
//! program mirrors each operation onto the real filesystem; the library's
//! contracts and the quarantine laws are stated over the model's view.

use vstd::prelude::*;
use crate::errors::AvError;
use crate::text::{path_starts_with, spec_path_starts_with, str_eq};

verus! {

/// The map described by an entry list; a later entry with the same path
/// shadows an earlier one (well-formed disks have no duplicates).
pub open spec fn map_of(entries: Seq<(Seq<char>, Seq<u8>)>) -> Map<Seq<char>, Seq<u8>>
    decreases entries.len(),
{
    if entries.len() == 0 {
        Map::empty()
    } else {
        map_of(entries.drop_last()).insert(entries.last().0, entries.last().1)
    }
}

/// A path is in the map exactly when some entry carries it.
proof fn lemma_map_of_contains(entries: Seq<(Seq<char>, Seq<u8>)>, path: Seq<char>)
    ensures
        map_of(entries).contains_key(path) <==> exists|i: int|
            0 <= i < entries.len() && entries[i].0 == path,
    decreases entries.len(),
{
    if entries.len() > 0 {
        lemma_map_of_contains(entries.drop_last(), path);
        if map_of(entries).contains_key(path) {
            if entries.last().0 == path {
                assert(entries[entries.len() - 1].0 == path);
            } else {
                let i = choose|i: int|
                    0 <= i < entries.drop_last().len() && entries.drop_last()[i].0 == path;
                assert(entries[i].0 == path);
            }
        }
        if exists|i: int| 0 <= i < entries.len() && entries[i].0 == path {
            let i = choose|i: int| 0 <= i < entries.len() && entries[i].0 == path;
            if i < entries.len() - 1 {
                assert(entries.drop_last()[i].0 == path);
            }
        }
    }
}

/// With no duplicate paths, the map's value at an entry's path is that
/// entry's content.
proof fn lemma_map_of_at(entries: Seq<(Seq<char>, Seq<u8>)>, i: int)
    requires
        0 <= i < entries.len(),
        forall|a: int, b: int| 0 <= a < b < entries.len() ==> entries[a].0 != entries[b].0,
    ensures
        map_of(entries).contains_key(entries[i].0),
        map_of(entries)[entries[i].0] == entries[i].1,
    decreases entries.len(),
{
    if i == entries.len() - 1 {
    } else {
        assert(entries[i].0 != entries.last().0);
        assert(entries.drop_last()[i] == entries[i]);
        lemma_map_of_at(entries.drop_last(), i);
    }
}

/// Updating the content at position `i` updates the map at that path.
proof fn lemma_map_of_update(entries: Seq<(Seq<char>, Seq<u8>)>, i: int, data: Seq<u8>)
    requires
        0 <= i < entries.len(),
        forall|a: int, b: int| 0 <= a < b < entries.len() ==> entries[a].0 != entries[b].0,
    ensures
        map_of(entries.update(i, (entries[i].0, data))) =~= map_of(entries).insert(
            entries[i].0,
            data,
        ),
    decreases entries.len(),
{
    let updated = entries.update(i, (entries[i].0, data));
    if i == entries.len() - 1 {
        assert(updated.drop_last() =~= entries.drop_last());
        assert(updated.last() == (entries[i].0, data));
    } else {
        assert(updated.drop_last() =~= entries.drop_last().update(i, (entries[i].0, data)));
        assert(entries.drop_last()[i] == entries[i]);
        lemma_map_of_update(entries.drop_last(), i, data);
        assert(entries[i].0 != entries.last().0);
        assert(updated.last() == entries.last());
    }
}

/// Removing the entry at position `i` removes its path from the map.
proof fn lemma_map_of_remove(entries: Seq<(Seq<char>, Seq<u8>)>, i: int)
    requires
        0 <= i < entries.len(),
        forall|a: int, b: int| 0 <= a < b < entries.len() ==> entries[a].0 != entries[b].0,
    ensures
        map_of(entries.remove(i)) =~= map_of(entries).remove(entries[i].0),
    decreases entries.len(),
{
    let removed = entries.remove(i);
    if i == entries.len() - 1 {
        assert(removed =~= entries.drop_last());
        lemma_map_of_contains(entries.drop_last(), entries[i].0);
        assert forall|k: Seq<char>| #[trigger] map_of(removed).contains_key(k) implies map_of(
            entries,
        ).remove(entries[i].0).contains_key(k) && map_of(removed)[k] == map_of(entries).remove(
            entries[i].0,
        )[k] by {
            lemma_map_of_contains(entries.drop_last(), k);
        }
    } else {
        assert(removed.drop_last() =~= entries.drop_last().remove(i));
        assert(removed.last() == entries.last());
        assert(entries.drop_last()[i] == entries[i]);
        lemma_map_of_remove(entries.drop_last(), i);
        assert(entries[i].0 != entries.last().0);
    }
}

/// An in-memory directory tree: a flat list of `(path, content)` files with
/// no duplicate paths, viewed as a map from path to content.
pub struct Disk {
    entries: Vec<(String, Vec<u8>)>,
}

impl View for Disk {
    type V = Map<Seq<char>, Seq<u8>>;

    open spec fn view(&self) -> Map<Seq<char>, Seq<u8>> {
        map_of(self.spec_entries())
    }
}

/// Copies a byte vector.
fn clone_bytes(data: &Vec<u8>) -> (r: Vec<u8>)
    ensures
        r@ == data@,
{
    let mut out: Vec<u8> = Vec::new();
    let n = data.len();
    let mut i: usize = 0;
    while i < n
        invariant
            i <= n,
            n == data@.len(),
            out@ =~= data@.take(i as int),
        decreases n - i,
    {
        out.push(data[i]);
        i = i + 1;
    }
    proof {
        assert(data@.take(n as int) =~= data@);
    }
    out
}

impl Disk {
    /// The stored files, in storage order.
    pub closed spec fn spec_entries(&self) -> Seq<(Seq<char>, Seq<u8>)> {
        self.entries.deep_view()
    }

    /// No two entries share a path.
    pub open spec fn wf(&self) -> bool {
        forall|a: int, b: int|
            0 <= a < b < self.spec_entries().len() ==> self.spec_entries()[a].0
                != self.spec_entries()[b].0
    }

    /// An empty tree.
    pub fn new() -> (d: Disk)
        ensures
            d@ == Map::<Seq<char>, Seq<u8>>::empty(),
            d.wf(),
            d.spec_entries().len() == 0,
    {
        let d = Disk { entries: Vec::new() };
        proof {
            assert(d.spec_entries().len() == 0);
        }
        d
    }

    /// The number of stored files.
    pub fn entry_count(&self) -> (n: usize)
        ensures
            n == self.spec_entries().len(),
    {
        self.entries.len()
    }

    /// The path and content of the file at position `i`.
    pub fn entry_at(&self, i: usize) -> (r: (String, Vec<u8>))
        requires
            i < self.spec_entries().len(),
        ensures
            r.0@ == self.spec_entries()[i as int].0,
            r.1@ == self.spec_entries()[i as int].1,
    {
        proof {
            assert(self.spec_entries()[i as int] == self.entries@[i as int].deep_view());
        }
        (self.entries[i].0.clone(), clone_bytes(&self.entries[i].1))
    }

    /// The position of the entry at `path`, if one is there.
    fn find_index(&self, path: &str) -> (r: Option<usize>)
        ensures
            match r {
                Some(i) => i < self.spec_entries().len() && self.spec_entries()[i as int].0
                    == path@,
                None => forall|j: int|
                    0 <= j < self.spec_entries().len() ==> self.spec_entries()[j].0 != path@,
            },
    {
        let n = self.entries.len();
        let mut i: usize = 0;
        while i < n
            invariant
                i <= n,
                n == self.entries@.len(),
                forall|j: int| 0 <= j < i ==> self.spec_entries()[j].0 != path@,
            decreases n - i,
        {
            proof {
                assert(self.spec_entries()[i as int] == self.entries@[i as int].deep_view());
            }
            if str_eq(self.entries[i].0.as_str(), path) {
                return Some(i);
            }
            i = i + 1;
        }
        None
    }

    /// Is a file stored at `path`?
    pub fn contains(&self, path: &str) -> (r: bool)
        ensures
            r == self@.contains_key(path@),
    {
        proof {
            lemma_map_of_contains(self.spec_entries(), path@);
        }
        match self.find_index(path) {
            Some(_) => true,
            None => false,
        }
    }

    /// The content stored at `path`, if a file is there.
    pub fn read(&self, path: &str) -> (r: Option<Vec<u8>>)
        requires
            self.wf(),
        ensures
            match r {
                Some(data) => self@.contains_key(path@) && data@ == self@[path@],
                None => !self@.contains_key(path@),
            },
    {
        proof {
            lemma_map_of_contains(self.spec_entries(), path@);
        }
        match self.find_index(path) {
            Some(i) => {
                proof {
                    lemma_map_of_at(self.spec_entries(), i as int);
                    assert(self.spec_entries()[i as int] == self.entries@[i as int].deep_view());
                }
                Some(clone_bytes(&self.entries[i].1))
            },
            None => None,
        }
    }

    /// Stores `data` at `path`, replacing any file already there.
    pub fn write(&mut self, path: &str, data: Vec<u8>)
        requires
            old(self).wf(),
        ensures
            final(self)@ == old(self)@.insert(path@, data@),
            final(self).wf(),
            old(self).spec_entries().len() <= final(self).spec_entries().len() <= old(
                self,
            ).spec_entries().len() + 1,
    {
        let ghost pre = old(self).spec_entries();
        let ghost dview = data@;
        match self.find_index(path) {
            Some(i) => {
                proof {
                    lemma_map_of_update(pre, i as int, dview);
                }
                self.entries[i].1 = data;
                proof {
                    assert forall|j: int| 0 <= j < self.entries@.len() implies self.spec_entries()[j]
                        == pre.update(i as int, (pre[i as int].0, dview))[j] by {
                        assert(self.spec_entries()[j] == self.entries@[j].deep_view());
                        if j != i {
                            assert(self.entries@[j] == old(self).entries@[j]);
                            assert(pre[j] == old(self).entries@[j].deep_view());
                        } else {
                            assert(pre[j] == old(self).entries@[j].deep_view());
                            assert(self.entries@[j].0 == old(self).entries@[j].0);
                            assert(self.entries@[j].1@ == dview);
                        }
                    }
                    assert(self.spec_entries() =~= pre.update(i as int, (pre[i as int].0, dview)));
                    assert(self@ =~= old(self)@.insert(path@, dview));
                }
            },
            None => {
                let owned = path.to_owned();
                let ghost pview = path@;
                self.entries.push((owned, data));
                proof {
                    assert forall|j: int| 0 <= j < self.entries@.len() implies self.spec_entries()[j]
                        == pre.push((pview, dview))[j] by {
                        assert(self.spec_entries()[j] == self.entries@[j].deep_view());
                        if j < pre.len() {
                            assert(self.entries@[j] == old(self).entries@[j]);
                            assert(pre[j] == old(self).entries@[j].deep_view());
                        }
                    }
                    assert(self.spec_entries() =~= pre.push((pview, dview)));
                    assert(self.spec_entries().drop_last() =~= pre);
                    assert(self@ =~= old(self)@.insert(path@, dview));
                }
            },
        }
    }

    /// Removes the file at `path`, if one is there; absence is not an error.
    pub fn remove(&mut self, path: &str)
        requires
            old(self).wf(),
        ensures
            final(self)@ == old(self)@.remove(path@),
            final(self).wf(),
            final(self).spec_entries().len() <= old(self).spec_entries().len(),
            old(self)@.contains_key(path@) ==> final(self).spec_entries().len() == old(
                self,
            ).spec_entries().len() - 1,
            !old(self)@.contains_key(path@) ==> *final(self) == *old(self),
    {
        let ghost pre = old(self).spec_entries();
        match self.find_index(path) {
            Some(i) => {
                proof {
                    lemma_map_of_remove(pre, i as int);
                    lemma_map_of_contains(pre, path@);
                }
                self.entries.remove(i);
                proof {
                    assert forall|j: int| 0 <= j < self.entries@.len() implies self.spec_entries()[j]
                        == pre.remove(i as int)[j] by {
                        assert(self.spec_entries()[j] == self.entries@[j].deep_view());
                        if j < i {
                            assert(self.entries@[j] == old(self).entries@[j]);
                            assert(pre[j] == old(self).entries@[j].deep_view());
                        } else {
                            assert(self.entries@[j] == old(self).entries@[j + 1]);
                            assert(pre[j + 1] == old(self).entries@[j + 1].deep_view());
                        }
                    }
                    assert(self.spec_entries() =~= pre.remove(i as int));
                }
            },
            None => {
                proof {
                    lemma_map_of_contains(pre, path@);
                    assert(self@ =~= old(self)@.remove(path@));
                }
            },
        }
    }

    /// Moves the file at `from` to `to`, replacing any file already at `to`;
    /// a missing source is an error and changes nothing.
    pub fn rename(&mut self, from: &str, to: &str) -> (r: Result<(), AvError>)
        requires
            old(self).wf(),
        ensures
            final(self).wf(),
            final(self).spec_entries().len() <= old(self).spec_entries().len(),
            match r {
                Ok(_) => old(self)@.contains_key(from@) && final(self)@ == old(self)@.remove(
                    from@,
                ).insert(to@, old(self)@[from@]),
                Err(e) => !old(self)@.contains_key(from@) && *final(self) == *old(self)
                    && e is Io,
            },
    {
        let data = match self.read(from) {
            Some(data) => data,
            None => {
                return Err(AvError::Io("rename: no file at the source path".to_owned()));
            },
        };
        self.remove(from);
        self.write(to, data);
        Ok(())
    }
}

} // verus!

verus! {

/// The stored files at or under `root`, in storage order.
pub open spec fn spec_walk(entries: Seq<(Seq<char>, Seq<u8>)>, root: Seq<char>) -> Seq<Seq<char>>
    decreases entries.len(),
{
    if entries.len() == 0 {
        Seq::empty()
    } else {
        spec_walk(entries.drop_last(), root) + (if spec_path_starts_with(
            entries.last().0,
            root,
        ) {
            seq![entries.last().0]
        } else {
            Seq::empty()
        })
    }
}

/// Does any file lie strictly under `path` (so `path` names a directory)?
pub open spec fn spec_dir_exists(entries: Seq<(Seq<char>, Seq<u8>)>, path: Seq<char>) -> bool {
    exists|i: int|
        0 <= i < entries.len() && spec_path_starts_with(#[trigger] entries[i].0, path)
            && entries[i].0 != path
}

impl Disk {
    /// Lists the paths of the files at or under `root`, in storage order.
    pub fn walk_files(&self, root: &str) -> (r: Vec<String>)
        ensures
            r.deep_view() == spec_walk(self.spec_entries(), root@),
    {
        let mut out: Vec<String> = Vec::new();
        let n = self.entries.len();
        let mut i: usize = 0;
        proof {
            assert(self.spec_entries().take(0) =~= Seq::<(Seq<char>, Seq<u8>)>::empty());
        }
        while i < n
            invariant
                i <= n,
                n == self.spec_entries().len(),
                out.deep_view() == spec_walk(self.spec_entries().take(i as int), root@),
            decreases n - i,
        {
            proof {
                assert(self.spec_entries()[i as int] == self.entries@[i as int].deep_view());
                assert(self.spec_entries().take(i + 1).drop_last() =~= self.spec_entries().take(
                    i as int,
                ));
                assert(self.spec_entries().take(i + 1).last() == self.spec_entries()[i as int]);
            }
            if path_starts_with(self.entries[i].0.as_str(), root) {
                out.push(self.entries[i].0.clone());
            }
            i = i + 1;
            proof {
                assert(out.deep_view() =~= spec_walk(
                    self.spec_entries().take(i as int),
                    root@,
                ));
            }
        }
        proof {
            assert(self.spec_entries().take(n as int) =~= self.spec_entries());
        }
        out
    }

    /// Does any file lie strictly under `path`?
    pub fn dir_exists(&self, path: &str) -> (r: bool)
        ensures
            r == spec_dir_exists(self.spec_entries(), path@),
    {
        let n = self.entries.len();
        let mut i: usize = 0;
        while i < n
            invariant
                i <= n,
                n == self.spec_entries().len(),
                forall|j: int|
                    0 <= j < i ==> !(spec_path_starts_with(
                        #[trigger] self.spec_entries()[j].0,
                        path@,
                    ) && self.spec_entries()[j].0 != path@),
            decreases n - i,
        {
            proof {
                assert(self.spec_entries()[i as int] == self.entries@[i as int].deep_view());
            }
            if path_starts_with(self.entries[i].0.as_str(), path) && !str_eq(
                self.entries[i].0.as_str(),
                path,
            ) {
                proof {
                    assert(spec_path_starts_with(self.spec_entries()[i as int].0, path@)
                        && self.spec_entries()[i as int].0 != path@);
                }
                return true;
            }
            i = i + 1;
        }
        false
    }
}

} // verus!

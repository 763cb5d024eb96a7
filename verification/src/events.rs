//! The high-level event set of the real-time file watcher.

use vstd::prelude::*;

verus! {

/// A high-level filesystem event on the watched tree.
#[derive(Debug, Clone)]
pub enum FsEvent {
    Create(String),
    Modify(String),
    Remove(String),
    Rename(String, String),
}

impl FsEvent {
    /// The engine scans on creations and modifications only.
    pub fn triggers_scan(&self) -> (r: bool)
        ensures
            r == (self is Create || self is Modify),
    {
        match self {
            FsEvent::Create(_) => true,
            FsEvent::Modify(_) => true,
            FsEvent::Remove(_) => false,
            FsEvent::Rename(_, _) => false,
        }
    }
}

} // verus!

//! The file events delivered by the native file-event source, and which of
//! them the engine acts on.

use vstd::prelude::*;

verus! {

/// A change observed on the watched directory.
#[derive(Debug, Copy, Clone, PartialEq, Eq, Structural)]
pub enum FileEventType {
    Created,
    Modified,
    Deleted,
}

impl FileEventType {
    /// The engine scans on creations and modifications only.
    pub fn triggers_scan(&self) -> (r: bool)
        ensures
            r == (self is Created || self is Modified),
    {
        match self {
            FileEventType::Created => true,
            FileEventType::Modified => true,
            FileEventType::Deleted => false,
        }
    }
}

} // verus!

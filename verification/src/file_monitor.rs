//! The event alphabet of the low-level directory monitor and the decisions
//! the engine takes on it. The monitor itself (a native change-notification
//! bridge) lives in the embedding program and hands events in as codes.

use vstd::prelude::*;

verus! {

/// A change reported by the low-level directory monitor.
#[derive(Debug, Copy, Clone, PartialEq, Eq, Structural)]
pub enum FileEventType {
    FileAdded,
    FileRemoved,
    FileModified,
    FileRenamedOldName,
    FileRenamedNewName,
}

impl FileEventType {
    /// The wire code of this event in the monitor's protocol.
    pub open spec fn spec_code(&self) -> i32 {
        match self {
            FileEventType::FileAdded => 0,
            FileEventType::FileRemoved => 1,
            FileEventType::FileModified => 2,
            FileEventType::FileRenamedOldName => 3,
            FileEventType::FileRenamedNewName => 4,
        }
    }

    /// The wire code of this event.
    pub fn code(&self) -> (r: i32)
        ensures
            r == self.spec_code(),
    {
        match self {
            FileEventType::FileAdded => 0,
            FileEventType::FileRemoved => 1,
            FileEventType::FileModified => 2,
            FileEventType::FileRenamedOldName => 3,
            FileEventType::FileRenamedNewName => 4,
        }
    }

    /// Decodes a wire code; codes 0 to 4 decode to the event with that code,
    /// anything else is rejected.
    pub fn from_code(value: i32) -> (r: Result<FileEventType, ()>)
        ensures
            match r {
                Ok(e) => e.spec_code() == value,
                Err(_) => value < 0 || value > 4,
            },
    {
        match value {
            0 => Ok(FileEventType::FileAdded),
            1 => Ok(FileEventType::FileRemoved),
            2 => Ok(FileEventType::FileModified),
            3 => Ok(FileEventType::FileRenamedOldName),
            4 => Ok(FileEventType::FileRenamedNewName),
            _ => Err(()),
        }
    }

    /// The engine acts on additions and modifications only; removals and
    /// both halves of a rename are noted but trigger no scan.
    pub fn triggers_scan(&self) -> (r: bool)
        ensures
            r == (self is FileAdded || self is FileModified),
    {
        match self {
            FileEventType::FileAdded => true,
            FileEventType::FileModified => true,
            FileEventType::FileRenamedNewName => false,
            FileEventType::FileRemoved => false,
            FileEventType::FileRenamedOldName => false,
        }
    }
}

} // verus!

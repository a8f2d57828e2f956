//! The records that travel as payloads and metadata of calls.
use vstd::prelude::*;

verus! {

/// The number of nanoseconds in a second.
pub const NANOS_PER_SEC: u32 = 1_000_000_000;

/// A point in time: whole seconds since the Unix epoch, and the
/// nanoseconds past that second.
#[derive(Debug, Clone, Copy, PartialEq, Eq)]
pub struct Timestamp {
    secs: u64,
    nanos: u32,
}

impl Timestamp {
    pub closed spec fn spec_secs(self) -> u64 {
        self.secs
    }

    pub closed spec fn spec_nanos(self) -> u32 {
        self.nanos
    }

    /// The nanoseconds part never reaches a whole second.
    pub open spec fn wf(self) -> bool {
        self.spec_nanos() < NANOS_PER_SEC
    }

    /// The timestamp of these parts; `None` when `nanos` is a whole second or more.
    pub fn new(secs: u64, nanos: u32) -> (r: Option<Timestamp>)
        ensures
            nanos < NANOS_PER_SEC <==> r is Some,
            r matches Some(t) ==> t.wf() && t.spec_secs() == secs && t.spec_nanos() == nanos,
    {
        if nanos < NANOS_PER_SEC {
            Some(Timestamp { secs, nanos })
        } else {
            None
        }
    }

    #[verifier::when_used_as_spec(spec_secs)]
    pub fn secs(self) -> (r: u64)
        ensures
            r == self.spec_secs(),
    {
        self.secs
    }

    #[verifier::when_used_as_spec(spec_nanos)]
    pub fn nanos(self) -> (r: u32)
        ensures
            r == self.spec_nanos(),
    {
        self.nanos
    }
}

/// The context sent with every request: who sent it, when it was made,
/// and the unique id of this call instance (a UUID, as its 128 bits).
#[derive(Debug, Clone, PartialEq, Eq)]
pub struct Metadata {
    pub source: String,
    pub created_time: Timestamp,
    pub id: u128,
}

/// A file, by its path under a mount.
#[derive(Debug, Clone, PartialEq, Eq)]
pub struct FileOnMountPath {
    pub path: String,
    pub mount_id: String,
}

#[derive(Debug, Clone, PartialEq, Eq)]
pub struct FileCreated {
    pub path: FileOnMountPath,
}

#[derive(Debug, Clone, PartialEq, Eq)]
pub struct FileMoved {
    pub from: FileOnMountPath,
    pub to: FileOnMountPath,
}

#[derive(Debug, Clone, PartialEq, Eq)]
pub struct FileDeleted {
    pub path: FileOnMountPath,
}

#[derive(Debug, Clone, PartialEq, Eq)]
pub struct FileChanged {
    pub path: FileOnMountPath,
}

/// The payload of an event message, one variant per kind of change.
#[derive(Debug, Clone, PartialEq, Eq)]
pub enum MessagePayload {
    FileMoved(FileMoved),
    FileChanged(FileChanged),
    FileCreated(FileCreated),
    FileDeleted(FileDeleted),
}

impl MessagePayload {
    /// The type tag under which a message of this variant is stored.
    pub open spec fn spec_type_tag(&self) -> Seq<char> {
        match self {
            MessagePayload::FileMoved(_) => "FileMoved"@,
            MessagePayload::FileChanged(_) => "FileChanged"@,
            MessagePayload::FileCreated(_) => "FileCreated"@,
            MessagePayload::FileDeleted(_) => "FileDeleted"@,
        }
    }

    pub fn type_tag(&self) -> (r: &'static str)
        ensures
            r@ == self.spec_type_tag(),
    {
        match self {
            MessagePayload::FileMoved(_) => "FileMoved",
            MessagePayload::FileChanged(_) => "FileChanged",
            MessagePayload::FileCreated(_) => "FileCreated",
            MessagePayload::FileDeleted(_) => "FileDeleted",
        }
    }
}

/// A message as the persistence side receives it.
#[derive(Debug, Clone, PartialEq, Eq)]
pub struct Message {
    pub metadata: Metadata,
    pub payload: MessagePayload,
}

} // verus!

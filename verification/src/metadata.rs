//! What a listing reports about objects and directories.

use crate::time::Timestamp;
use vstd::prelude::*;

verus! {

/// Whether an entry is an object or a common prefix ("directory").
#[derive(Clone, Copy, Debug, PartialEq, Eq, Structural)]
pub enum ObjectKind {
    File,
    Directory,
}

/// One entry of a listing.
#[derive(Debug)]
pub struct ObjectMetadata {
    pub key: String,
    pub size: u64,
    pub last_modified: Timestamp,
    pub kind: ObjectKind,
    pub etag: Option<String>,
}

impl ObjectMetadata {
    /// The entry of an object.
    pub fn file(key: String, size: u64, last_modified: Timestamp, etag: Option<String>) -> (m:
        ObjectMetadata)
        ensures
            m == (ObjectMetadata { key, size, last_modified, kind: ObjectKind::File, etag }),
    {
        ObjectMetadata { key, size, last_modified, kind: ObjectKind::File, etag }
    }

    /// The entry that stands for a common prefix: no size, no entity tag, and
    /// the epoch as its modification time.
    pub fn directory(key: String) -> (m: ObjectMetadata)
        ensures
            m == directory_entry(key),
    {
        ObjectMetadata {
            key,
            size: 0,
            last_modified: Timestamp::epoch(),
            kind: ObjectKind::Directory,
            etag: None,
        }
    }
}

/// The entry that stands for the common prefix `key`.
pub open spec fn directory_entry(key: String) -> ObjectMetadata {
    ObjectMetadata {
        key,
        size: 0,
        last_modified: Timestamp { secs: 0, nanos: 0 },
        kind: ObjectKind::Directory,
        etag: None,
    }
}

/// What one delimiter-based listing of a single prefix returned: the objects
/// directly under it, and the prefixes one level below it.
#[derive(Debug)]
pub struct DirectoryListing {
    pub objects: Vec<ObjectMetadata>,
    pub common_prefixes: Vec<String>,
}

/// The outcome of a recursive listing.
#[derive(Debug)]
pub struct ListResult {
    pub objects: Vec<ObjectMetadata>,
    pub directories: Vec<ObjectMetadata>,
}

} // verus!

//! Files and folders: the records of the file profile.

pub mod copy_move;

use crate::hierarchy::DavResource;
use crate::schema::DeadProperty;
use crate::token::AclGrant;
use vstd::prelude::*;

verus! {

/// The payload of a file.
#[derive(Debug)]
pub struct FileProperties {
    pub blob_hash: Vec<u8>,
    pub size: u32,
    pub media_type: Option<String>,
    pub executable: bool,
}

/// A node of the file tree: a folder when `file` is absent, a file when it
/// is present.
#[derive(Debug)]
pub struct FileNode {
    /// 0 at the root; else the document id of the enclosing folder, plus one.
    pub parent_id: u32,
    pub name: String,
    pub display_name: Option<String>,
    pub file: Option<FileProperties>,
    pub created: i64,
    pub modified: i64,
    pub dead_properties: DeadProperty,
    pub acls: Vec<AclGrant>,
}

impl FileNode {
    /// The same record but for its name, compared as text.
    pub open spec fn same_but_name(&self, other: &FileNode) -> bool {
        &&& self.parent_id == other.parent_id
        &&& self.display_name == other.display_name
        &&& self.file == other.file
        &&& self.created == other.created
        &&& self.modified == other.modified
        &&& self.dead_properties == other.dead_properties
        &&& self.acls == other.acls
    }

    /// The same record, names compared as text.
    pub open spec fn same_record(&self, other: &FileNode) -> bool {
        self.same_but_name(other) && self.name@ == other.name@
    }
}

/// What the hierarchy knows of the node that a request names.
#[derive(Debug, Clone, Copy, PartialEq, Eq, Structural)]
pub struct FileItemId {
    pub document_id: u32,
    pub parent_id: Option<u32>,
    pub is_container: bool,
}

impl FileItemId {
    /// What the hierarchy knows of an entry.
    pub fn from_dav_resource(item: &DavResource) -> (r: FileItemId)
        ensures
            r.document_id == item.document_id,
            r.parent_id == item.parent_id,
            r.is_container == item.is_container,
    {
        FileItemId {
            document_id: item.document_id,
            parent_id: item.parent_id,
            is_container: item.is_container,
        }
    }
}

/// The encoding of a parent in a record: 0 for the root, else the parent's
/// document id plus one.
pub open spec fn spec_encode_parent(parent: Option<u32>) -> int {
    match parent {
        Some(id) => id + 1,
        None => 0,
    }
}

/// The encoding of a parent in a record.
pub fn encode_parent(parent: Option<u32>) -> (r: u32)
    requires
        parent != Some(u32::MAX),
    ensures
        r == spec_encode_parent(parent),
{
    match parent {
        Some(id) => id + 1,
        None => 0,
    }
}

} // verus!

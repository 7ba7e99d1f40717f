//! COPY and MOVE on the file tree: rename, overwrite, and the copy or move
//! of an item or of a whole folder, within an account or across two.

use crate::common::uri::{OwnedUri, UnresolvedUri, UriResource};
use crate::file::{encode_parent, spec_encode_parent, FileItemId, FileNode};
use crate::hierarchy::{last_segment, parent_path, split_parent, DavResource, DavResources};
use crate::schema::{BaseCondition, Condition, Depth};
use crate::status;
use crate::token::{holds, spec_holds, AccessToken, Acl, Collection};
use crate::vecs::{reversed, sort, sorted, Keyed};
use crate::{DavError, DavErrorCondition};
use std::collections::HashMap;
use vstd::prelude::*;

verus! {

broadcast use vstd::std_specs::hash::group_hash_axioms;

/// Where a copy or a move goes: the folder that receives the node, and the
/// name that the node gets there.
#[derive(Debug)]
pub struct Destination {
    pub account_id: u32,
    pub new_name: Option<String>,
    pub document_id: Option<u32>,
    pub parent_id: Option<u32>,
    pub is_container: bool,
}

impl Default for Destination {
    /// The root of an account: a folder without a document of its own.
    fn default() -> (r: Self)
        ensures
            r.account_id == 0,
            r.new_name.is_none(),
            r.document_id.is_none(),
            r.parent_id.is_none(),
            r.is_container,
    {
        Destination {
            account_id: 0,
            new_name: None,
            document_id: None,
            parent_id: None,
            is_container: true,
        }
    }
}

impl Destination {
    /// The place of an entry of a hierarchy, its account left open.
    pub fn from_dav_resource(item: &DavResource) -> (r: Destination)
        ensures
            r.account_id == u32::MAX,
            r.document_id == Some(item.document_id),
            r.parent_id == item.parent_id,
            r.is_container == item.is_container,
            r.new_name.is_none(),
    {
        Destination {
            account_id: u32::MAX,
            document_id: Some(item.document_id),
            parent_id: item.parent_id,
            is_container: item.is_container,
            new_name: None,
        }
    }
}

/// One write of a batch.
#[derive(Debug)]
pub enum WriteOp {
    /// Creates the document with this record.
    Insert { account_id: u32, document_id: u32, node: FileNode },
    /// Replaces the record of the document.
    Update { account_id: u32, document_id: u32, node: FileNode },
    /// Removes the document.
    Delete { account_id: u32, document_id: u32 },
}

/// What a copy or a move answers with and what it writes: the documents of
/// the destination account to destroy first, then the batch, all of it
/// committed together or not at all.
#[derive(Debug)]
pub struct CopyMoveResult {
    pub status: u16,
    pub destroy: Vec<u32>,
    pub ops: Vec<WriteOp>,
}

/// A record as it was read for a document: `None` where the store has none.
#[derive(Debug)]
pub struct FetchedNode {
    pub document_id: u32,
    pub node: Option<FileNode>,
}

/// `node` under the name `new_name`, if one is given.
pub open spec fn spec_renamed(node: FileNode, new_name: Option<String>) -> FileNode {
    match new_name {
        Some(name) => FileNode { name: name, ..node },
        None => node,
    }
}

/// `node` under the parent `parent_id` and the name `new_name`, if one is
/// given.
pub open spec fn spec_placed(node: FileNode, parent_id: u32, new_name: Option<String>) -> FileNode {
    FileNode { parent_id: parent_id, ..spec_renamed(node, new_name) }
}

/// `source` written over `dest`: it takes the place of `dest` in the tree,
/// and its name unless a new one is given.
pub open spec fn spec_overwritten(source: FileNode, dest: FileNode, new_name: Option<String>) -> FileNode {
    match new_name {
        Some(name) => FileNode { name: name, parent_id: dest.parent_id, ..source },
        None => FileNode { name: dest.name, parent_id: dest.parent_id, ..source },
    }
}

fn renamed(node: FileNode, new_name: Option<String>) -> (r: FileNode)
    ensures
        r == spec_renamed(node, new_name),
{
    match new_name {
        Some(name) => {
            let mut node = node;
            node.name = name;
            node
        },
        None => node,
    }
}

fn placed(node: FileNode, parent_id: u32, new_name: Option<String>) -> (r: FileNode)
    ensures
        r == spec_placed(node, parent_id, new_name),
{
    let mut node = renamed(node, new_name);
    node.parent_id = parent_id;
    node
}

/// What a result says: the status, the documents to destroy and the batch.
pub struct Outcome {
    pub status: u16,
    pub destroy: Seq<u32>,
    pub ops: Seq<WriteOp>,
}

/// What an operation answers, as plain values.
pub type Planned = Result<Outcome, DavError>;

impl View for CopyMoveResult {
    type V = Outcome;

    open spec fn view(&self) -> Outcome {
        Outcome { status: self.status, destroy: self.destroy@, ops: self.ops@ }
    }
}

/// What the result of an operation says.
pub open spec fn outcome_of(r: Result<CopyMoveResult, DavError>) -> Planned {
    match r {
        Ok(result) => Ok(result@),
        Err(e) => Err(e),
    }
}

/// The answer `status` with the batch `ops` and nothing to destroy.
pub open spec fn spec_answer(status: u16, ops: Seq<WriteOp>) -> Planned {
    Ok(Outcome { status: status, destroy: Seq::empty(), ops: ops })
}

/// The record that an operation needs is not in the store.
pub open spec fn spec_missing() -> Planned {
    Err(DavError::Code(status::NOT_FOUND))
}

fn answer(status: u16, ops: Vec<WriteOp>) -> (r: Result<CopyMoveResult, DavError>)
    ensures
        outcome_of(r) == spec_answer(status, ops@),
{
    let destroy: Vec<u32> = Vec::new();
    assert(destroy@ =~= Seq::<u32>::empty());
    Ok(CopyMoveResult { status, destroy, ops })
}

/// The batch of a rename: one update of the record, under the new name if
/// one is given.
pub open spec fn spec_rename_item_ops(
    from_resource: &UriResource<u32, FileItemId>,
    node: FileNode,
    destination: Destination,
) -> Seq<WriteOp> {
    seq![
        WriteOp::Update {
            account_id: from_resource.account_id,
            document_id: from_resource.resource.document_id,
            node: spec_renamed(node, destination.new_name),
        },
    ]
}

/// The batch of the copy of an item: one insert at `to_document_id` of the
/// source record, its parent set to the destination folder and its name to
/// the new name, if one is given.
pub open spec fn spec_copy_item_ops(
    node: FileNode,
    destination: Destination,
    to_document_id: u32,
) -> Seq<WriteOp> {
    seq![
        WriteOp::Insert {
            account_id: destination.account_id,
            document_id: to_document_id,
            node: spec_placed(
                node,
                spec_encode_parent(destination.document_id) as u32,
                destination.new_name,
            ),
        },
    ]
}

/// What a rename answers: 201 with its batch, or 404 where the record is
/// missing.
pub open spec fn spec_rename_item(
    from_resource: &UriResource<u32, FileItemId>,
    node: Option<FileNode>,
    destination: Destination,
) -> Planned {
    match node {
        Some(node) => spec_answer(
            status::CREATED,
            spec_rename_item_ops(from_resource, node, destination),
        ),
        None => spec_missing(),
    }
}

/// What the copy of an item answers: 201 with its batch, or 404 where the
/// record is missing.
pub open spec fn spec_copy_item(
    node: Option<FileNode>,
    destination: Destination,
    to_document_id: u32,
) -> Planned {
    match node {
        Some(node) => spec_answer(
            status::CREATED,
            spec_copy_item_ops(node, destination, to_document_id),
        ),
        None => spec_missing(),
    }
}

/// Renames a node in place. The document keeps its id and its parent.
pub fn rename_item(
    from_resource: &UriResource<u32, FileItemId>,
    node: Option<FileNode>,
    destination: Destination,
) -> (r: Result<CopyMoveResult, DavError>)
    ensures
        outcome_of(r) == spec_rename_item(from_resource, node, destination),
{
    let node = match node {
        Some(node) => node,
        None => {
            return Err(DavError::Code(status::NOT_FOUND));
        },
    };
    let mut ops: Vec<WriteOp> = Vec::new();
    ops.push(
        WriteOp::Update {
            account_id: from_resource.account_id,
            document_id: from_resource.resource.document_id,
            node: renamed(node, destination.new_name),
        },
    );
    answer(status::CREATED, ops)
}

/// Copies an item under the destination folder, to the document id
/// `to_document_id`.
pub fn copy_item(
    from_resource: &UriResource<u32, FileItemId>,
    node: Option<FileNode>,
    destination: Destination,
    to_document_id: u32,
) -> (r: Result<CopyMoveResult, DavError>)
    requires
        destination.document_id != Some(u32::MAX),
    ensures
        outcome_of(r) == spec_copy_item(node, destination, to_document_id),
{
    let node = match node {
        Some(node) => node,
        None => {
            return Err(DavError::Code(status::NOT_FOUND));
        },
    };
    let parent_id = encode_parent(destination.document_id);
    let mut ops: Vec<WriteOp> = Vec::new();
    ops.push(
        WriteOp::Insert {
            account_id: destination.account_id,
            document_id: to_document_id,
            node: placed(node, parent_id, destination.new_name),
        },
    );
    answer(status::CREATED, ops)
}

/// The batch of the move of an item: within an account one update of its
/// record; across accounts an insert at the destination and the removal of
/// the source.
pub open spec fn spec_move_item_ops(
    from_resource: &UriResource<u32, FileItemId>,
    node: FileNode,
    destination: Destination,
    to_document_id: u32,
) -> Seq<WriteOp> {
    let moved = spec_placed(
        node,
        spec_encode_parent(destination.document_id) as u32,
        destination.new_name,
    );
    if from_resource.account_id == destination.account_id {
        seq![
            WriteOp::Update {
                account_id: from_resource.account_id,
                document_id: from_resource.resource.document_id,
                node: moved,
            },
        ]
    } else {
        seq![
            WriteOp::Insert {
                account_id: destination.account_id,
                document_id: to_document_id,
                node: moved,
            },
            WriteOp::Delete {
                account_id: from_resource.account_id,
                document_id: from_resource.resource.document_id,
            },
        ]
    }
}

/// What the move of an item answers: 201 with its batch, or 404 where the
/// record is missing.
pub open spec fn spec_move_item(
    from_resource: &UriResource<u32, FileItemId>,
    node: Option<FileNode>,
    destination: Destination,
    to_document_id: u32,
) -> Planned {
    match node {
        Some(node) => spec_answer(
            status::CREATED,
            spec_move_item_ops(from_resource, node, destination, to_document_id),
        ),
        None => spec_missing(),
    }
}

/// Moves an item under the destination folder.
pub fn move_item(
    from_resource: &UriResource<u32, FileItemId>,
    node: Option<FileNode>,
    destination: Destination,
    to_document_id: u32,
) -> (r: Result<CopyMoveResult, DavError>)
    requires
        destination.document_id != Some(u32::MAX),
    ensures
        outcome_of(r) == spec_move_item(from_resource, node, destination, to_document_id),
{
    let ghost given = node;
    let ghost target = destination;
    let node = match node {
        Some(node) => node,
        None => {
            return Err(DavError::Code(status::NOT_FOUND));
        },
    };
    let parent_id = encode_parent(destination.document_id);
    let to_account_id = destination.account_id;
    let moved = placed(node, parent_id, destination.new_name);
    let mut ops: Vec<WriteOp> = Vec::new();
    if from_resource.account_id == to_account_id {
        ops.push(
            WriteOp::Update {
                account_id: from_resource.account_id,
                document_id: from_resource.resource.document_id,
                node: moved,
            },
        );
    } else {
        ops.push(
            WriteOp::Insert { account_id: to_account_id, document_id: to_document_id, node: moved },
        );
        ops.push(
            WriteOp::Delete {
                account_id: from_resource.account_id,
                document_id: from_resource.resource.document_id,
            },
        );
    }
    assert(ops@ =~= spec_move_item_ops(from_resource, given.unwrap(), target, to_document_id));
    answer(status::CREATED, ops)
}

/// The batch that writes `source` over the existing destination, and then
/// removes the source where `delete_source` says so.
pub open spec fn spec_overwrite_ops(
    from_resource: &UriResource<u32, FileItemId>,
    source: FileNode,
    dest_node: FileNode,
    destination: Destination,
    delete_source: bool,
) -> Seq<WriteOp> {
    let update = WriteOp::Update {
        account_id: destination.account_id,
        document_id: destination.document_id.unwrap(),
        node: spec_overwritten(source, dest_node, destination.new_name),
    };
    if delete_source {
        seq![
            update,
            WriteOp::Delete {
                account_id: from_resource.account_id,
                document_id: from_resource.resource.document_id,
            },
        ]
    } else {
        seq![update]
    }
}

/// What an overwrite answers: 204 with its batch, or 404 where a record is
/// missing.
pub open spec fn spec_overwrite(
    from_resource: &UriResource<u32, FileItemId>,
    source: Option<FileNode>,
    dest_node: Option<FileNode>,
    destination: Destination,
    delete_source: bool,
) -> Planned {
    if source.is_some() && dest_node.is_some() {
        spec_answer(
            status::NO_CONTENT,
            spec_overwrite_ops(
                from_resource,
                source.unwrap(),
                dest_node.unwrap(),
                destination,
                delete_source,
            ),
        )
    } else {
        spec_missing()
    }
}

fn overwrite(
    from_resource: &UriResource<u32, FileItemId>,
    source: Option<FileNode>,
    dest_node: Option<FileNode>,
    destination: Destination,
    delete_source: bool,
) -> (r: Result<CopyMoveResult, DavError>)
    requires
        destination.document_id.is_some(),
    ensures
        outcome_of(r) == spec_overwrite(from_resource, source, dest_node, destination, delete_source),
{
    let ghost given = source;
    let ghost had = dest_node;
    let ghost target = destination;
    let dest_node = match dest_node {
        Some(node) => node,
        None => {
            return Err(DavError::Code(status::NOT_FOUND));
        },
    };
    let mut node = match source {
        Some(node) => node,
        None => {
            return Err(DavError::Code(status::NOT_FOUND));
        },
    };
    let to_document_id = match destination.document_id {
        Some(id) => id,
        None => 0,
    };
    node.name = match destination.new_name {
        Some(name) => name,
        None => dest_node.name,
    };
    node.parent_id = dest_node.parent_id;
    let mut ops: Vec<WriteOp> = Vec::new();
    ops.push(
        WriteOp::Update { account_id: destination.account_id, document_id: to_document_id, node },
    );
    if delete_source {
        ops.push(
            WriteOp::Delete {
                account_id: from_resource.account_id,
                document_id: from_resource.resource.document_id,
            },
        );
    }
    assert(ops@ =~= spec_overwrite_ops(
        from_resource,
        given.unwrap(),
        had.unwrap(),
        target,
        delete_source,
    ));
    answer(status::NO_CONTENT, ops)
}

/// Writes the source item over the existing destination item, which keeps
/// its document id, its parent and, unless a new name is given, its name.
pub fn overwrite_item(
    from_resource: &UriResource<u32, FileItemId>,
    source: Option<FileNode>,
    dest_node: Option<FileNode>,
    destination: Destination,
) -> (r: Result<CopyMoveResult, DavError>)
    requires
        destination.document_id.is_some(),
    ensures
        outcome_of(r) == spec_overwrite(from_resource, source, dest_node, destination, false),
{
    overwrite(from_resource, source, dest_node, destination, false)
}

/// Writes the source item over the existing destination item, then removes
/// the source.
pub fn overwrite_and_delete_item(
    from_resource: &UriResource<u32, FileItemId>,
    source: Option<FileNode>,
    dest_node: Option<FileNode>,
    destination: Destination,
) -> (r: Result<CopyMoveResult, DavError>)
    requires
        destination.document_id.is_some(),
    ensures
        outcome_of(r) == spec_overwrite(from_resource, source, dest_node, destination, true),
{
    overwrite(from_resource, source, dest_node, destination, true)
}

/// A document and the key that orders it in its hierarchy: a folder comes
/// before what it holds.
#[derive(Debug, Clone, Copy, PartialEq, Eq, Structural)]
pub struct Ranked {
    pub document_id: u32,
    pub hierarchy_sequence: u32,
}

impl Keyed for Ranked {
    open spec fn key(&self) -> int {
        self.hierarchy_sequence as int
    }

    fn comes_after(&self, other: &Self) -> (r: bool) {
        self.hierarchy_sequence > other.hierarchy_sequence
    }
}

/// The key of the entry at position `i` of a hierarchy.
pub open spec fn spec_rank(files: &DavResources, i: usize) -> Ranked {
    Ranked {
        document_id: files.paths@[i as int].document_id,
        hierarchy_sequence: files.paths@[i as int].hierarchy_sequence,
    }
}

/// The entries that a copy of the folder `root` takes with it: the folder
/// alone at depth 0, the folder and what it holds directly at depth 1, else
/// everything below it.
pub open spec fn spec_copy_candidates(files: &DavResources, root: Seq<char>, depth: Depth) -> Seq<
    usize,
> {
    match depth {
        Depth::Zero => files.spec_subtree_with_depth(root, 0),
        Depth::One => files.spec_subtree_with_depth(root, 1),
        _ => files.spec_subtree(root),
    }
}

/// The documents that a copy of the document `document_id` takes with it,
/// a folder before what it holds; `None` where the hierarchy has no such
/// document.
pub open spec fn spec_copy_order(files: &DavResources, document_id: u32, depth: Depth) -> Option<
    Seq<Ranked>,
> {
    match files.spec_by_id(document_id) {
        Some(root) => {
            let picked = spec_copy_candidates(files, root.name@, depth);
            let ranked = Seq::new(picked.len(), |k: int| spec_rank(files, picked[k]));
            Some(sorted(ranked, ranked.len() as int))
        },
        None => None,
    }
}

/// The documents to read for the copy of a folder, in the order in which
/// `copy_container` takes their records.
pub fn copy_order(files: &DavResources, document_id: u32, depth: Depth) -> (r: Result<
    Vec<Ranked>,
    DavError,
>)
    ensures
        spec_copy_order(files, document_id, depth).is_none() ==> r == Err::<Vec<Ranked>, DavError>(
            DavError::Code(status::NOT_FOUND),
        ),
        spec_copy_order(files, document_id, depth).is_some() ==> r.is_ok() && r.unwrap()@
            == spec_copy_order(files, document_id, depth).unwrap(),
{
    let root = match files.by_id(document_id) {
        Some(root) => root,
        None => {
            return Err(DavError::Code(status::NOT_FOUND));
        },
    };
    let picked = match depth {
        Depth::Zero => files.subtree_with_depth(root.name.as_str(), 0),
        Depth::One => files.subtree_with_depth(root.name.as_str(), 1),
        _ => files.subtree(root.name.as_str()),
    };
    let mut ranked: Vec<Ranked> = Vec::new();
    let mut k: usize = 0;
    while k < picked.len()
        invariant
            k <= picked.len(),
            forall|j: int| 0 <= j < picked@.len() ==> (#[trigger] picked@[j]) < files.paths@.len(),
            ranked@ == Seq::new(k as nat, |j: int| spec_rank(files, picked@[j])),
        decreases picked.len() - k,
    {
        let entry = &files.paths[picked[k]];
        ranked.push(
            Ranked {
                document_id: entry.document_id,
                hierarchy_sequence: entry.hierarchy_sequence,
            },
        );
        assert(ranked@ =~= Seq::new((k + 1) as nat, |j: int| spec_rank(files, picked@[j])));
        k += 1;
    }
    Ok(sort(&ranked))
}

/// The new ids of the first `n` copied documents, by their old ids, both
/// in the encoding of a record's parent: the id plus one.
pub open spec fn spec_id_map(nodes: Seq<FetchedNode>, next: u32, n: int) -> Map<u32, u32>
    decreases n,
{
    if n <= 0 {
        Map::empty()
    } else {
        spec_id_map(nodes, next, n - 1).insert(
            (nodes[n - 1].document_id + 1) as u32,
            (next - (n - 1) + 1) as u32,
        )
    }
}

/// The record written for the `k`-th copied document: the source record
/// with fresh timestamps, under the new name if it is the first, and under
/// its copied parent if that was copied before it, else under the
/// destination folder.
pub open spec fn spec_copied_node(
    nodes: Seq<FetchedNode>,
    k: int,
    parent_id: u32,
    new_name: Option<String>,
    next: u32,
    now: i64,
) -> FileNode {
    let src = nodes[k].node.unwrap();
    let map = spec_id_map(nodes, next, k);
    let named = if k == 0 {
        spec_renamed(src, new_name)
    } else {
        src
    };
    FileNode {
        parent_id: if map.contains_key(src.parent_id) {
            map[src.parent_id]
        } else {
            parent_id
        },
        created: now,
        modified: now,
        ..named
    }
}

/// The first `n` inserts of the copy of a folder: the `k`-th document gets
/// the id `next - k`.
pub open spec fn spec_copy_inserts(
    nodes: Seq<FetchedNode>,
    n: int,
    to_account_id: u32,
    parent_id: u32,
    new_name: Option<String>,
    next: u32,
    now: i64,
) -> Seq<WriteOp> {
    Seq::new(
        n as nat,
        |k: int|
            WriteOp::Insert {
                account_id: to_account_id,
                document_id: (next - k) as u32,
                node: spec_copied_node(nodes, k, parent_id, new_name, next, now),
            },
    )
}

/// The removal of the sources `0..n` of a move, what was copied last
/// first.
pub open spec fn spec_copy_deletes(nodes: Seq<FetchedNode>, n: int, from_account_id: u32) -> Seq<
    WriteOp,
> {
    Seq::new(
        n as nat,
        |k: int|
            WriteOp::Delete {
                account_id: from_account_id,
                document_id: nodes[nodes.len() - 1 - k].document_id,
            },
    )
}

/// The batch of the copy of a folder with what it holds.
pub open spec fn spec_copy_ops(
    nodes: Seq<FetchedNode>,
    from_account_id: u32,
    destination: Destination,
    delete_source: bool,
    next: u32,
    now: i64,
) -> Seq<WriteOp> {
    let inserts = spec_copy_inserts(
        nodes,
        nodes.len() as int,
        destination.account_id,
        spec_encode_parent(destination.document_id) as u32,
        destination.new_name,
        next,
        now,
    );
    if delete_source {
        inserts + spec_copy_deletes(nodes, nodes.len() as int, from_account_id)
    } else {
        inserts
    }
}

/// Every document has its record.
pub open spec fn all_fetched(nodes: Seq<FetchedNode>) -> bool {
    forall|k: int| 0 <= k < nodes.len() ==> (#[trigger] nodes[k]).node.is_some()
}

/// The record of the first document, if there is one.
pub open spec fn spec_first_node(nodes: Seq<FetchedNode>) -> Option<FileNode> {
    if nodes.len() > 0 {
        nodes[0].node
    } else {
        None
    }
}

/// The ids that a copy may use and read: no document id is the largest
/// number, and the ids from `next` down suffice for all documents.
pub open spec fn ids_in_range(nodes: Seq<FetchedNode>, next: u32) -> bool {
    &&& next < u32::MAX
    &&& nodes.len() <= next + 1
    &&& forall|k: int| 0 <= k < nodes.len() ==> (#[trigger] nodes[k]).document_id < u32::MAX
}

/// What the copy of a folder answers: at depth 0 what the copy of an item
/// answers; else 201 with its batch, or 404 where a record is missing.
pub open spec fn spec_copy_container(
    from_resource: &UriResource<u32, FileItemId>,
    destination: Destination,
    depth: Depth,
    delete_source: bool,
    nodes: Seq<FetchedNode>,
    next: u32,
    now: i64,
) -> Planned {
    if depth == Depth::Zero {
        spec_copy_item(spec_first_node(nodes), destination, next)
    } else if all_fetched(nodes) {
        spec_answer(
            status::CREATED,
            spec_copy_ops(nodes, from_resource.account_id, destination, delete_source, next, now),
        )
    } else {
        spec_missing()
    }
}

fn first_node(nodes: Vec<FetchedNode>) -> (r: Option<FileNode>)
    ensures
        r == spec_first_node(nodes@),
{
    let mut rest = reversed(nodes);
    match rest.pop() {
        Some(fetched) => fetched.node,
        None => None,
    }
}

/// Copies a folder under the destination folder. `nodes` holds the records
/// of the documents of `copy_order`, in that order, and `next_document_id`
/// is the largest of as many unused ids in a row as there are documents.
/// At depth 0 the folder alone is copied, as an item is. Where
/// `delete_source` is set the sources are removed, in the same batch.
pub fn copy_container(
    from_resource: &UriResource<u32, FileItemId>,
    destination: Destination,
    depth: Depth,
    delete_source: bool,
    nodes: Vec<FetchedNode>,
    next_document_id: u32,
    now: i64,
) -> (r: Result<CopyMoveResult, DavError>)
    requires
        destination.document_id != Some(u32::MAX),
        depth != Depth::Zero ==> ids_in_range(nodes@, next_document_id),
    ensures
        outcome_of(r) == spec_copy_container(
            from_resource,
            destination,
            depth,
            delete_source,
            nodes@,
            next_document_id,
            now,
        ),
{
    if let Depth::Zero = depth {
        return copy_item(from_resource, first_node(nodes), destination, next_document_id);
    }
    let from_account_id = from_resource.account_id;
    let to_account_id = destination.account_id;
    let parent_id = encode_parent(destination.document_id);
    let ghost all = nodes@;
    let ghost given_name = destination.new_name;
    let n = nodes.len();
    let mut new_name = destination.new_name;
    let mut rest = reversed(nodes);
    let mut ops: Vec<WriteOp> = Vec::new();
    let mut sources: Vec<u32> = Vec::new();
    let mut id_map: HashMap<u32, u32> = HashMap::new();
    let mut i: usize = 0;
    while i < n
        invariant
            i <= n,
            n == all.len(),
            all == nodes@,
            depth != Depth::Zero,
            ids_in_range(all, next_document_id),
            rest@ == all.skip(i as int).reverse(),
            forall|k: int| 0 <= k < i ==> (#[trigger] all[k]).node.is_some(),
            ops@ == spec_copy_inserts(
                all,
                i as int,
                to_account_id,
                parent_id,
                given_name,
                next_document_id,
                now,
            ),
            sources@ == Seq::new(i as nat, |k: int| all[k].document_id),
            id_map@ == spec_id_map(all, next_document_id, i as int),
            i == 0 ==> new_name == given_name,
        decreases n - i,
    {
        let fetched = rest.pop().unwrap();
        assert(fetched == all[i as int]);
        assert(rest@ =~= all.skip(i + 1).reverse());
        let document_id = fetched.document_id;
        let mut node = match fetched.node {
            Some(node) => node,
            None => {
                return Err(DavError::Code(status::NOT_FOUND));
            },
        };
        node.modified = now;
        node.created = now;
        if i == 0 {
            let mut taken: Option<String> = None;
            core::mem::swap(&mut new_name, &mut taken);
            if let Some(name) = taken {
                node.name = name;
            }
        }
        node.parent_id = match id_map.get(&node.parent_id) {
            Some(id) => *id,
            None => parent_id,
        };
        let new_document_id: u32 = next_document_id - (i as u32);
        ops.push(
            WriteOp::Insert { account_id: to_account_id, document_id: new_document_id, node },
        );
        id_map.insert(document_id + 1, new_document_id + 1);
        sources.push(document_id);
        i += 1;
        assert(ops@ =~= spec_copy_inserts(
            all,
            i as int,
            to_account_id,
            parent_id,
            given_name,
            next_document_id,
            now,
        ));
        assert(sources@ =~= Seq::new(i as nat, |k: int| all[k].document_id));
    }
    if delete_source {
        let ghost inserts = ops@;
        let mut k: usize = 0;
        while k < n
            invariant
                k <= n,
                n == all.len(),
                sources@.len() == n - k,
                forall|j: int| 0 <= j < n - k ==> sources@[j] == all[j].document_id,
                ops@ == inserts + spec_copy_deletes(all, k as int, from_account_id),
            decreases n - k,
        {
            let document_id = sources.pop().unwrap();
            ops.push(WriteOp::Delete { account_id: from_account_id, document_id });
            k += 1;
            assert(ops@ =~= inserts + spec_copy_deletes(all, k as int, from_account_id));
        }
    }
    answer(status::CREATED, ops)
}

/// The destination folder of a move lies in the moved folder: the move
/// would cut the folder off from the tree.
pub open spec fn spec_is_cycle(
    to_files: &DavResources,
    from_resource: &UriResource<u32, FileItemId>,
    destination: Destination,
) -> bool {
    from_resource.account_id == destination.account_id && destination.document_id.is_some()
        && to_files.spec_is_ancestor_of(
        from_resource.resource.document_id,
        destination.document_id.unwrap(),
    )
}

/// What the move of a folder answers: 502 for a move into itself; within
/// an account what the move of an item answers; across accounts what a copy
/// that removes its sources answers.
pub open spec fn spec_move_container(
    to_files: &DavResources,
    from_resource: &UriResource<u32, FileItemId>,
    destination: Destination,
    depth: Depth,
    nodes: Seq<FetchedNode>,
    next: u32,
    now: i64,
) -> Planned {
    if spec_is_cycle(to_files, from_resource, destination) {
        Err(DavError::Code(status::BAD_GATEWAY))
    } else if from_resource.account_id == destination.account_id {
        spec_move_item(from_resource, spec_first_node(nodes), destination, next)
    } else {
        spec_copy_container(from_resource, destination, depth, true, nodes, next, now)
    }
}

/// Moves a folder under the destination folder. Within an account the
/// folder's record alone changes, and `nodes` holds it first; a move into
/// the folder itself or into what it holds is refused. Across accounts the
/// folder is copied as by `copy_container` and the sources are removed.
pub fn move_container(
    to_files: &DavResources,
    from_resource: &UriResource<u32, FileItemId>,
    destination: Destination,
    depth: Depth,
    nodes: Vec<FetchedNode>,
    next_document_id: u32,
    now: i64,
) -> (r: Result<CopyMoveResult, DavError>)
    requires
        destination.document_id != Some(u32::MAX),
        from_resource.account_id != destination.account_id && depth != Depth::Zero ==> ids_in_range(
            nodes@,
            next_document_id,
        ),
    ensures
        outcome_of(r) == spec_move_container(
            to_files,
            from_resource,
            destination,
            depth,
            nodes@,
            next_document_id,
            now,
        ),
{
    if from_resource.account_id == destination.account_id {
        if let Some(parent) = destination.document_id {
            if to_files.is_ancestor_of(from_resource.resource.document_id, parent) {
                return Err(DavError::Code(status::BAD_GATEWAY));
            }
        }
        move_item(from_resource, first_node(nodes), destination, next_document_id)
    } else {
        copy_container(from_resource, destination, depth, true, nodes, next_document_id, now)
    }
}

/// No two of the documents share an id.
pub open spec fn distinct_ids(nodes: Seq<FetchedNode>) -> bool {
    forall|a: int, b: int|
        0 <= a < b < nodes.len() ==> (#[trigger] nodes[a]).document_id != (
        #[trigger] nodes[b]).document_id
}

/// Every document whose parent is among the documents comes after it.
pub open spec fn parents_first(nodes: Seq<FetchedNode>) -> bool {
    forall|a: int, b: int|
        0 <= a < nodes.len() && 0 <= b < nodes.len() && (#[trigger] nodes[a]).node.unwrap().parent_id
            == (#[trigger] nodes[b]).document_id + 1 ==> b < a
}

proof fn lemma_id_map(nodes: Seq<FetchedNode>, next: u32, n: int)
    requires
        0 <= n <= nodes.len(),
        ids_in_range(nodes, next),
        distinct_ids(nodes),
    ensures
        forall|key: u32|
            #[trigger] spec_id_map(nodes, next, n).contains_key(key) <==> exists|j: int|
                0 <= j < n && (#[trigger] nodes[j]).document_id + 1 == key,
        forall|j: int|
            0 <= j < n ==> spec_id_map(nodes, next, n)[((#[trigger] nodes[j]).document_id
                + 1) as u32] == next - j + 1,
    decreases n,
{
    if n > 0 {
        lemma_id_map(nodes, next, n - 1);
        let prev = spec_id_map(nodes, next, n - 1);
        let cur = spec_id_map(nodes, next, n);
        let last_key = (nodes[n - 1].document_id + 1) as u32;
        assert forall|key: u32| #[trigger] cur.contains_key(key) <==> exists|j: int|
            0 <= j < n && (#[trigger] nodes[j]).document_id + 1 == key by {
            if cur.contains_key(key) {
                if key == last_key {
                    assert(nodes[n - 1].document_id + 1 == key);
                } else {
                    assert(prev.contains_key(key));
                    let j = choose|j: int|
                        0 <= j < n - 1 && (#[trigger] nodes[j]).document_id + 1 == key;
                    assert(nodes[j].document_id + 1 == key);
                }
            }
            if exists|j: int| 0 <= j < n && (#[trigger] nodes[j]).document_id + 1 == key {
                let j = choose|j: int| 0 <= j < n && (#[trigger] nodes[j]).document_id + 1 == key;
                if j < n - 1 {
                    assert(prev.contains_key(key));
                }
            }
        }
    }
}

/// A copied folder has the shape of its source. Where the documents have
/// distinct ids and each comes after its parent, and the destination folder
/// is none of the new documents: one copied document is the parent of
/// another exactly where that holds of their sources; a document whose
/// parent was not copied lies directly in the destination folder; every
/// copy keeps the payload of its source, and its name, but for the first
/// where a new name is given.
pub proof fn lemma_copy_keeps_shape(
    nodes: Seq<FetchedNode>,
    parent_id: u32,
    new_name: Option<String>,
    next: u32,
    now: i64,
)
    requires
        all_fetched(nodes),
        ids_in_range(nodes, next),
        distinct_ids(nodes),
        parents_first(nodes),
        !(next - nodes.len() + 2 <= parent_id <= next + 1),
    ensures
        forall|i: int, j: int|
            0 <= i < nodes.len() && 0 <= j < nodes.len() ==> ((#[trigger] spec_copied_node(
                nodes,
                i,
                parent_id,
                new_name,
                next,
                now,
            )).parent_id == next - j + 1 <==> nodes[i].node.unwrap().parent_id == (
            #[trigger] nodes[j]).document_id + 1),
        forall|i: int|
            0 <= i < nodes.len() && (forall|j: int|
                0 <= j < nodes.len() ==> nodes[i].node.unwrap().parent_id != (
                #[trigger] nodes[j]).document_id + 1) ==> (#[trigger] spec_copied_node(
                nodes,
                i,
                parent_id,
                new_name,
                next,
                now,
            )).parent_id == parent_id,
        forall|i: int|
            0 <= i < nodes.len() ==> {
                let out = #[trigger] spec_copied_node(nodes, i, parent_id, new_name, next, now);
                let src = nodes[i].node.unwrap();
                &&& out.file == src.file
                &&& out.display_name == src.display_name
                &&& out.dead_properties == src.dead_properties
                &&& out.acls == src.acls
                &&& (i > 0 || new_name.is_none() ==> out.name == src.name)
                &&& (i == 0 && new_name.is_some() ==> out.name == new_name.unwrap())
            },
{
    assert forall|i: int, j: int| 0 <= i < nodes.len() && 0 <= j < nodes.len() implies ((
    #[trigger] spec_copied_node(nodes, i, parent_id, new_name, next, now)).parent_id == next - j
        + 1 <==> nodes[i].node.unwrap().parent_id == (#[trigger] nodes[j]).document_id + 1) by {
        lemma_id_map(nodes, next, i);
        let src = nodes[i].node.unwrap();
        let map = spec_id_map(nodes, next, i);
        if src.parent_id == nodes[j].document_id + 1 {
            assert(j < i);
            assert(map.contains_key(src.parent_id));
        }
        if map.contains_key(src.parent_id) {
            let k = choose|k: int|
                0 <= k < i && (#[trigger] nodes[k]).document_id + 1 == src.parent_id;
            assert(map[src.parent_id] == next - k + 1);
            if k != j {
                assert(nodes[k].document_id != nodes[j].document_id);
            }
        }
    }
    assert forall|i: int|
        0 <= i < nodes.len() && (forall|j: int|
            0 <= j < nodes.len() ==> nodes[i].node.unwrap().parent_id != (
            #[trigger] nodes[j]).document_id + 1) implies (#[trigger] spec_copied_node(
        nodes,
        i,
        parent_id,
        new_name,
        next,
        now,
    )).parent_id == parent_id by {
        lemma_id_map(nodes, next, i);
        let src = nodes[i].node.unwrap();
        let map = spec_id_map(nodes, next, i);
        if map.contains_key(src.parent_id) {
            let k = choose|k: int|
                0 <= k < i && (#[trigger] nodes[k]).document_id + 1 == src.parent_id;
            assert(nodes[k].document_id + 1 == src.parent_id);
        }
    }
}

/// A COPY or MOVE request: the source, the `Destination` header as it was
/// resolved (`None` where the header is missing), and the headers that
/// steer the operation.
#[derive(Debug)]
pub struct CopyMoveRequest {
    pub from: OwnedUri,
    pub destination: Option<UnresolvedUri>,
    pub depth: Depth,
    pub overwrite_fail: bool,
    pub is_move: bool,
}

/// What the guards of a COPY or MOVE request are held against.
#[derive(Debug)]
pub struct CopyMoveGuards {
    /// The documents of the source account on which the token holds the
    /// rights that the request needs: read, and for a move also modify.
    pub shared_source: Vec<u32>,
    /// The rights of the token on the destination folder.
    pub parent_rights: u32,
    /// The rights of the token on the node that the destination names.
    pub target_rights: u32,
    /// Why the conditional headers and lock tokens refuse the request, if
    /// they do.
    pub precondition: Option<DavError>,
    /// The bytes that the destination account may still take; `None` where
    /// it has no quota.
    pub quota_available: Option<u64>,
}

/// What was read for a COPY or MOVE request.
#[derive(Debug)]
pub struct CopyMoveFacts {
    pub guards: CopyMoveGuards,
    /// The records of the documents that the plan of the request names, in
    /// that order.
    pub nodes: Vec<FetchedNode>,
    /// The record of the node that the destination names.
    pub dest_node: Option<FileNode>,
    /// The largest of as many unused ids in a row as the plan of the request
    /// asks for.
    pub next_document_id: u32,
    pub now: i64,
}

/// What the engine does for a request once every guard has passed.
#[derive(Debug, Clone, Copy, PartialEq, Eq, Structural)]
pub enum CopyMoveAction {
    Rename,
    MoveContainer,
    CopyContainer,
    MoveItem,
    CopyItem,
    OverwriteItem,
    OverwriteAndDeleteItem,
}

/// How the guards of a request end.
#[derive(Debug, Clone, Copy, PartialEq, Eq, Structural)]
pub enum Decision {
    /// The request fails with this error.
    Fail(DavError),
    /// The request is answered with this status and nothing is written.
    Respond(u16),
    /// The request is carried out.
    Act(CopyMoveAction),
}

/// The entry of the hierarchy that the source URI names.
pub open spec fn spec_source(from_files: &DavResources, request: &CopyMoveRequest) -> Option<
    DavResource,
> {
    match request.from.resource {
        Some(path) => from_files.spec_by_name(path@),
        None => None,
    }
}

/// The token is no member of the source account and lacks the needed
/// rights on a document of the source subtree.
pub open spec fn spec_source_refused(
    access_token: &AccessToken,
    from_files: &DavResources,
    request: &CopyMoveRequest,
    guards: &CopyMoveGuards,
) -> bool {
    let picked = from_files.spec_subtree(request.from.resource.unwrap()@);
    !access_token.spec_is_member(request.from.account_id) && exists|k: int|
        0 <= k < picked.len() && !guards.shared_source@.contains(
            from_files.paths@[(#[trigger] picked[k]) as int].document_id,
        )
}

/// The account and the path that the destination names, where it names a
/// node of the file tree.
pub open spec fn spec_target(request: &CopyMoveRequest) -> Option<(u32, Seq<char>)> {
    match request.destination {
        Some(d) => if d.collection == Collection::FileNode && d.account_id.is_some()
            && d.resource.is_some() {
            Some((d.account_id.unwrap(), d.resource.unwrap()@))
        } else {
            None
        },
        None => None,
    }
}

/// The folder that the destination path lies in: `Ok(None)` for the root of
/// the account, `Err` where the path names a folder that does not exist.
pub open spec fn spec_target_parent(to_files: &DavResources, path: Seq<char>) -> Result<
    Option<DavResource>,
    (),
> {
    match parent_path(path) {
        Some(parent) => match to_files.spec_by_name(parent) {
            Some(folder) => Ok(Some(folder)),
            None => Err(()),
        },
        None => Ok(None),
    }
}

/// The sizes of the entries at the first `n` of the positions `picked`,
/// added up.
pub open spec fn spec_sizes(files: &DavResources, picked: Seq<usize>, n: int) -> nat
    decreases n,
{
    if n <= 0 {
        0
    } else {
        spec_sizes(files, picked, n - 1) + files.paths@[picked[n - 1] as int].size as nat
    }
}

/// The bytes that the subtree of the source takes.
pub open spec fn spec_space_needed(from_files: &DavResources, source: DavResource) -> nat {
    let picked = from_files.spec_subtree(source.name@);
    spec_sizes(from_files, picked, picked.len() as int)
}

/// The request needs room at the destination and the account has less
/// than the source subtree takes. A move within an account needs none.
pub open spec fn spec_over_quota(
    from_files: &DavResources,
    source: DavResource,
    request: &CopyMoveRequest,
    to_account_id: u32,
    guards: &CopyMoveGuards,
) -> bool {
    (!request.is_move || request.from.account_id != to_account_id)
        && guards.quota_available.is_some() && spec_space_needed(from_files, source)
        > guards.quota_available.unwrap()
}

/// The documents to destroy where a folder is overwritten or takes the
/// place of a node: the destination and all below it, what lies deepest
/// first.
pub open spec fn spec_destroy(to_files: &DavResources, path: Seq<char>) -> Seq<u32> {
    let picked = to_files.spec_subtree(path);
    let ranked = Seq::new(picked.len(), |k: int| spec_rank(to_files, picked[k]));
    let sorted = sorted(ranked, ranked.len() as int);
    Seq::new(sorted.len(), |k: int| sorted[sorted.len() - 1 - k].document_id)
}

/// The destination exists and a folder is involved: the destination
/// subtree is destroyed and the source takes its place.
pub open spec fn spec_is_overwrite(source: DavResource, existing: Option<DavResource>) -> bool {
    existing.is_some() && (existing.unwrap().is_container || source.is_container)
}

/// How the guards end that come before the quota: `None` where all pass.
pub open spec fn spec_early(
    access_token: &AccessToken,
    from_files: &DavResources,
    to_files: &DavResources,
    request: &CopyMoveRequest,
    guards: &CopyMoveGuards,
) -> Option<Decision> {
    let source = spec_source(from_files, request);
    let target = spec_target(request);
    if source.is_none() {
        Some(Decision::Fail(DavError::Code(status::NOT_FOUND)))
    } else if spec_source_refused(access_token, from_files, request, guards) {
        Some(Decision::Fail(DavError::Code(status::FORBIDDEN)))
    } else if target.is_none() {
        Some(Decision::Fail(DavError::Code(status::BAD_GATEWAY)))
    } else {
        let to_account_id = target.unwrap().0;
        let path = target.unwrap().1;
        let same_account = request.from.account_id == to_account_id;
        let existing = to_files.spec_by_name(path);
        match spec_target_parent(to_files, path) {
            Err(_) => Some(Decision::Fail(DavError::Code(status::CONFLICT))),
            Ok(folder) => {
                let folder_id = match folder {
                    Some(f) => Some(f.document_id),
                    None => None,
                };
                if same_account && existing.is_some() && existing.unwrap().document_id
                    == source.unwrap().document_id {
                    Some(Decision::Respond(status::BAD_GATEWAY))
                } else if existing.is_some() && request.overwrite_fail {
                    Some(Decision::Respond(status::PRECONDITION_FAILED))
                } else if same_account && existing.is_none() && folder_id == Some(
                    source.unwrap().document_id,
                ) {
                    Some(Decision::Respond(status::BAD_GATEWAY))
                } else if same_account && existing.is_none() && request.is_move
                    && source.unwrap().parent_id == folder_id {
                    Some(Decision::Act(CopyMoveAction::Rename))
                } else if !access_token.spec_is_member(to_account_id) && (folder.is_none() || (
                existing.is_some() && !spec_holds(guards.target_rights, Acl::Delete))
                    || !spec_holds(guards.parent_rights, Acl::Modify)) {
                    Some(Decision::Fail(DavError::Code(status::FORBIDDEN)))
                } else if guards.precondition.is_some() {
                    Some(Decision::Fail(guards.precondition.unwrap()))
                } else {
                    None
                }
            },
        }
    }
}

/// What is done once the guards have passed.
pub open spec fn spec_action(
    source: DavResource,
    existing: Option<DavResource>,
    is_move: bool,
) -> CopyMoveAction {
    let replaces_item = existing.is_some() && !spec_is_overwrite(source, existing);
    if source.is_container {
        if is_move {
            CopyMoveAction::MoveContainer
        } else {
            CopyMoveAction::CopyContainer
        }
    } else if is_move {
        if replaces_item {
            CopyMoveAction::OverwriteAndDeleteItem
        } else {
            CopyMoveAction::MoveItem
        }
    } else {
        if replaces_item {
            CopyMoveAction::OverwriteItem
        } else {
            CopyMoveAction::CopyItem
        }
    }
}

/// How the guards of a request end.
pub open spec fn spec_decide(
    access_token: &AccessToken,
    from_files: &DavResources,
    to_files: &DavResources,
    request: &CopyMoveRequest,
    guards: &CopyMoveGuards,
) -> Decision {
    match spec_early(access_token, from_files, to_files, request, guards) {
        Some(decision) => decision,
        None => {
            let source = spec_source(from_files, request).unwrap();
            let target = spec_target(request).unwrap();
            if spec_over_quota(from_files, source, request, target.0, guards) {
                Decision::Fail(
                    DavError::Condition(
                        DavErrorCondition {
                            code: status::INSUFFICIENT_STORAGE,
                            condition: Condition::Base(BaseCondition::QuotaNotExceeded),
                        },
                    ),
                )
            } else {
                Decision::Act(spec_action(source, to_files.spec_by_name(target.1), request.is_move))
            }
        },
    }
}

/// `d` is the destination that the request names: the folder that the
/// destination path lies in, with the path's last segment as the new name.
pub open spec fn spec_is_destination(
    d: Destination,
    to_files: &DavResources,
    request: &CopyMoveRequest,
) -> bool {
    let target = spec_target(request).unwrap();
    let folder = spec_target_parent(to_files, target.1).unwrap();
    &&& d.account_id == target.0
    &&& d.new_name.is_some()
    &&& d.new_name.unwrap()@ == last_segment(target.1)
    &&& match folder {
        Some(f) => d.document_id == Some(f.document_id) && d.parent_id == f.parent_id
            && d.is_container == f.is_container,
        None => d.document_id.is_none() && d.parent_id.is_none() && d.is_container,
    }
}

/// The node that the destination names, as the place to write to.
pub open spec fn spec_existing_destination(existing: DavResource, to_account_id: u32) -> Destination {
    Destination {
        account_id: to_account_id,
        new_name: None,
        document_id: Some(existing.document_id),
        parent_id: existing.parent_id,
        is_container: existing.is_container,
    }
}

/// What the source URI resolved to.
pub open spec fn spec_from_resource(
    request: &CopyMoveRequest,
    source: DavResource,
) -> UriResource<u32, FileItemId> {
    UriResource {
        collection: request.from.collection,
        account_id: request.from.account_id,
        resource: FileItemId {
            document_id: source.document_id,
            parent_id: source.parent_id,
            is_container: source.is_container,
        },
    }
}

/// What carrying out `action` answers, with `d` as the destination.
pub open spec fn spec_act(
    action: CopyMoveAction,
    d: Destination,
    from_files: &DavResources,
    to_files: &DavResources,
    request: &CopyMoveRequest,
    facts: &CopyMoveFacts,
) -> Planned {
    let source = spec_source(from_files, request).unwrap();
    let target = spec_target(request).unwrap();
    let from = spec_from_resource(request, source);
    let first = spec_first_node(facts.nodes@);
    let next = facts.next_document_id;
    match action {
        CopyMoveAction::Rename => spec_rename_item(&from, first, d),
        CopyMoveAction::MoveContainer => spec_move_container(
            to_files,
            &from,
            d,
            request.depth,
            facts.nodes@,
            next,
            facts.now,
        ),
        CopyMoveAction::CopyContainer => spec_copy_container(
            &from,
            d,
            request.depth,
            false,
            facts.nodes@,
            next,
            facts.now,
        ),
        CopyMoveAction::MoveItem => spec_move_item(&from, first, d, next),
        CopyMoveAction::CopyItem => spec_copy_item(first, d, next),
        CopyMoveAction::OverwriteItem => spec_overwrite(
            &from,
            first,
            facts.dest_node,
            spec_existing_destination(to_files.spec_by_name(target.1).unwrap(), target.0),
            false,
        ),
        CopyMoveAction::OverwriteAndDeleteItem => spec_overwrite(
            &from,
            first,
            facts.dest_node,
            spec_existing_destination(to_files.spec_by_name(target.1).unwrap(), target.0),
            true,
        ),
    }
}

/// The answer to the request, from what the action answers: where the
/// destination subtree is replaced it is destroyed in the same commit, and a
/// 201 becomes a 204.
pub open spec fn spec_finish(planned: Planned, is_overwrite: bool, destroy: Seq<u32>) -> Planned {
    match planned {
        Ok(o) => Ok(
            Outcome {
                status: if is_overwrite && o.status == status::CREATED {
                    status::NO_CONTENT
                } else {
                    o.status
                },
                destroy: if is_overwrite {
                    destroy
                } else {
                    o.destroy
                },
                ops: o.ops,
            },
        ),
        Err(e) => Err(e),
    }
}

/// The answer to a request whose guards have passed and whose destination
/// is `d`.
pub open spec fn spec_carry_out(
    action: CopyMoveAction,
    d: Destination,
    from_files: &DavResources,
    to_files: &DavResources,
    request: &CopyMoveRequest,
    facts: &CopyMoveFacts,
) -> Planned {
    let source = spec_source(from_files, request).unwrap();
    let target = spec_target(request).unwrap();
    let is_overwrite = action != CopyMoveAction::Rename && spec_is_overwrite(
        source,
        to_files.spec_by_name(target.1),
    );
    spec_finish(
        spec_act(action, d, from_files, to_files, request, facts),
        is_overwrite,
        spec_destroy(to_files, target.1),
    )
}

/// `planned` is the answer to the request.
pub open spec fn spec_handled(
    planned: Planned,
    access_token: &AccessToken,
    from_files: &DavResources,
    to_files: &DavResources,
    request: &CopyMoveRequest,
    facts: &CopyMoveFacts,
) -> bool {
    match spec_decide(access_token, from_files, to_files, request, &facts.guards) {
        Decision::Fail(e) => planned == Err::<Outcome, DavError>(e),
        Decision::Respond(code) => planned == spec_answer(code, Seq::empty()),
        Decision::Act(action) => exists|d: Destination|
            spec_is_destination(d, to_files, request) && planned == #[trigger] spec_carry_out(
                action,
                d,
                from_files,
                to_files,
                request,
                facts,
            ),
    }
}

fn contains_id(ids: &Vec<u32>, id: u32) -> (r: bool)
    ensures
        r == ids@.contains(id),
{
    let mut i: usize = 0;
    while i < ids.len()
        invariant
            i <= ids.len(),
            forall|j: int| 0 <= j < i ==> ids@[j] != id,
        decreases ids.len() - i,
    {
        if ids[i] == id {
            return true;
        }
        i += 1;
    }
    false
}

fn source_refused(
    access_token: &AccessToken,
    from_files: &DavResources,
    request: &CopyMoveRequest,
    guards: &CopyMoveGuards,
) -> (r: bool)
    requires
        request.from.resource.is_some(),
    ensures
        r == spec_source_refused(access_token, from_files, request, guards),
{
    if access_token.is_member(request.from.account_id) {
        return false;
    }
    let path = match &request.from.resource {
        Some(path) => path,
        None => {
            return false;
        },
    };
    let picked = from_files.subtree(path.as_str());
    let mut k: usize = 0;
    while k < picked.len()
        invariant
            k <= picked.len(),
            request.from.resource.is_some(),
            !access_token.spec_is_member(request.from.account_id),
            picked@ == from_files.spec_subtree(request.from.resource.unwrap()@),
            forall|j: int| 0 <= j < picked@.len() ==> (#[trigger] picked@[j]) < from_files.paths@.len(),
            forall|j: int|
                0 <= j < k ==> guards.shared_source@.contains(
                    from_files.paths@[(#[trigger] picked@[j]) as int].document_id,
                ),
        decreases picked.len() - k,
    {
        if !contains_id(&guards.shared_source, from_files.paths[picked[k]].document_id) {
            assert(!guards.shared_source@.contains(
                from_files.paths@[picked@[k as int] as int].document_id,
            ));
            return true;
        }
        k += 1;
    }
    false
}

proof fn lemma_sizes_grow(files: &DavResources, picked: Seq<usize>, n: int, m: int)
    requires
        n <= m,
    ensures
        spec_sizes(files, picked, n) <= spec_sizes(files, picked, m),
    decreases m - n,
{
    if n < m {
        lemma_sizes_grow(files, picked, n, m - 1);
    }
}

/// The bytes that the subtree of `source` takes, where that number fits 64
/// bits.
fn space_needed(from_files: &DavResources, source: &DavResource) -> (r: Option<u64>)
    ensures
        r.is_some() == (spec_space_needed(from_files, *source) <= u64::MAX),
        r.is_some() ==> r.unwrap() == spec_space_needed(from_files, *source),
{
    let picked = from_files.subtree(source.name.as_str());
    let mut total: u64 = 0;
    let mut k: usize = 0;
    while k < picked.len()
        invariant
            k <= picked.len(),
            picked@ == from_files.spec_subtree(source.name@),
            forall|j: int| 0 <= j < picked@.len() ==> (#[trigger] picked@[j]) < from_files.paths@.len(),
            total == spec_sizes(from_files, picked@, k as int),
        decreases picked.len() - k,
    {
        let size = from_files.paths[picked[k]].size;
        proof {
            lemma_sizes_grow(from_files, picked@, k + 1, picked@.len() as int);
        }
        total = match total.checked_add(size as u64) {
            Some(sum) => sum,
            None => {
                return None;
            },
        };
        k += 1;
    }
    Some(total)
}

/// The documents of the subtree of `path`, what lies deepest first.
fn destroy_list(to_files: &DavResources, path: &str) -> (r: Vec<u32>)
    ensures
        r@ == spec_destroy(to_files, path@),
{
    let picked = to_files.subtree(path);
    let mut ranked: Vec<Ranked> = Vec::new();
    let mut k: usize = 0;
    while k < picked.len()
        invariant
            k <= picked.len(),
            forall|j: int| 0 <= j < picked@.len() ==> (#[trigger] picked@[j]) < to_files.paths@.len(),
            ranked@ == Seq::new(k as nat, |j: int| spec_rank(to_files, picked@[j])),
        decreases picked.len() - k,
    {
        let entry = &to_files.paths[picked[k]];
        ranked.push(
            Ranked {
                document_id: entry.document_id,
                hierarchy_sequence: entry.hierarchy_sequence,
            },
        );
        assert(ranked@ =~= Seq::new((k + 1) as nat, |j: int| spec_rank(to_files, picked@[j])));
        k += 1;
    }
    let sorted = sort(&ranked);
    let mut out: Vec<u32> = Vec::new();
    let mut i: usize = sorted.len();
    while i > 0
        invariant
            i <= sorted.len(),
            out@ == Seq::new(
                (sorted.len() - i) as nat,
                |j: int| sorted@[sorted@.len() - 1 - j].document_id,
            ),
        decreases i,
    {
        i -= 1;
        out.push(sorted[i].document_id);
        assert(out@ =~= Seq::new(
            (sorted.len() - i) as nat,
            |j: int| sorted@[sorted@.len() - 1 - j].document_id,
        ));
    }
    assert(out@ =~= spec_destroy(to_files, path@));
    out
}

fn respond(code: u16) -> (r: Result<CopyMoveResult, DavError>)
    ensures
        outcome_of(r) == spec_answer(code, Seq::empty()),
{
    let ops: Vec<WriteOp> = Vec::new();
    assert(ops@ =~= Seq::<WriteOp>::empty());
    answer(code, ops)
}

fn finish(planned: Result<CopyMoveResult, DavError>, is_overwrite: bool, destroy: Vec<u32>) -> (r:
    Result<CopyMoveResult, DavError>)
    ensures
        outcome_of(r) == spec_finish(outcome_of(planned), is_overwrite, destroy@),
{
    match planned {
        Ok(result) => {
            let status = if is_overwrite && result.status == status::CREATED {
                status::NO_CONTENT
            } else {
                result.status
            };
            Ok(
                CopyMoveResult {
                    status,
                    destroy: if is_overwrite {
                        destroy
                    } else {
                        result.destroy
                    },
                    ops: result.ops,
                },
            )
        },
        Err(e) => Err(e),
    }
}

/// Every document id of the hierarchy leaves room for the encoding of a
/// parent, which is the id plus one.
pub open spec fn ids_encodable(files: &DavResources) -> bool {
    forall|i: int| 0 <= i < files.paths@.len() ==> (#[trigger] files.paths@[i]).document_id < u32::MAX
}

/// Whether every document id of the hierarchy leaves room for the encoding
/// of a parent.
pub fn ids_fit(files: &DavResources) -> (r: bool)
    ensures
        r == ids_encodable(files),
{
    let mut i: usize = 0;
    while i < files.paths.len()
        invariant
            i <= files.paths.len(),
            forall|j: int| 0 <= j < i ==> (#[trigger] files.paths@[j]).document_id < u32::MAX,
        decreases files.paths.len() - i,
    {
        if files.paths[i].document_id == u32::MAX {
            return false;
        }
        i += 1;
    }
    true
}

/// Whether the ids from `next` down suffice for the documents, and no
/// document id is the largest number.
pub fn nodes_fit(nodes: &Vec<FetchedNode>, next: u32) -> (r: bool)
    ensures
        r == ids_in_range(nodes@, next),
{
    if next == u32::MAX || nodes.len() > 0xffff_ffff || nodes.len() > next as usize + 1 {
        return false;
    }
    let mut i: usize = 0;
    while i < nodes.len()
        invariant
            i <= nodes.len(),
            forall|j: int| 0 <= j < i ==> (#[trigger] nodes@[j]).document_id < u32::MAX,
        decreases nodes.len() - i,
    {
        if nodes[i].document_id == u32::MAX {
            return false;
        }
        i += 1;
    }
    true
}

/// The documents of the source whose records a request has to read, in
/// the order in which they are handed on: for the copy of a folder, and
/// for its move to another account, the folder and what goes with it at
/// the depth of the request; else the source alone; none where the
/// request is not carried out.
pub open spec fn spec_read(
    decision: Decision,
    from_files: &DavResources,
    to_account_id: u32,
    request: &CopyMoveRequest,
) -> Seq<u32> {
    let source = spec_source(from_files, request).unwrap();
    let tree = match spec_copy_order(from_files, source.document_id, request.depth) {
        Some(order) => Seq::new(order.len(), |k: int| order[k].document_id),
        None => Seq::empty(),
    };
    match decision {
        Decision::Act(CopyMoveAction::CopyContainer) => tree,
        Decision::Act(CopyMoveAction::MoveContainer) => if request.from.account_id
            == to_account_id {
            seq![source.document_id]
        } else {
            tree
        },
        Decision::Act(_) => seq![source.document_id],
        _ => Seq::empty(),
    }
}

/// The document of the destination whose record a request has to read:
/// the item that an item is written over.
pub open spec fn spec_read_target(
    decision: Decision,
    to_files: &DavResources,
    request: &CopyMoveRequest,
) -> Option<u32> {
    match decision {
        Decision::Act(CopyMoveAction::OverwriteItem) | Decision::Act(
            CopyMoveAction::OverwriteAndDeleteItem,
        ) => Some(to_files.spec_by_name(spec_target(request).unwrap().1).unwrap().document_id),
        _ => None,
    }
}

/// How many unused document ids in a row the destination account has to
/// give: one for each document that is copied there.
pub open spec fn spec_allocate(
    decision: Decision,
    from_files: &DavResources,
    to_account_id: u32,
    request: &CopyMoveRequest,
) -> nat {
    let same_account = request.from.account_id == to_account_id;
    match decision {
        Decision::Act(CopyMoveAction::CopyContainer) => spec_read(
            decision,
            from_files,
            to_account_id,
            request,
        ).len(),
        Decision::Act(CopyMoveAction::MoveContainer) | Decision::Act(CopyMoveAction::MoveItem) => if same_account {
            0
        } else {
            spec_read(decision, from_files, to_account_id, request).len()
        },
        Decision::Act(CopyMoveAction::CopyItem) => 1,
        _ => 0,
    }
}

/// The request copies a folder with what it holds, so that one document
/// id after the other is used.
pub open spec fn spec_copies_tree(
    decision: Decision,
    to_account_id: u32,
    request: &CopyMoveRequest,
) -> bool {
    request.depth != Depth::Zero && match decision {
        Decision::Act(CopyMoveAction::CopyContainer) => true,
        Decision::Act(CopyMoveAction::MoveContainer) => request.from.account_id != to_account_id,
        _ => false,
    }
}

/// How a request ends or goes on, and what has to be read and allocated
/// before it is carried out.
#[derive(Debug)]
pub struct CopyMovePlan {
    pub decision: Decision,
    /// The documents of the source account whose records are to be read,
    /// in the order in which they are handed on.
    pub read: Vec<u32>,
    /// The document of the destination account whose record is to be
    /// read.
    pub read_target: Option<u32>,
    /// How many unused document ids in a row the destination account has
    /// to give.
    pub allocate: usize,
}

/// Runs the guards of a COPY or MOVE: the source, its rights, the
/// destination, the rights on it, the conditional headers and the quota,
/// in that order.
pub fn decide_file_copy_move(
    access_token: &AccessToken,
    from_files: &DavResources,
    to_files: &DavResources,
    request: &CopyMoveRequest,
    guards: &CopyMoveGuards,
) -> (decision: Decision)
    ensures
        decision == spec_decide(access_token, from_files, to_files, request, guards),
{
    let source = match &request.from.resource {
        Some(path) => from_files.by_name(path.as_str()),
        None => None,
    };
    let source = match source {
        Some(source) => source,
        None => {
            return Decision::Fail(DavError::Code(status::NOT_FOUND));
        },
    };
    if source_refused(access_token, from_files, request, guards) {
        return Decision::Fail(DavError::Code(status::FORBIDDEN));
    }
    let (to_account_id, path) = match &request.destination {
        Some(d) => {
            if d.collection != Collection::FileNode {
                return Decision::Fail(DavError::Code(status::BAD_GATEWAY));
            }
            match (d.account_id, &d.resource) {
                (Some(account_id), Some(path)) => (account_id, path),
                _ => {
                    return Decision::Fail(DavError::Code(status::BAD_GATEWAY));
                },
            }
        },
        None => {
            return Decision::Fail(DavError::Code(status::BAD_GATEWAY));
        },
    };
    let same_account = request.from.account_id == to_account_id;
    let (parent, _) = split_parent(path.as_str());
    let folder = match &parent {
        Some(parent) => to_files.by_name(parent.as_str()),
        None => None,
    };
    if parent.is_some() && folder.is_none() {
        return Decision::Fail(DavError::Code(status::CONFLICT));
    }
    let folder_id = match folder {
        Some(folder) => Some(folder.document_id),
        None => None,
    };
    let existing = to_files.by_name(path.as_str());
    if let Some(found) = existing {
        if same_account && found.document_id == source.document_id {
            return Decision::Respond(status::BAD_GATEWAY);
        }
        if request.overwrite_fail {
            return Decision::Respond(status::PRECONDITION_FAILED);
        }
    }
    if same_account && existing.is_none() {
        if folder_id == Some(source.document_id) {
            return Decision::Respond(status::BAD_GATEWAY);
        }
        if request.is_move && source.parent_id == folder_id {
            return Decision::Act(CopyMoveAction::Rename);
        }
    }
    if !access_token.is_member(to_account_id) {
        if folder.is_none() {
            return Decision::Fail(DavError::Code(status::FORBIDDEN));
        }
        if existing.is_some() && !holds(guards.target_rights, Acl::Delete) {
            return Decision::Fail(DavError::Code(status::FORBIDDEN));
        }
        if !holds(guards.parent_rights, Acl::Modify) {
            return Decision::Fail(DavError::Code(status::FORBIDDEN));
        }
    }
    if let Some(e) = guards.precondition {
        return Decision::Fail(e);
    }
    assert(spec_early(access_token, from_files, to_files, request, guards).is_none());
    if !request.is_move || !same_account {
        if let Some(available) = guards.quota_available {
            let fits = match space_needed(from_files, source) {
                Some(needed) => needed <= available,
                None => false,
            };
            if !fits {
                return Decision::Fail(
                    DavError::Condition(
                        DavErrorCondition::new(
                            status::INSUFFICIENT_STORAGE,
                            Condition::Base(BaseCondition::QuotaNotExceeded),
                        ),
                    ),
                );
            }
        }
    }
    let replaces_item = match existing {
        Some(found) => !(found.is_container || source.is_container),
        None => false,
    };
    Decision::Act(
        if source.is_container {
            if request.is_move {
                CopyMoveAction::MoveContainer
            } else {
                CopyMoveAction::CopyContainer
            }
        } else if request.is_move {
            if replaces_item {
                CopyMoveAction::OverwriteAndDeleteItem
            } else {
                CopyMoveAction::MoveItem
            }
        } else {
            if replaces_item {
                CopyMoveAction::OverwriteItem
            } else {
                CopyMoveAction::CopyItem
            }
        },
    )
}

/// The account that the destination of a request lies in, where the
/// request names one.
pub open spec fn spec_to_account(request: &CopyMoveRequest) -> u32 {
    match spec_target(request) {
        Some(target) => target.0,
        None => request.from.account_id,
    }
}

/// Decides how a COPY or MOVE ends or goes on, and says what has to be
/// read and allocated before it is carried out. Nothing needs to be read
/// or allocated for a request that the guards stop.
pub fn plan_file_copy_move(
    access_token: &AccessToken,
    from_files: &DavResources,
    to_files: &DavResources,
    request: &CopyMoveRequest,
    guards: &CopyMoveGuards,
) -> (plan: CopyMovePlan)
    ensures
        plan.decision == spec_decide(access_token, from_files, to_files, request, guards),
        plan.read@ == spec_read(plan.decision, from_files, spec_to_account(request), request),
        plan.read_target == spec_read_target(plan.decision, to_files, request),
        plan.allocate == spec_allocate(
            plan.decision,
            from_files,
            spec_to_account(request),
            request,
        ),
{
    let decision = decide_file_copy_move(access_token, from_files, to_files, request, guards);
    let mut plan = CopyMovePlan { decision, read: Vec::new(), read_target: None, allocate: 0 };
    let action = match decision {
        Decision::Act(action) => action,
        _ => {
            assert(plan.read@ =~= Seq::<u32>::empty());
            return plan;
        },
    };
    let source = match &request.from.resource {
        Some(path) => from_files.by_name(path.as_str()),
        None => None,
    };
    let (source, to_account_id, path) = match (source, &request.destination) {
        (Some(source), Some(d)) => match (d.account_id, &d.resource) {
            (Some(account_id), Some(path)) => (source, account_id, path),
            _ => {
                return plan;
            },
        },
        _ => {
            return plan;
        },
    };
    let same_account = request.from.account_id == to_account_id;
    let whole_tree = match action {
        CopyMoveAction::CopyContainer => true,
        CopyMoveAction::MoveContainer => !same_account,
        _ => false,
    };
    if whole_tree {
        if let Ok(order) = copy_order(from_files, source.document_id, request.depth) {
            let mut k: usize = 0;
            while k < order.len()
                invariant
                    k <= order.len(),
                    plan.read@ == Seq::new(k as nat, |j: int| order@[j].document_id),
                    plan.decision == decision,
                    plan.read_target.is_none(),
                    plan.allocate == 0,
                decreases order.len() - k,
            {
                plan.read.push(order[k].document_id);
                assert(plan.read@ =~= Seq::new((k + 1) as nat, |j: int| order@[j].document_id));
                k += 1;
            }
        } else {
            assert(plan.read@ =~= Seq::<u32>::empty());
        }
    } else {
        plan.read.push(source.document_id);
        assert(plan.read@ =~= seq![source.document_id]);
    }
    plan.allocate = match action {
        CopyMoveAction::CopyContainer => plan.read.len(),
        CopyMoveAction::MoveContainer | CopyMoveAction::MoveItem => if same_account {
            0
        } else {
            plan.read.len()
        },
        CopyMoveAction::CopyItem => 1,
        _ => 0,
    };
    plan.read_target = match action {
        CopyMoveAction::OverwriteItem | CopyMoveAction::OverwriteAndDeleteItem => {
            match to_files.by_name(path.as_str()) {
                Some(found) => Some(found.document_id),
                None => None,
            }
        },
        _ => None,
    };
    plan
}

/// Answers a COPY or MOVE on the file tree: runs the guards and then
/// renames, overwrites, copies or moves. Whatever it writes is one commit:
/// an error leaves the store as it was.
pub fn handle_file_copy_move_request(
    access_token: &AccessToken,
    from_files: &DavResources,
    to_files: &DavResources,
    request: CopyMoveRequest,
    facts: CopyMoveFacts,
) -> (r: Result<CopyMoveResult, DavError>)
    requires
        ids_encodable(to_files),
        spec_copies_tree(
            spec_decide(access_token, from_files, to_files, &request, &facts.guards),
            spec_to_account(&request),
            &request,
        ) ==> ids_in_range(facts.nodes@, facts.next_document_id),
    ensures
        spec_handled(outcome_of(r), access_token, from_files, to_files, &request, &facts),
{
    let decision = decide_file_copy_move(
        access_token,
        from_files,
        to_files,
        &request,
        &facts.guards,
    );
    let action = match decision {
        Decision::Fail(e) => {
            return Err(e);
        },
        Decision::Respond(code) => {
            return respond(code);
        },
        Decision::Act(action) => action,
    };
    // A request that is carried out has a source and a destination.
    let source = match &request.from.resource {
        Some(path) => from_files.by_name(path.as_str()),
        None => None,
    };
    let (source, to_account_id, path) = match (source, &request.destination) {
        (Some(source), Some(d)) => match (d.account_id, &d.resource) {
            (Some(account_id), Some(path)) => (source, account_id, path),
            _ => {
                return Err(DavError::Internal);
            },
        },
        _ => {
            return Err(DavError::Internal);
        },
    };
    let from_resource = UriResource {
        collection: request.from.collection,
        account_id: request.from.account_id,
        resource: FileItemId::from_dav_resource(source),
    };
    assert(from_resource == spec_from_resource(&request, *source));
    let (parent, new_name) = split_parent(path.as_str());
    let folder = match &parent {
        Some(parent) => to_files.by_name(parent.as_str()),
        None => None,
    };
    let existing = to_files.by_name(path.as_str());
    let mut destination = match folder {
        Some(folder) => {
            proof {
                let i = choose|i: int| 0 <= i < to_files.paths@.len() && to_files.paths@[i] == *folder;
                assert(to_files.paths@[i].document_id < u32::MAX);
            }
            Destination::from_dav_resource(folder)
        },
        None => Destination::default(),
    };
    destination.new_name = Some(new_name);
    destination.account_id = to_account_id;
    let ghost d = destination;
    assert(spec_is_destination(d, to_files, &request));
    let is_overwrite = match (action, existing) {
        (CopyMoveAction::Rename, _) => false,
        (_, Some(found)) => found.is_container || source.is_container,
        (_, None) => false,
    };
    let destroy = if is_overwrite {
        destroy_list(to_files, path.as_str())
    } else {
        Vec::new()
    };
    let next = facts.next_document_id;
    let planned = match action {
        CopyMoveAction::Rename => rename_item(&from_resource, first_node(facts.nodes), destination),
        CopyMoveAction::MoveContainer => move_container(
            to_files,
            &from_resource,
            destination,
            request.depth,
            facts.nodes,
            next,
            facts.now,
        ),
        CopyMoveAction::CopyContainer => copy_container(
            &from_resource,
            destination,
            request.depth,
            false,
            facts.nodes,
            next,
            facts.now,
        ),
        CopyMoveAction::MoveItem => move_item(
            &from_resource,
            first_node(facts.nodes),
            destination,
            next,
        ),
        CopyMoveAction::CopyItem => copy_item(
            &from_resource,
            first_node(facts.nodes),
            destination,
            next,
        ),
        CopyMoveAction::OverwriteItem | CopyMoveAction::OverwriteAndDeleteItem => {
            let found = match existing {
                Some(found) => found,
                None => {
                    return Err(DavError::Internal);
                },
            };
            let mut place = Destination::from_dav_resource(found);
            place.account_id = to_account_id;
            assert(place == spec_existing_destination(*found, to_account_id));
            overwrite(
                &from_resource,
                first_node(facts.nodes),
                facts.dest_node,
                place,
                matches!(action, CopyMoveAction::OverwriteAndDeleteItem),
            )
        },
    };
    let r = finish(planned, is_overwrite, destroy);
    assert(outcome_of(r) == spec_carry_out(action, d, from_files, to_files, &request, &facts));
    r
}

/// Renaming a node and then renaming it back restores its record: the
/// parent, the payload, the timestamps, and the name as text.
pub proof fn lemma_rename_round_trip(node: FileNode, there: String, back: String)
    requires
        back@ == node.name@,
    ensures
        spec_renamed(spec_renamed(node, Some(there)), Some(back)).same_record(&node),
        spec_renamed(node, Some(there)).same_but_name(&node),
        spec_renamed(node, Some(there)).name@ == there@,
{
}

/// A rename writes one record, that of the renamed document: what the
/// folder holds is not touched.
pub proof fn lemma_rename_writes_one(
    from_resource: &UriResource<u32, FileItemId>,
    node: FileNode,
    destination: Destination,
)
    ensures
        spec_rename_item_ops(from_resource, node, destination).len() == 1,
        spec_rename_item_ops(from_resource, node, destination)[0] is Update,
        spec_rename_item_ops(from_resource, node, destination)[0]->Update_document_id
            == from_resource.resource.document_id,
        spec_rename_item_ops(from_resource, node, destination)[0]->Update_account_id
            == from_resource.account_id,
{
}

/// A request whose destination exists is never answered with 201: where it
/// is carried out, the answer is 204.
pub proof fn lemma_overwrite_is_no_content(
    planned: Planned,
    access_token: &AccessToken,
    from_files: &DavResources,
    to_files: &DavResources,
    request: &CopyMoveRequest,
    facts: &CopyMoveFacts,
)
    requires
        spec_handled(planned, access_token, from_files, to_files, request, facts),
        spec_target(request).is_some(),
        to_files.spec_by_name(spec_target(request).unwrap().1).is_some(),
    ensures
        planned.is_ok() ==> planned.unwrap().status != status::CREATED,
        planned.is_ok() && spec_decide(access_token, from_files, to_files, request, &facts.guards) is Act
            ==> planned.unwrap().status == status::NO_CONTENT,
{
}

/// The move of a folder into itself or into what it holds is refused with
/// 502, and nothing is written.
pub proof fn lemma_cycle_refused(
    planned: Planned,
    access_token: &AccessToken,
    from_files: &DavResources,
    to_files: &DavResources,
    request: &CopyMoveRequest,
    facts: &CopyMoveFacts,
)
    requires
        spec_handled(planned, access_token, from_files, to_files, request, facts),
        spec_decide(access_token, from_files, to_files, request, &facts.guards) == Decision::Act(
            CopyMoveAction::MoveContainer,
        ),
        request.from.account_id == spec_target(request).unwrap().0,
        spec_target_parent(to_files, spec_target(request).unwrap().1).unwrap().is_some(),
        to_files.spec_is_ancestor_of(
            spec_source(from_files, request).unwrap().document_id,
            spec_target_parent(
                to_files,
                spec_target(request).unwrap().1,
            ).unwrap().unwrap().document_id,
        ),
    ensures
        planned == Err::<Outcome, DavError>(DavError::Code(status::BAD_GATEWAY)),
{
}

/// A request that needs more room than the destination account has left
/// writes nothing; where the guards before the quota pass, it fails with
/// 507.
pub proof fn lemma_quota_enforced(
    planned: Planned,
    access_token: &AccessToken,
    from_files: &DavResources,
    to_files: &DavResources,
    request: &CopyMoveRequest,
    facts: &CopyMoveFacts,
)
    requires
        spec_handled(planned, access_token, from_files, to_files, request, facts),
        spec_source(from_files, request).is_some(),
        spec_target(request).is_some(),
        spec_over_quota(
            from_files,
            spec_source(from_files, request).unwrap(),
            request,
            spec_target(request).unwrap().0,
            &facts.guards,
        ),
    ensures
        planned.is_ok() ==> planned.unwrap().ops.len() == 0 && planned.unwrap().destroy.len() == 0,
        spec_early(access_token, from_files, to_files, request, &facts.guards).is_none() ==> (planned
            matches Err(e) && e.spec_status() == status::INSUFFICIENT_STORAGE),
{
}

} // verus!

use dav::common::uri::{OwnedUri, UnresolvedUri, UriResource};
use dav::file::copy_move::{
    copy_container, copy_item, copy_order, handle_file_copy_move_request, move_container,
    move_item, overwrite_and_delete_item, overwrite_item, plan_file_copy_move, rename_item,
    CopyMoveAction, CopyMoveFacts, CopyMoveGuards, CopyMoveRequest, CopyMoveResult, Decision,
    Destination, FetchedNode, Ranked, WriteOp,
};
use dav::vecs::sort;
use dav::file::{encode_parent, FileItemId, FileNode, FileProperties};
use dav::hierarchy::{split_parent, DavResource, DavResources};
use dav::schema::{BaseCondition, Condition, DeadProperty, Depth};
use dav::token::{AccessToken, AclGrant, Collection};
use dav::{DavError, DavErrorCondition};

const ALICE: u32 = 1;
const BOB: u32 = 2;

fn alice() -> AccessToken {
    AccessToken { primary_id: ALICE, name: "alice".to_string(), member_of: vec![], access_to: vec![] }
}

fn both() -> AccessToken {
    AccessToken { primary_id: ALICE, name: "alice".to_string(), member_of: vec![BOB], access_to: vec![] }
}

fn entry(name: &str, id: u32, parent: Option<u32>, container: bool, seq: u32, size: u32) -> DavResource {
    DavResource {
        name: name.to_string(),
        document_id: id,
        parent_id: parent,
        is_container: container,
        hierarchy_sequence: seq,
        size,
        event_time_range: None,
    }
}

/// docs/ (10) holds a/ (11) and x.txt (13); a/ holds b.txt (12); top.txt (14) lies at the root.
fn alice_files() -> DavResources {
    DavResources {
        base_path: "/dav/file/alice/".to_string(),
        paths: vec![
            entry("docs/a/b.txt", 12, Some(11), false, 30, 300),
            entry("docs", 10, None, true, 10, 0),
            entry("docs/a", 11, Some(10), true, 20, 0),
            entry("docs/x.txt", 13, Some(10), false, 25, 50),
            entry("top.txt", 14, None, false, 5, 7),
            entry("docsy", 15, None, true, 40, 0),
        ],
    }
}

fn bob_files() -> DavResources {
    DavResources {
        base_path: "/dav/file/bob/".to_string(),
        paths: vec![entry("inbox", 70, None, true, 1, 0), entry("inbox/old.txt", 71, Some(70), false, 2, 9)],
    }
}

fn node(name: &str, parent: u32, file: bool) -> FileNode {
    FileNode {
        parent_id: parent,
        name: name.to_string(),
        display_name: Some(format!("{name} (shown)")),
        file: if file {
            Some(FileProperties {
                blob_hash: name.as_bytes().to_vec(),
                size: 3,
                media_type: Some("text/plain".to_string()),
                executable: false,
            })
        } else {
            None
        },
        created: 100,
        modified: 200,
        dead_properties: DeadProperty { entries: vec![] },
        acls: vec![AclGrant { account_id: 5, rights: 1 }],
    }
}

fn fetched(id: u32, node: FileNode) -> FetchedNode {
    FetchedNode { document_id: id, node: Some(node) }
}

fn docs_nodes() -> Vec<FetchedNode> {
    vec![
        fetched(10, node("docs", 0, false)),
        fetched(11, node("a", 11, false)),
        fetched(13, node("x.txt", 11, true)),
        fetched(12, node("b.txt", 12, true)),
    ]
}

fn from(path: &str) -> OwnedUri {
    UriResource { collection: Collection::FileNode, account_id: ALICE, resource: Some(path.to_string()) }
}

fn to(account: u32, path: &str) -> Option<UnresolvedUri> {
    Some(UriResource {
        collection: Collection::FileNode,
        account_id: Some(account),
        resource: Some(path.to_string()),
    })
}

fn request(path: &str, account: u32, dest: &str, is_move: bool) -> CopyMoveRequest {
    CopyMoveRequest {
        from: from(path),
        destination: to(account, dest),
        depth: Depth::Infinity,
        overwrite_fail: false,
        is_move,
    }
}

fn facts(nodes: Vec<FetchedNode>) -> CopyMoveFacts {
    CopyMoveFacts {
        guards: CopyMoveGuards {
            shared_source: vec![],
            parent_rights: 0,
            target_rights: 0,
            precondition: None,
            quota_available: None,
        },
        nodes,
        dest_node: None,
        next_document_id: 500,
        now: 9000,
    }
}

fn item(id: u32, parent: Option<u32>, container: bool) -> UriResource<u32, FileItemId> {
    UriResource {
        collection: Collection::FileNode,
        account_id: ALICE,
        resource: FileItemId { document_id: id, parent_id: parent, is_container: container },
    }
}

fn dest(account: u32, folder: Option<u32>, name: Option<&str>) -> Destination {
    Destination {
        account_id: account,
        new_name: name.map(|n| n.to_string()),
        document_id: folder,
        parent_id: None,
        is_container: true,
    }
}

fn inserted(op: &WriteOp) -> (u32, u32, &FileNode) {
    match op {
        WriteOp::Insert { account_id, document_id, node } => (*account_id, *document_id, node),
        other => panic!("not an insert: {:?}", other),
    }
}

fn updated(op: &WriteOp) -> (u32, u32, &FileNode) {
    match op {
        WriteOp::Update { account_id, document_id, node } => (*account_id, *document_id, node),
        other => panic!("not an update: {:?}", other),
    }
}

fn deleted(op: &WriteOp) -> (u32, u32) {
    match op {
        WriteOp::Delete { account_id, document_id } => (*account_id, *document_id),
        other => panic!("not a delete: {:?}", other),
    }
}

fn run(
    token: &AccessToken,
    to_files: &DavResources,
    request: CopyMoveRequest,
    facts: CopyMoveFacts,
) -> Result<CopyMoveResult, DavError> {
    handle_file_copy_move_request(token, &alice_files(), to_files, request, facts)
}

#[test]
fn hierarchy_lookups() {
    let files = alice_files();
    assert_eq!(files.by_name("docs/a").unwrap().document_id, 11);
    assert!(files.by_name("docs/").is_none());
    assert_eq!(files.by_id(13).unwrap().name, "docs/x.txt");
    assert!(files.by_id(99).is_none());
    assert_eq!(files.index_by_name("top.txt"), Some(4));
    assert_eq!(files.index_by_id(10), Some(1));
}

#[test]
fn hierarchy_subtrees() {
    let files = alice_files();
    // "docsy" begins like "docs" and is no part of it.
    assert_eq!(files.subtree("docs"), vec![0, 1, 2, 3]);
    assert_eq!(files.subtree("docs/a"), vec![0, 2]);
    assert_eq!(files.subtree("nothing"), Vec::<usize>::new());
    assert_eq!(files.subtree_with_depth("docs", 0), vec![1]);
    assert_eq!(files.subtree_with_depth("docs", 1), vec![1, 2, 3]);
    assert_eq!(files.subtree_with_depth("docs", 2), vec![0, 1, 2, 3]);
    assert_eq!(files.children(10), vec![2, 3]);
    assert_eq!(files.children(14), Vec::<usize>::new());
}

#[test]
fn hierarchy_ancestors() {
    let files = alice_files();
    assert!(files.is_ancestor_of(10, 12));
    assert!(files.is_ancestor_of(10, 10));
    assert!(!files.is_ancestor_of(11, 13));
    assert!(!files.is_ancestor_of(10, 15));
    assert!(!files.is_ancestor_of(10, 99));
}

#[test]
fn hierarchy_format_and_split() {
    let files = alice_files();
    assert_eq!(files.format_resource(&files.paths[1]), "/dav/file/alice/docs/");
    assert_eq!(files.format_resource(&files.paths[0]), "/dav/file/alice/docs/a/b.txt");
    assert_eq!(split_parent("docs/a/b.txt"), (Some("docs/a".to_string()), "b.txt".to_string()));
    assert_eq!(split_parent("top.txt"), (None, "top.txt".to_string()));
    assert_eq!(split_parent("a/"), (Some("a".to_string()), String::new()));
}

#[test]
fn parent_encoding() {
    assert_eq!(encode_parent(None), 0);
    assert_eq!(encode_parent(Some(0)), 1);
    assert_eq!(encode_parent(Some(41)), 42);
}

#[test]
fn destination_default_is_root() {
    let d = Destination::default();
    assert_eq!((d.account_id, d.document_id, d.parent_id, d.is_container), (0, None, None, true));
    assert!(d.new_name.is_none());
    let files = alice_files();
    let d = Destination::from_dav_resource(&files.paths[2]);
    assert_eq!((d.account_id, d.document_id, d.parent_id, d.is_container), (u32::MAX, Some(11), Some(10), true));
}

#[test]
fn ranked_sort_is_stable() {
    let r = |id, seq| Ranked { document_id: id, hierarchy_sequence: seq };
    let sorted = sort(&vec![r(1, 30), r(2, 10), r(3, 20), r(4, 10), r(5, 0)]);
    assert_eq!(sorted, vec![r(5, 0), r(2, 10), r(4, 10), r(3, 20), r(1, 30)]);
    assert_eq!(sort(&Vec::<Ranked>::new()), vec![]);
}

#[test]
fn copy_order_by_depth() {
    let files = alice_files();
    let ids = |depth| -> Vec<u32> {
        copy_order(&files, 10, depth).unwrap().iter().map(|r| r.document_id).collect()
    };
    assert_eq!(ids(Depth::Infinity), vec![10, 11, 13, 12]);
    assert_eq!(ids(Depth::Absent), vec![10, 11, 13, 12]);
    assert_eq!(ids(Depth::One), vec![10, 11, 13]);
    assert_eq!(ids(Depth::Zero), vec![10]);
    assert_eq!(copy_order(&files, 99, Depth::Infinity).err(), Some(DavError::Code(404)));
}

#[test]
fn rename_item_updates_name_only() {
    let r = rename_item(&item(14, None, false), Some(node("top.txt", 0, true)), dest(ALICE, None, Some("new.txt")))
        .unwrap();
    assert_eq!(r.status, 201);
    assert!(r.destroy.is_empty());
    assert_eq!(r.ops.len(), 1);
    let (account, id, written) = updated(&r.ops[0]);
    assert_eq!((account, id), (ALICE, 14));
    assert_eq!(written.name, "new.txt");
    assert_eq!(written.parent_id, 0);
    assert_eq!(written.modified, 200);
    assert_eq!(rename_item(&item(14, None, false), None, dest(ALICE, None, Some("n"))).err(), Some(DavError::Code(404)));
}

#[test]
fn rename_there_and_back() {
    let first = node("A", 11, false);
    let there = rename_item(&item(20, Some(10), true), Some(first), dest(ALICE, Some(10), Some("B"))).unwrap();
    let moved = match there.ops.into_iter().next().unwrap() {
        WriteOp::Update { node, .. } => node,
        other => panic!("{:?}", other),
    };
    assert_eq!(moved.name, "B");
    let back = rename_item(&item(20, Some(10), true), Some(moved), dest(ALICE, Some(10), Some("A"))).unwrap();
    let (_, id, restored) = updated(&back.ops[0]);
    let expected = node("A", 11, false);
    assert_eq!(id, 20);
    assert_eq!(restored.name, expected.name);
    assert_eq!(restored.parent_id, expected.parent_id);
    assert_eq!(restored.display_name, expected.display_name);
    assert_eq!(restored.created, expected.created);
    assert_eq!(restored.modified, expected.modified);
    assert_eq!(restored.acls, expected.acls);
    assert!(restored.file.is_none());
}

#[test]
fn copy_item_inserts() {
    let r = copy_item(&item(14, None, false), Some(node("top.txt", 0, true)), dest(BOB, Some(70), None), 500).unwrap();
    assert_eq!(r.status, 201);
    let (account, id, written) = inserted(&r.ops[0]);
    assert_eq!((account, id), (BOB, 500));
    assert_eq!(written.parent_id, 71);
    assert_eq!(written.name, "top.txt");
    let r = copy_item(&item(14, None, false), Some(node("top.txt", 5, true)), dest(BOB, None, Some("n")), 1).unwrap();
    let (_, _, written) = inserted(&r.ops[0]);
    assert_eq!((written.parent_id, written.name.as_str()), (0, "n"));
    assert_eq!(copy_item(&item(14, None, false), None, dest(BOB, None, None), 1).err(), Some(DavError::Code(404)));
}

#[test]
fn move_item_within_and_across() {
    let r = move_item(&item(13, Some(10), false), Some(node("x.txt", 11, true)), dest(ALICE, Some(11), Some("y.txt")), 500)
        .unwrap();
    assert_eq!(r.status, 201);
    assert_eq!(r.ops.len(), 1);
    let (account, id, written) = updated(&r.ops[0]);
    assert_eq!((account, id, written.parent_id, written.name.as_str()), (ALICE, 13, 12, "y.txt"));

    let r = move_item(&item(13, Some(10), false), Some(node("x.txt", 11, true)), dest(BOB, Some(70), None), 500).unwrap();
    assert_eq!(r.ops.len(), 2);
    let (account, id, written) = inserted(&r.ops[0]);
    assert_eq!((account, id, written.parent_id, written.name.as_str()), (BOB, 500, 71, "x.txt"));
    assert_eq!(deleted(&r.ops[1]), (ALICE, 13));
    assert_eq!(move_item(&item(13, Some(10), false), None, dest(BOB, None, None), 1).err(), Some(DavError::Code(404)));
}

#[test]
fn overwrite_keeps_place_of_destination() {
    let place = Destination { account_id: BOB, new_name: None, document_id: Some(71), parent_id: Some(70), is_container: false };
    let r = overwrite_item(&item(13, Some(10), false), Some(node("x.txt", 11, true)), Some(node("old.txt", 71, true)), place)
        .unwrap();
    assert_eq!(r.status, 204);
    assert_eq!(r.ops.len(), 1);
    let (account, id, written) = updated(&r.ops[0]);
    assert_eq!((account, id), (BOB, 71));
    assert_eq!((written.name.as_str(), written.parent_id), ("old.txt", 71));
    assert_eq!(written.display_name.as_deref(), Some("x.txt (shown)"));

    let place = Destination { account_id: BOB, new_name: Some("z".to_string()), document_id: Some(71), parent_id: Some(70), is_container: false };
    let r = overwrite_and_delete_item(&item(13, Some(10), false), Some(node("x.txt", 11, true)), Some(node("old.txt", 71, true)), place)
        .unwrap();
    assert_eq!(r.status, 204);
    assert_eq!(updated(&r.ops[0]).2.name, "z");
    assert_eq!(deleted(&r.ops[1]), (ALICE, 13));
}

#[test]
fn overwrite_needs_both_records() {
    let place = || Destination { account_id: BOB, new_name: None, document_id: Some(71), parent_id: None, is_container: false };
    assert_eq!(overwrite_item(&item(13, None, false), None, Some(node("o", 0, true)), place()).err(), Some(DavError::Code(404)));
    assert_eq!(overwrite_item(&item(13, None, false), Some(node("o", 0, true)), None, place()).err(), Some(DavError::Code(404)));
    assert_eq!(
        overwrite_and_delete_item(&item(13, None, false), None, None, place()).err(),
        Some(DavError::Code(404))
    );
}

#[test]
fn copy_container_keeps_the_shape() {
    let r = copy_container(&item(10, None, true), dest(BOB, Some(70), Some("copy")), Depth::Infinity, false, docs_nodes(), 500, 9000)
        .unwrap();
    assert_eq!(r.status, 201);
    assert_eq!(r.ops.len(), 4);
    let got: Vec<(u32, u32, u32, String)> = r
        .ops
        .iter()
        .map(|op| {
            let (account, id, n) = inserted(op);
            (account, id, n.parent_id, n.name.clone())
        })
        .collect();
    assert_eq!(
        got,
        vec![
            (BOB, 500, 71, "copy".to_string()),
            (BOB, 499, 501, "a".to_string()),
            (BOB, 498, 501, "x.txt".to_string()),
            (BOB, 497, 500, "b.txt".to_string()),
        ]
    );
    for (op, source) in r.ops.iter().zip(docs_nodes()) {
        let (_, _, n) = inserted(op);
        let source = source.node.unwrap();
        assert_eq!((n.created, n.modified), (9000, 9000));
        assert_eq!(n.display_name, source.display_name);
        assert_eq!(n.acls, source.acls);
        assert_eq!(n.file.as_ref().map(|f| f.blob_hash.clone()), source.file.map(|f| f.blob_hash));
    }
}

#[test]
fn copy_container_and_remove_sources() {
    let r = copy_container(&item(10, None, true), dest(BOB, None, None), Depth::Infinity, true, docs_nodes(), 3, 1).unwrap();
    assert_eq!(r.ops.len(), 8);
    let ids: Vec<u32> = r.ops[..4].iter().map(|op| inserted(op).1).collect();
    assert_eq!(ids, vec![3, 2, 1, 0]);
    assert_eq!(inserted(&r.ops[0]).2.parent_id, 0);
    let gone: Vec<(u32, u32)> = r.ops[4..].iter().map(deleted).collect();
    assert_eq!(gone, vec![(ALICE, 12), (ALICE, 13), (ALICE, 11), (ALICE, 10)]);
}

#[test]
fn copy_container_depth_zero_copies_the_folder_alone() {
    let r = copy_container(&item(10, None, true), dest(BOB, Some(70), None), Depth::Zero, true, docs_nodes(), 500, 1).unwrap();
    assert_eq!(r.ops.len(), 1);
    let (account, id, n) = inserted(&r.ops[0]);
    assert_eq!((account, id, n.parent_id, n.name.as_str(), n.created), (BOB, 500, 71, "docs", 100));
    assert_eq!(
        copy_container(&item(10, None, true), dest(BOB, None, None), Depth::Zero, false, vec![], 500, 1).err(),
        Some(DavError::Code(404))
    );
}

#[test]
fn copy_container_missing_record() {
    let mut nodes = docs_nodes();
    nodes[2].node = None;
    assert_eq!(
        copy_container(&item(10, None, true), dest(BOB, None, None), Depth::Infinity, false, nodes, 500, 1).err(),
        Some(DavError::Code(404))
    );
    let empty = copy_container(&item(10, None, true), dest(BOB, None, None), Depth::One, false, vec![], 500, 1).unwrap();
    assert_eq!((empty.status, empty.ops.len()), (201, 0));
}

#[test]
fn move_container_within_account() {
    let files = alice_files();
    let r = move_container(&files, &item(11, Some(10), true), dest(ALICE, Some(15), Some("moved")), Depth::Infinity, vec![fetched(11, node("a", 11, false))], 500, 1)
        .unwrap();
    assert_eq!(r.status, 201);
    assert_eq!(r.ops.len(), 1);
    let (account, id, n) = updated(&r.ops[0]);
    assert_eq!((account, id, n.parent_id, n.name.as_str()), (ALICE, 11, 16, "moved"));
}

#[test]
fn move_container_into_itself_is_refused() {
    let files = alice_files();
    for folder in [10, 11] {
        let r = move_container(&files, &item(10, None, true), dest(ALICE, Some(folder), Some("n")), Depth::Infinity, docs_nodes(), 500, 1);
        assert_eq!(r.err(), Some(DavError::Code(502)));
    }
}

#[test]
fn move_container_across_accounts_copies_and_removes() {
    let r = move_container(&bob_files(), &item(10, None, true), dest(BOB, Some(70), None), Depth::Infinity, docs_nodes(), 500, 1)
        .unwrap();
    assert_eq!(r.ops.len(), 8);
    assert_eq!(inserted(&r.ops[0]).0, BOB);
    assert_eq!(deleted(&r.ops[7]), (ALICE, 10));
}

#[test]
fn request_source_must_exist() {
    let r = run(&alice(), &alice_files(), request("nothing", ALICE, "docs/new", false), facts(vec![]));
    assert_eq!(r.err(), Some(DavError::Code(404)));
    let mut req = request("docs", ALICE, "docs/new", false);
    req.from.resource = None;
    assert_eq!(run(&alice(), &alice_files(), req, facts(vec![])).err(), Some(DavError::Code(404)));
}

#[test]
fn request_source_rights() {
    let stranger = AccessToken { primary_id: 50, name: "eve".to_string(), member_of: vec![], access_to: vec![] };
    let mut f = facts(docs_nodes());
    f.guards.shared_source = vec![10, 11, 13];
    let r = run(&stranger, &alice_files(), request("docs", ALICE, "new", false), f);
    assert_eq!(r.err(), Some(DavError::Code(403)));
}

#[test]
fn request_destination_must_name_a_file_node() {
    let mut req = request("top.txt", ALICE, "x", false);
    req.destination = None;
    assert_eq!(run(&alice(), &alice_files(), req, facts(vec![])).err(), Some(DavError::Code(502)));
    let mut req = request("top.txt", ALICE, "x", false);
    req.destination.as_mut().unwrap().collection = Collection::Calendar;
    assert_eq!(run(&alice(), &alice_files(), req, facts(vec![])).err(), Some(DavError::Code(502)));
    let mut req = request("top.txt", ALICE, "x", false);
    req.destination.as_mut().unwrap().account_id = None;
    assert_eq!(run(&alice(), &alice_files(), req, facts(vec![])).err(), Some(DavError::Code(502)));
    let mut req = request("top.txt", ALICE, "x", false);
    req.destination.as_mut().unwrap().resource = None;
    assert_eq!(run(&alice(), &alice_files(), req, facts(vec![])).err(), Some(DavError::Code(502)));
}

#[test]
fn request_destination_parent_must_exist() {
    let r = run(&alice(), &alice_files(), request("top.txt", ALICE, "nowhere/x", false), facts(vec![]));
    assert_eq!(r.err(), Some(DavError::Code(409)));
}

#[test]
fn request_overwrite_forbidden() {
    let mut req = request("top.txt", ALICE, "docs/x.txt", false);
    req.overwrite_fail = true;
    let r = run(&alice(), &alice_files(), req, facts(vec![])).unwrap();
    assert_eq!((r.status, r.ops.len(), r.destroy.len()), (412, 0, 0));
}

#[test]
fn move_onto_itself_is_bad_gateway() {
    // MOVE docs/ to docs/ with Overwrite: F.
    let mut req = request("docs", ALICE, "docs", true);
    req.overwrite_fail = true;
    let r = run(&alice(), &alice_files(), req, facts(docs_nodes())).unwrap();
    assert_eq!((r.status, r.ops.len(), r.destroy.len()), (502, 0, 0));
    let r = run(&alice(), &alice_files(), request("docs", ALICE, "docs", false), facts(docs_nodes())).unwrap();
    assert_eq!((r.status, r.ops.len(), r.destroy.len()), (502, 0, 0));
}

#[test]
fn copy_into_itself_is_bad_gateway() {
    let r = run(&alice(), &alice_files(), request("docs", ALICE, "docs/inner", false), facts(docs_nodes())).unwrap();
    assert_eq!((r.status, r.ops.len()), (502, 0));
}

#[test]
fn move_within_parent_is_a_rename() {
    let r = run(&alice(), &alice_files(), request("docs/x.txt", ALICE, "docs/y.txt", true), facts(vec![fetched(13, node("x.txt", 11, true))]))
        .unwrap();
    assert_eq!(r.status, 201);
    assert_eq!(r.ops.len(), 1);
    let (account, id, n) = updated(&r.ops[0]);
    assert_eq!((account, id, n.name.as_str(), n.parent_id), (ALICE, 13, "y.txt", 11));
    // The same as a copy is a copy.
    let r = run(&alice(), &alice_files(), request("docs/x.txt", ALICE, "docs/y.txt", false), facts(vec![fetched(13, node("x.txt", 11, true))]))
        .unwrap();
    let (account, id, n) = inserted(&r.ops[0]);
    assert_eq!((account, id, n.name.as_str(), n.parent_id), (ALICE, 500, "y.txt", 11));
}

#[test]
fn request_destination_rights() {
    let bob = bob_files();
    // At the root of another account membership is needed.
    let r = run(&alice(), &bob, request("top.txt", BOB, "t", false), facts(vec![]));
    assert_eq!(r.err(), Some(DavError::Code(403)));
    // In a folder the right to modify it is needed.
    let r = run(&alice(), &bob, request("top.txt", BOB, "inbox/t", false), facts(vec![]));
    assert_eq!(r.err(), Some(DavError::Code(403)));
    let mut f = facts(vec![fetched(14, node("top.txt", 0, true))]);
    f.guards.parent_rights = 0x2;
    let r = run(&alice(), &bob, request("top.txt", BOB, "inbox/t", false), f).unwrap();
    assert_eq!(r.status, 201);
    // To replace a node the right to delete it is needed too.
    let mut f = facts(vec![fetched(14, node("top.txt", 0, true))]);
    f.guards.parent_rights = 0x2;
    let r = run(&alice(), &bob, request("top.txt", BOB, "inbox/old.txt", false), f);
    assert_eq!(r.err(), Some(DavError::Code(403)));
}

#[test]
fn request_precondition() {
    let mut f = facts(vec![fetched(14, node("top.txt", 0, true))]);
    f.guards.precondition = Some(DavError::Code(423));
    let r = run(&alice(), &alice_files(), request("top.txt", ALICE, "docs/t", false), f);
    assert_eq!(r.err(), Some(DavError::Code(423)));
}

#[test]
fn quota_is_enforced() {
    // The subtree of docs takes 350 bytes.
    let over = DavError::Condition(DavErrorCondition { code: 507, condition: Condition::Base(BaseCondition::QuotaNotExceeded) });
    let mut f = facts(docs_nodes());
    f.guards.quota_available = Some(349);
    let r = run(&both(), &bob_files(), request("docs", BOB, "inbox/docs", false), f);
    assert_eq!(r.as_ref().err(), Some(&over));
    assert_eq!(over.status(), 507);
    let mut f = facts(docs_nodes());
    f.guards.quota_available = Some(350);
    let r = run(&both(), &bob_files(), request("docs", BOB, "inbox/docs", false), f).unwrap();
    assert_eq!((r.status, r.ops.len()), (201, 4));
    // A move within an account takes no room.
    let mut f = facts(vec![fetched(10, node("docs", 0, false))]);
    f.guards.quota_available = Some(0);
    let r = run(&alice(), &alice_files(), request("docs", ALICE, "docsy/docs", true), f).unwrap();
    assert_eq!(r.status, 201);
    // A copy within an account does.
    let mut f = facts(docs_nodes());
    f.guards.quota_available = Some(0);
    let r = run(&alice(), &alice_files(), request("docs", ALICE, "docsy/docs", false), f);
    assert_eq!(r.err(), Some(over));
}

#[test]
fn copy_to_another_account_mirrors_the_subtree() {
    // COPY a/ with what it holds, three nodes, to Bob.
    let files = DavResources {
        base_path: "/dav/file/alice/".to_string(),
        paths: vec![
            entry("a", 1, None, true, 1, 0),
            entry("a/b", 2, Some(1), true, 2, 0),
            entry("a/b/c.txt", 3, Some(2), false, 3, 10),
        ],
    };
    let bob = DavResources { base_path: "/dav/file/bob/".to_string(), paths: vec![] };
    let order: Vec<u32> = copy_order(&files, 1, Depth::Infinity).unwrap().iter().map(|r| r.document_id).collect();
    assert_eq!(order, vec![1, 2, 3]);
    let mut f = facts(vec![fetched(1, node("a", 0, false)), fetched(2, node("b", 2, false)), fetched(3, node("c.txt", 3, true))]);
    f.guards.quota_available = Some(1000);
    f.next_document_id = 42;
    let r = handle_file_copy_move_request(&both(), &files, &bob, request("a", BOB, "a", false), f).unwrap();
    assert_eq!(r.status, 201);
    assert!(r.destroy.is_empty());
    let got: Vec<(u32, u32, u32, String)> = r
        .ops
        .iter()
        .map(|op| {
            let (account, id, n) = inserted(op);
            (account, id, n.parent_id, n.name.clone())
        })
        .collect();
    assert_eq!(
        got,
        vec![(BOB, 42, 0, "a".to_string()), (BOB, 41, 43, "b".to_string()), (BOB, 40, 42, "c.txt".to_string())]
    );
}

#[test]
fn copy_onto_existing_item_is_no_content() {
    let mut f = facts(vec![fetched(14, node("top.txt", 0, true))]);
    f.dest_node = Some(node("x.txt", 11, true));
    let r = run(&alice(), &alice_files(), request("top.txt", ALICE, "docs/x.txt", false), f).unwrap();
    assert_eq!(r.status, 204);
    assert!(r.destroy.is_empty());
    let (account, id, n) = updated(&r.ops[0]);
    assert_eq!((account, id, n.name.as_str(), n.parent_id), (ALICE, 13, "x.txt", 11));
    assert_eq!(n.display_name.as_deref(), Some("top.txt (shown)"));
    // As a move the source goes.
    let mut f = facts(vec![fetched(14, node("top.txt", 0, true))]);
    f.dest_node = Some(node("x.txt", 11, true));
    let r = run(&alice(), &alice_files(), request("top.txt", ALICE, "docs/x.txt", true), f).unwrap();
    assert_eq!((r.status, r.ops.len()), (204, 2));
    assert_eq!(deleted(&r.ops[1]), (ALICE, 14));
}

#[test]
fn copy_onto_existing_folder_is_no_content() {
    // docsy/ is replaced by a copy of docs/a with what it holds.
    let nodes = vec![fetched(11, node("a", 11, false)), fetched(12, node("b.txt", 12, true))];
    let r = run(&alice(), &alice_files(), request("docs/a", ALICE, "docsy", false), facts(nodes)).unwrap();
    assert_eq!(r.status, 204);
    assert_eq!(r.destroy, vec![15]);
    assert_eq!(r.ops.len(), 2);
    assert_eq!(inserted(&r.ops[0]).2.name, "docsy");
    // An item that takes the place of a folder: the folder and what it holds go, the deepest first.
    let r = run(&alice(), &alice_files(), request("top.txt", ALICE, "docs", false), facts(vec![fetched(14, node("top.txt", 0, true))]))
        .unwrap();
    assert_eq!(r.status, 204);
    assert_eq!(r.destroy, vec![12, 13, 11, 10]);
    let (_, id, n) = inserted(&r.ops[0]);
    assert_eq!((id, n.name.as_str(), n.parent_id), (500, "docs", 0));
}

#[test]
fn move_folder_into_its_descendant_is_refused() {
    let r = run(&alice(), &alice_files(), request("docs", ALICE, "docs/a/again", true), facts(docs_nodes()));
    assert_eq!(r.err(), Some(DavError::Code(502)));
}

#[test]
fn move_folder_to_another_folder() {
    let r = run(&alice(), &alice_files(), request("docs/a", ALICE, "docsy/a2", true), facts(vec![fetched(11, node("a", 11, false))]))
        .unwrap();
    assert_eq!(r.status, 201);
    let (account, id, n) = updated(&r.ops[0]);
    assert_eq!((account, id, n.name.as_str(), n.parent_id), (ALICE, 11, "a2", 16));
}

fn guards() -> CopyMoveGuards {
    CopyMoveGuards { shared_source: vec![], parent_rights: 0, target_rights: 0, precondition: None, quota_available: None }
}

#[test]
fn plans_say_what_to_read_and_allocate() {
    let files = alice_files();
    let plan = |token: &AccessToken, to_files: &DavResources, request: &CopyMoveRequest, guards: &CopyMoveGuards| {
        let p = plan_file_copy_move(token, &files, to_files, request, guards);
        (p.decision, p.read, p.read_target, p.allocate)
    };
    let act = |a| Decision::Act(a);
    // The copy of a folder: the folder and what it holds, a folder before what it holds.
    assert_eq!(
        plan(&both(), &bob_files(), &request("docs", BOB, "inbox/docs", false), &guards()),
        (act(CopyMoveAction::CopyContainer), vec![10, 11, 13, 12], None, 4)
    );
    let mut shallow = request("docs", BOB, "inbox/docs", false);
    shallow.depth = Depth::One;
    assert_eq!(plan(&both(), &bob_files(), &shallow, &guards()), (act(CopyMoveAction::CopyContainer), vec![10, 11, 13], None, 3));
    shallow.depth = Depth::Zero;
    assert_eq!(plan(&both(), &bob_files(), &shallow, &guards()), (act(CopyMoveAction::CopyContainer), vec![10], None, 1));
    // The move of a folder: within an account its record alone, and no id.
    assert_eq!(
        plan(&alice(), &files, &request("docs/a", ALICE, "docsy/a", true), &guards()),
        (act(CopyMoveAction::MoveContainer), vec![11], None, 0)
    );
    assert_eq!(
        plan(&both(), &bob_files(), &request("docs/a", BOB, "inbox/a", true), &guards()),
        (act(CopyMoveAction::MoveContainer), vec![11, 12], None, 2)
    );
    // Items.
    assert_eq!(plan(&alice(), &files, &request("top.txt", ALICE, "docs/t", false), &guards()), (act(CopyMoveAction::CopyItem), vec![14], None, 1));
    assert_eq!(plan(&alice(), &files, &request("top.txt", ALICE, "docs/t", true), &guards()), (act(CopyMoveAction::MoveItem), vec![14], None, 0));
    assert_eq!(plan(&both(), &bob_files(), &request("top.txt", BOB, "inbox/t", true), &guards()), (act(CopyMoveAction::MoveItem), vec![14], None, 1));
    assert_eq!(plan(&alice(), &files, &request("docs/x.txt", ALICE, "docs/y.txt", true), &guards()), (act(CopyMoveAction::Rename), vec![13], None, 0));
    assert_eq!(
        plan(&alice(), &files, &request("top.txt", ALICE, "docs/x.txt", false), &guards()),
        (act(CopyMoveAction::OverwriteItem), vec![14], Some(13), 0)
    );
    assert_eq!(
        plan(&alice(), &files, &request("top.txt", ALICE, "docs/x.txt", true), &guards()),
        (act(CopyMoveAction::OverwriteAndDeleteItem), vec![14], Some(13), 0)
    );
}

#[test]
fn plans_of_refused_requests_read_and_allocate_nothing() {
    let files = alice_files();
    let plan = |request: &CopyMoveRequest, guards: &CopyMoveGuards| {
        let p = plan_file_copy_move(&alice(), &files, &files, request, guards);
        (p.decision, p.read, p.read_target, p.allocate)
    };
    let nothing = |d| (d, vec![], None, 0);
    let mut forbidden = request("top.txt", ALICE, "docs/x.txt", false);
    forbidden.overwrite_fail = true;
    assert_eq!(plan(&forbidden, &guards()), nothing(Decision::Respond(412)));
    assert_eq!(plan(&request("docs", ALICE, "docs", true), &guards()), nothing(Decision::Respond(502)));
    assert_eq!(plan(&request("nothing", ALICE, "x", true), &guards()), nothing(Decision::Fail(DavError::Code(404))));
    let mut full = guards();
    full.quota_available = Some(0);
    let over = DavError::Condition(DavErrorCondition { code: 507, condition: Condition::Base(BaseCondition::QuotaNotExceeded) });
    assert_eq!(plan(&request("docs", ALICE, "docsy/docs", false), &full), nothing(Decision::Fail(over)));
}

#[test]
fn requests_that_allocate_nothing_need_no_ids() {
    // A rename with no id at hand.
    let mut f = facts(vec![fetched(13, node("x.txt", 11, true))]);
    f.next_document_id = u32::MAX;
    let r = run(&alice(), &alice_files(), request("docs/x.txt", ALICE, "docs/y.txt", true), f).unwrap();
    assert_eq!((r.status, r.ops.len()), (201, 1));
}

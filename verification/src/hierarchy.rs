//! The hierarchy of one account and collection: every resource with its
//! path, its place in the tree and its metadata, indexed by name and by id.

use crate::text::{chars_of, has_at, rfind, rfind_char, same_chars, string_of};
use vstd::prelude::*;

verus! {

/// One entry of a hierarchy.
#[derive(Debug)]
pub struct DavResource {
    /// Path below the account root, segments joined by `/`.
    pub name: String,
    pub document_id: u32,
    /// The enclosing container; `None` at the root.
    pub parent_id: Option<u32>,
    pub is_container: bool,
    /// Ordering key: a container's key is smaller than those of what it holds.
    pub hierarchy_sequence: u32,
    pub size: u32,
    /// First start and last end of a calendar item's instances.
    pub event_time_range: Option<(i64, i64)>,
}

impl DavResource {
    /// Whether the entry is a container.
    pub fn is_container(&self) -> (r: bool)
        ensures
            r == self.is_container,
    {
        self.is_container
    }

    /// The ordering key of the entry.
    pub fn hierarchy_sequence(&self) -> (r: u32)
        ensures
            r == self.hierarchy_sequence,
    {
        self.hierarchy_sequence
    }

    /// The bytes that the entry's content takes.
    pub fn size(&self) -> (r: u32)
        ensures
            r == self.size,
    {
        self.size
    }

    /// First start and last end of a calendar item's instances.
    pub fn event_time_range(&self) -> (r: Option<(i64, i64)>)
        ensures
            r == self.event_time_range,
    {
        self.event_time_range
    }
}

/// The path `name` is `root` or lies below it.
pub open spec fn in_subtree(name: Seq<char>, root: Seq<char>) -> bool {
    name == root || (name.len() > root.len() && name.subrange(0, root.len() as int) == root
        && name[root.len() as int] == '/')
}

/// How many times `c` occurs in `s`.
pub open spec fn count_char(s: Seq<char>, c: char) -> nat
    decreases s.len(),
{
    if s.len() == 0 {
        0
    } else {
        count_char(s.drop_last(), c) + if s.last() == c {
            1nat
        } else {
            0nat
        }
    }
}

/// How many levels the path `name` lies below `root`: 0 for `root` itself, 1
/// for what it holds directly.
pub open spec fn level_below(name: Seq<char>, root: Seq<char>) -> nat
    recommends
        in_subtree(name, root),
{
    if name.len() <= root.len() {
        0
    } else {
        count_char(name.subrange(root.len() as int, name.len() as int), '/')
    }
}

/// The indices below `n` of the entries of `paths` that `keep` accepts, in
/// ascending order.
pub open spec fn select(paths: Seq<DavResource>, keep: spec_fn(DavResource) -> bool, n: int) -> Seq<
    usize,
>
    decreases n,
{
    if n <= 0 {
        Seq::empty()
    } else if keep(paths[n - 1]) {
        select(paths, keep, n - 1).push((n - 1) as usize)
    } else {
        select(paths, keep, n - 1)
    }
}

/// Every member of a selection is an index of an accepted entry, and every
/// accepted entry is a member.
pub proof fn lemma_select(paths: Seq<DavResource>, keep: spec_fn(DavResource) -> bool, n: int)
    requires
        0 <= n <= paths.len(),
        paths.len() <= usize::MAX,
    ensures
        forall|k: int|
            0 <= k < select(paths, keep, n).len() ==> 0 <= (#[trigger] select(paths, keep, n)[k])
                < n && keep(paths[select(paths, keep, n)[k] as int]),
        forall|i: int|
            0 <= i < n && keep(paths[i]) ==> select(paths, keep, n).contains(i as usize),
        forall|k: int, l: int|
            0 <= k < l < select(paths, keep, n).len() ==> select(paths, keep, n)[k] < select(
                paths,
                keep,
                n,
            )[l],
        select(paths, keep, n).len() <= n,
    decreases n,
{
    if n > 0 {
        lemma_select(paths, keep, n - 1);
        let prev = select(paths, keep, n - 1);
        let cur = select(paths, keep, n);
        if keep(paths[n - 1]) {
            assert(cur[cur.len() - 1] == (n - 1) as usize);
            assert forall|i: int| 0 <= i < n && keep(paths[i]) implies cur.contains(
                i as usize,
            ) by {
                if i < n - 1 {
                    let k = choose|k: int| 0 <= k < prev.len() && prev[k] == i as usize;
                    assert(cur[k] == i as usize);
                } else {
                    assert(cur[cur.len() - 1] == i as usize);
                }
            }
        }
    }
}

/// A snapshot of the resources of one account and collection.
#[derive(Debug)]
pub struct DavResources {
    /// The URI prefix of the account's collection, ending in `/`.
    pub base_path: String,
    pub paths: Vec<DavResource>,
}

impl DavResources {
    /// No two entries share a path or a document id.
    pub open spec fn wf(&self) -> bool {
        &&& forall|i: int, j: int|
            0 <= i < j < self.paths@.len() ==> (#[trigger] self.paths@[i]).name@
                != (#[trigger] self.paths@[j]).name@
        &&& forall|i: int, j: int|
            0 <= i < j < self.paths@.len() ==> (#[trigger] self.paths@[i]).document_id
                != (#[trigger] self.paths@[j]).document_id
    }

    /// The index of the first entry at or after `from` whose path is `name`.
    pub open spec fn spec_name_index(&self, name: Seq<char>, from: int) -> Option<int>
        decreases self.paths@.len() - from,
    {
        if from < 0 || from >= self.paths@.len() {
            None
        } else if self.paths@[from].name@ == name {
            Some(from)
        } else {
            self.spec_name_index(name, from + 1)
        }
    }

    /// The index of the first entry at or after `from` whose id is `id`.
    pub open spec fn spec_id_index(&self, id: u32, from: int) -> Option<int>
        decreases self.paths@.len() - from,
    {
        if from < 0 || from >= self.paths@.len() {
            None
        } else if self.paths@[from].document_id == id {
            Some(from)
        } else {
            self.spec_id_index(id, from + 1)
        }
    }

    /// The first entry whose path is `name`.
    pub open spec fn spec_by_name(&self, name: Seq<char>) -> Option<DavResource> {
        match self.spec_name_index(name, 0) {
            Some(i) => Some(self.paths@[i]),
            None => None,
        }
    }

    /// The first entry whose document is `id`.
    pub open spec fn spec_by_id(&self, id: u32) -> Option<DavResource> {
        match self.spec_id_index(id, 0) {
            Some(i) => Some(self.paths@[i]),
            None => None,
        }
    }

    /// The entries selected by `subtree`: `root` and all below it.
    pub open spec fn spec_subtree(&self, root: Seq<char>) -> Seq<usize> {
        select(
            self.paths@,
            |r: DavResource| in_subtree(r.name@, root),
            self.paths@.len() as int,
        )
    }

    /// The entries selected by `subtree_with_depth`: `root` and what lies at
    /// most `depth` levels below it.
    pub open spec fn spec_subtree_with_depth(&self, root: Seq<char>, depth: nat) -> Seq<usize> {
        select(
            self.paths@,
            |r: DavResource| in_subtree(r.name@, root) && level_below(r.name@, root) <= depth,
            self.paths@.len() as int,
        )
    }

    /// The entries selected by `children`: those whose parent is `parent_id`.
    pub open spec fn spec_children(&self, parent_id: u32) -> Seq<usize> {
        select(
            self.paths@,
            |r: DavResource| r.parent_id == Some(parent_id),
            self.paths@.len() as int,
        )
    }

    /// The entry `descendant` is the entry `ancestor` or lies below it.
    pub open spec fn spec_is_ancestor_of(&self, ancestor: u32, descendant: u32) -> bool {
        match (self.spec_by_id(ancestor), self.spec_by_id(descendant)) {
            (Some(a), Some(d)) => in_subtree(d.name@, a.name@),
            _ => false,
        }
    }

    /// The URI of an entry: the base path, the entry's path, and a final `/`
    /// for a container.
    pub open spec fn spec_format_resource(&self, resource: &DavResource) -> Seq<char> {
        if resource.is_container {
            self.base_path@ + resource.name@ + seq!['/']
        } else {
            self.base_path@ + resource.name@
        }
    }

    /// The position of the entry with path `name`.
    pub fn index_by_name(&self, name: &str) -> (r: Option<usize>)
        ensures
            r.is_some() == self.spec_name_index(name@, 0).is_some(),
            r.is_some() ==> r.unwrap() as int == self.spec_name_index(name@, 0).unwrap(),
            r.is_some() ==> r.unwrap() < self.paths@.len() && self.paths@[r.unwrap() as int].name@
                == name@,
    {
        let wanted = chars_of(name);
        let mut i: usize = 0;
        while i < self.paths.len()
            invariant
                i <= self.paths.len(),
                wanted@ == name@,
                self.spec_name_index(name@, 0) == self.spec_name_index(name@, i as int),
            decreases self.paths.len() - i,
        {
            let have = chars_of(self.paths[i].name.as_str());
            assert(have@.subrange(0, have@.len() as int) =~= have@);
            if same_chars(&have, 0, have.len(), &wanted) {
                return Some(i);
            }
            i += 1;
        }
        None
    }

    /// The position of the entry with document id `id`.
    pub fn index_by_id(&self, id: u32) -> (r: Option<usize>)
        ensures
            r.is_some() == self.spec_id_index(id, 0).is_some(),
            r.is_some() ==> r.unwrap() as int == self.spec_id_index(id, 0).unwrap(),
            r.is_some() ==> r.unwrap() < self.paths@.len() && self.paths@[r.unwrap() as int].document_id
                == id,
    {
        let mut i: usize = 0;
        while i < self.paths.len()
            invariant
                i <= self.paths.len(),
                self.spec_id_index(id, 0) == self.spec_id_index(id, i as int),
            decreases self.paths.len() - i,
        {
            if self.paths[i].document_id == id {
                return Some(i);
            }
            i += 1;
        }
        None
    }

    /// The entry with path `name`.
    pub fn by_name(&self, name: &str) -> (r: Option<&DavResource>)
        ensures
            r.is_some() == self.spec_by_name(name@).is_some(),
            r.is_some() ==> *r.unwrap() == self.spec_by_name(name@).unwrap(),
            r.is_some() ==> self.paths@.contains(*r.unwrap()) && r.unwrap().name@ == name@,
    {
        match self.index_by_name(name) {
            Some(i) => Some(&self.paths[i]),
            None => None,
        }
    }

    /// The entry with document id `id`.
    pub fn by_id(&self, id: u32) -> (r: Option<&DavResource>)
        ensures
            r.is_some() == self.spec_by_id(id).is_some(),
            r.is_some() ==> *r.unwrap() == self.spec_by_id(id).unwrap(),
            r.is_some() ==> self.paths@.contains(*r.unwrap()) && r.unwrap().document_id == id,
    {
        match self.index_by_id(id) {
            Some(i) => Some(&self.paths[i]),
            None => None,
        }
    }

    /// The positions of `root` and of every entry below it, ascending.
    pub fn subtree(&self, root: &str) -> (r: Vec<usize>)
        ensures
            r@ == self.spec_subtree(root@),
            forall|k: int| 0 <= k < r@.len() ==> (#[trigger] r@[k]) < self.paths@.len(),
            forall|i: int|
                0 <= i < self.paths@.len() ==> (r@.contains(i as usize) <==> in_subtree(
                    (#[trigger] self.paths@[i]).name@,
                    root@,
                )),
    {
        let total = self.paths.len();
        proof {
            let keep = |r: DavResource| in_subtree(r.name@, root@);
            assert(self.paths@.len() == total);
            lemma_select(self.paths@, keep, self.paths@.len() as int);
            let picked = self.spec_subtree(root@);
            assert forall|i: int| 0 <= i < self.paths@.len() implies (picked.contains(i as usize)
                <==> in_subtree((#[trigger] self.paths@[i]).name@, root@)) by {
                if picked.contains(i as usize) {
                    let k = choose|k: int| 0 <= k < picked.len() && picked[k] == i as usize;
                    assert(keep(self.paths@[picked[k] as int]));
                }
            }
        }
        let wanted = chars_of(root);
        let mut out: Vec<usize> = Vec::new();
        let ghost keep = |r: DavResource| in_subtree(r.name@, root@);
        let mut i: usize = 0;
        while i < self.paths.len()
            invariant
                i <= self.paths.len(),
                wanted@ == root@,
                keep == (|r: DavResource| in_subtree(r.name@, root@)),
                out@ == select(self.paths@, keep, i as int),
                forall|k: int| 0 <= k < out@.len() ==> (#[trigger] out@[k]) < i,
            decreases self.paths.len() - i,
        {
            let have = chars_of(self.paths[i].name.as_str());
            if path_in_subtree(&have, &wanted) {
                out.push(i);
            }
            i += 1;
        }
        out
    }

    /// The positions of `root` and of every entry at most `depth` levels
    /// below it, ascending.
    pub fn subtree_with_depth(&self, root: &str, depth: usize) -> (r: Vec<usize>)
        ensures
            r@ == self.spec_subtree_with_depth(root@, depth as nat),
            forall|k: int| 0 <= k < r@.len() ==> (#[trigger] r@[k]) < self.paths@.len(),
    {
        let wanted = chars_of(root);
        let mut out: Vec<usize> = Vec::new();
        let ghost keep = |r: DavResource|
            in_subtree(r.name@, root@) && level_below(r.name@, root@) <= depth as nat;
        let mut i: usize = 0;
        while i < self.paths.len()
            invariant
                i <= self.paths.len(),
                wanted@ == root@,
                keep == (|r: DavResource|
                    in_subtree(r.name@, root@) && level_below(r.name@, root@) <= depth as nat),
                out@ == select(self.paths@, keep, i as int),
                forall|k: int| 0 <= k < out@.len() ==> (#[trigger] out@[k]) < i,
            decreases self.paths.len() - i,
        {
            let have = chars_of(self.paths[i].name.as_str());
            if path_in_subtree(&have, &wanted) && path_level(&have, &wanted) <= depth {
                out.push(i);
            }
            i += 1;
        }
        out
    }

    /// The positions of the entries whose parent is `parent_id`, ascending.
    pub fn children(&self, parent_id: u32) -> (r: Vec<usize>)
        ensures
            r@ == self.spec_children(parent_id),
            forall|k: int| 0 <= k < r@.len() ==> (#[trigger] r@[k]) < self.paths@.len(),
            forall|i: int|
                0 <= i < self.paths@.len() ==> (r@.contains(i as usize) <==> (
                #[trigger] self.paths@[i]).parent_id == Some(parent_id)),
    {
        let total = self.paths.len();
        proof {
            let keep = |r: DavResource| r.parent_id == Some(parent_id);
            assert(self.paths@.len() == total);
            lemma_select(self.paths@, keep, self.paths@.len() as int);
            let picked = self.spec_children(parent_id);
            assert forall|i: int| 0 <= i < self.paths@.len() implies (picked.contains(i as usize)
                <==> (#[trigger] self.paths@[i]).parent_id == Some(parent_id)) by {
                if picked.contains(i as usize) {
                    let k = choose|k: int| 0 <= k < picked.len() && picked[k] == i as usize;
                    assert(keep(self.paths@[picked[k] as int]));
                }
            }
        }
        let mut out: Vec<usize> = Vec::new();
        let ghost keep = |r: DavResource| r.parent_id == Some(parent_id);
        let mut i: usize = 0;
        while i < self.paths.len()
            invariant
                i <= self.paths.len(),
                keep == (|r: DavResource| r.parent_id == Some(parent_id)),
                out@ == select(self.paths@, keep, i as int),
                forall|k: int| 0 <= k < out@.len() ==> (#[trigger] out@[k]) < i,
            decreases self.paths.len() - i,
        {
            let hit = match self.paths[i].parent_id {
                Some(p) => p == parent_id,
                None => false,
            };
            if hit {
                out.push(i);
            }
            i += 1;
        }
        out
    }

    /// Whether the entry `descendant` is the entry `ancestor` or lies below
    /// it.
    pub fn is_ancestor_of(&self, ancestor: u32, descendant: u32) -> (r: bool)
        ensures
            r == self.spec_is_ancestor_of(ancestor, descendant),
    {
        match (self.by_id(ancestor), self.by_id(descendant)) {
            (Some(a), Some(d)) => {
                let root = chars_of(a.name.as_str());
                let name = chars_of(d.name.as_str());
                path_in_subtree(&name, &root)
            },
            _ => false,
        }
    }

    /// The URI of an entry of this hierarchy.
    pub fn format_resource(&self, resource: &DavResource) -> (r: String)
        ensures
            r@ == self.spec_format_resource(resource),
    {
        let mut out = self.base_path.clone();
        out.append(resource.name.as_str());
        if resource.is_container {
            proof {
                reveal_strlit("/");
            }
            out.append("/");
            assert("/"@ =~= seq!['/']);
        }
        out
    }
}

/// Whether the path `name` is `root` or lies below it.
pub fn path_in_subtree(name: &Vec<char>, root: &Vec<char>) -> (r: bool)
    ensures
        r == in_subtree(name@, root@),
{
    if !has_at(name, 0, root) {
        proof {
            if name@ == root@ {
                assert(name@.subrange(0, root@.len() as int) =~= root@);
            }
        }
        return false;
    }
    if name.len() == root.len() {
        assert(name@ =~= name@.subrange(0, root@.len() as int));
        return true;
    }
    name[root.len()] == '/'
}

/// How many levels the path `name` lies below `root`.
pub fn path_level(name: &Vec<char>, root: &Vec<char>) -> (r: usize)
    ensures
        r as nat == level_below(name@, root@),
{
    if name.len() <= root.len() {
        return 0;
    }
    let ghost rest = name@.subrange(root@.len() as int, name@.len() as int);
    let mut n: usize = 0;
    let mut i: usize = root.len();
    assert(rest.take(0) =~= Seq::<char>::empty());
    while i < name.len()
        invariant
            root.len() <= i <= name.len(),
            rest == name@.subrange(root@.len() as int, name@.len() as int),
            n as nat == count_char(rest.take(i - root.len()), '/'),
            n <= i - root.len(),
        decreases name.len() - i,
    {
        assert(rest.take(i - root.len() + 1).drop_last() =~= rest.take(i - root.len()));
        assert(rest.take(i - root.len() + 1).last() == name@[i as int]);
        if name[i] == '/' {
            n += 1;
        }
        i += 1;
    }
    assert(rest.take(name.len() - root.len()) =~= rest);
    n
}

/// Where a path splits into the path of its parent and its last segment:
/// the position of its last `/`.
pub open spec fn parent_split(path: Seq<char>) -> Option<int> {
    rfind_char(path, '/')
}

/// The path of the parent of `path`, if `path` has more than one segment.
pub open spec fn parent_path(path: Seq<char>) -> Option<Seq<char>> {
    match parent_split(path) {
        Some(i) => Some(path.subrange(0, i)),
        None => None,
    }
}

/// The last segment of `path`.
pub open spec fn last_segment(path: Seq<char>) -> Seq<char> {
    match parent_split(path) {
        Some(i) => path.subrange(i + 1, path.len() as int),
        None => path,
    }
}

/// The last position of a character is one at which it stands.
pub proof fn lemma_rfind_bounds(s: Seq<char>, c: char)
    ensures
        rfind_char(s, c).is_some() ==> 0 <= rfind_char(s, c).unwrap() < s.len() && s[rfind_char(
            s,
            c,
        ).unwrap()] == c,
    decreases s.len(),
{
    if s.len() > 0 && s.last() != c {
        lemma_rfind_bounds(s.drop_last(), c);
    }
}

/// Splits `path` into the path of its parent, if it has one, and its last
/// segment.
pub fn split_parent(path: &str) -> (r: (Option<String>, String))
    ensures
        r.0.is_some() == parent_path(path@).is_some(),
        r.0.is_some() ==> r.0.unwrap()@ == parent_path(path@).unwrap(),
        r.1@ == last_segment(path@),
{
    let chars = chars_of(path);
    proof {
        lemma_rfind_bounds(chars@, '/');
    }
    match rfind(&chars, '/') {
        Some(i) => (Some(string_of(&chars, 0, i)), string_of(&chars, i + 1, chars.len())),
        None => {
            let whole = string_of(&chars, 0, chars.len());
            assert(chars@.subrange(0, chars@.len() as int) =~= chars@);
            (None, whole)
        },
    }
}

} // verus!

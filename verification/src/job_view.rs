//! A job's tree as the user interface shows it: rebuilt from what was written
//! down, not from MEGA.

use crate::text::{self, same_text, set_of};
use vstd::hash_set::StringHashSet;
use vstd::prelude::*;

verus! {

/// A node of a job, as it was written down.
#[derive(Debug, Clone, PartialEq, Eq)]
pub struct NodeRecord {
    pub handle: String,
    pub parent: Option<String>,
    pub kind: String,
    pub name: String,
    pub rel_path: String,
    pub size: i64,
}

/// A job's tree.
#[derive(Debug, Clone, PartialEq, Eq)]
pub struct JobTree {
    pub root_handle: String,
    pub root_name: String,
    pub total_files: i64,
    pub total_folders: i64,
    pub total_bytes: i64,
    pub nodes: Vec<NodeRecord>,
}

/// Whether a node is a file.
pub open spec fn is_file(node: NodeRecord) -> bool {
    node.kind@ == "file"@
}

/// Whether one of the nodes has a handle.
pub open spec fn has_handle(nodes: Seq<NodeRecord>, handle: Seq<char>) -> bool {
    exists|i: int| 0 <= i < nodes.len() && (#[trigger] nodes[i]).handle@ == handle
}

/// The parent of a node that is in the tree itself.
pub open spec fn parent_inside(nodes: Seq<NodeRecord>, node: NodeRecord) -> Option<Seq<char>> {
    match node.parent {
        Some(p) if has_handle(nodes, p@) => Some(p@),
        _ => None,
    }
}

/// How many of the nodes are files.
pub open spec fn file_count(nodes: Seq<NodeRecord>) -> int
    decreases nodes.len(),
{
    if nodes.len() == 0 {
        0
    } else {
        file_count(nodes.drop_last()) + if is_file(nodes.last()) {
            1int
        } else {
            0int
        }
    }
}

/// The size of all files.
pub open spec fn file_bytes(nodes: Seq<NodeRecord>) -> int
    decreases nodes.len(),
{
    if nodes.len() == 0 {
        0
    } else {
        file_bytes(nodes.drop_last()) + if is_file(nodes.last()) {
            nodes.last().size as int
        } else {
            0int
        }
    }
}

/// Whether the sizes add up within the range of a size.
pub open spec fn sizes_fit(nodes: Seq<NodeRecord>) -> bool {
    forall|k: int|
        0 <= k <= nodes.len() ==> i64::MIN <= #[trigger] file_bytes(nodes.take(k)) <= i64::MAX
}

/// Whether a node is a root: a folder with no parent in the tree.
pub open spec fn is_root(nodes: Seq<NodeRecord>, node: NodeRecord) -> bool {
    !is_file(node) && parent_inside(nodes, node) is None
}

/// The place of the root: the last node that is one.
pub open spec fn root_place(nodes: Seq<NodeRecord>, upto: int) -> Option<int>
    decreases upto,
{
    if upto <= 0 {
        None
    } else if is_root(nodes, nodes[upto - 1]) {
        Some(upto - 1)
    } else {
        root_place(nodes, upto - 1)
    }
}

/// Whether a node is shown as it was written down, without a parent outside
/// the tree.
pub open spec fn shows(nodes: Seq<NodeRecord>, record: NodeRecord, shown: NodeRecord) -> bool {
    &&& shown.handle@ == record.handle@
    &&& text::text_of(shown.parent) == parent_inside(nodes, record)
    &&& shown.kind@ == record.kind@
    &&& shown.name@ == record.name@
    &&& shown.rel_path@ == record.rel_path@
    &&& shown.size == record.size
}

/// Tests whether the sizes of a tree's files add up within range.
pub fn check_sizes(nodes: &Vec<NodeRecord>) -> (r: bool)
    ensures
        r == sizes_fit(nodes@),
{
    let mut sum: i64 = 0;
    assert(nodes@.take(0) =~= Seq::<NodeRecord>::empty());
    for i in 0..nodes.len()
        invariant
            sum == file_bytes(nodes@.take(i as int)),
            forall|k: int|
                0 <= k <= i ==> i64::MIN <= #[trigger] file_bytes(nodes@.take(k)) <= i64::MAX,
    {
        assert(nodes@.take(i + 1).drop_last() =~= nodes@.take(i as int));
        if same_text(nodes[i].kind.as_str(), "file") {
            match sum.checked_add(nodes[i].size) {
                Some(s) => sum = s,
                None => {
                    assert(!sizes_fit(nodes@)) by {
                        let t = file_bytes(nodes@.take(i + 1));
                        assert(!(i64::MIN <= t <= i64::MAX));
                    }
                    return false;
                },
            }
        }
    }
    true
}

fn handles_of(nodes: &Vec<NodeRecord>) -> (r: Vec<String>)
    ensures
        r@.len() == nodes@.len(),
        forall|i: int| 0 <= i < nodes@.len() ==> (#[trigger] r@[i])@ == nodes@[i].handle@,
{
    let mut handles: Vec<String> = Vec::new();
    for i in 0..nodes.len()
        invariant
            handles@.len() == i,
            forall|j: int| 0 <= j < i ==> (#[trigger] handles@[j])@ == nodes@[j].handle@,
    {
        handles.push(nodes[i].handle.clone());
    }
    handles
}

/// Rebuilds a job's tree with its totals and its root.
pub fn job_tree(nodes: &Vec<NodeRecord>) -> (r: JobTree)
    requires
        sizes_fit(nodes@),
        nodes@.len() <= i64::MAX,
    ensures
        r.nodes@.len() == nodes@.len(),
        forall|i: int|
            0 <= i < nodes@.len() ==> shows(nodes@, nodes@[i], #[trigger] r.nodes@[i]),
        forall|i: int|
            0 <= i < nodes@.len() ==> {
                let shown = #[trigger] r.nodes@[i];
                &&& shown.handle@ == nodes@[i].handle@
                &&& shown.kind@ == nodes@[i].kind@
                &&& shown.name@ == nodes@[i].name@
                &&& shown.rel_path@ == nodes@[i].rel_path@
                &&& shown.size == nodes@[i].size
            },
        r.total_files == file_count(nodes@),
        r.total_folders == nodes@.len() - file_count(nodes@),
        r.total_bytes == file_bytes(nodes@),
        match root_place(nodes@, nodes@.len() as int) {
            Some(k) => r.root_handle@ == nodes@[k].handle@ && r.root_name@ == nodes@[k].name@,
            None => r.root_handle@.len() == 0 && r.root_name@ == "(root)"@,
        },
{
    let list = handles_of(nodes);
    let handles = set_of(&list);
    assert forall|h: Seq<char>| #[trigger] handles@.contains(h) <==> has_handle(nodes@, h) by {
        if handles@.contains(h) {
            let i = choose|i: int| 0 <= i < list@.len() && (#[trigger] list@[i])@ == h;
            assert(nodes@[i].handle@ == h);
        }
        if has_handle(nodes@, h) {
            let i = choose|i: int| 0 <= i < nodes@.len() && (#[trigger] nodes@[i]).handle@ == h;
            assert(list@[i]@ == h);
        }
    }
    let mut shown: Vec<NodeRecord> = Vec::new();
    let mut total_files: i64 = 0;
    let mut total_folders: i64 = 0;
    let mut total_bytes: i64 = 0;
    let mut root_handle = String::new();
    let mut root_name = "(root)".to_owned();
    assert(root_handle@.len() == 0);
    assert(nodes@.take(0) =~= Seq::<NodeRecord>::empty());
    for i in 0..nodes.len()
        invariant
            sizes_fit(nodes@),
            nodes@.len() <= i64::MAX,
            forall|h: Seq<char>| #[trigger] handles@.contains(h) <==> has_handle(nodes@, h),
            shown@.len() == i,
            forall|j: int| 0 <= j < i ==> shows(nodes@, nodes@[j], #[trigger] shown@[j]),
            total_files == file_count(nodes@.take(i as int)),
            0 <= total_files <= i,
            total_folders == i - total_files,
            total_bytes == file_bytes(nodes@.take(i as int)),
            match root_place(nodes@, i as int) {
                Some(k) => root_handle@ == nodes@[k].handle@ && root_name@ == nodes@[k].name@,
                None => root_handle@.len() == 0 && root_name@ == "(root)"@,
            },
    {
        let node = &nodes[i];
        assert(nodes@.take(i + 1).drop_last() =~= nodes@.take(i as int));
        let ghost t = file_bytes(nodes@.take(i + 1));
        assert(i64::MIN <= t <= i64::MAX);
        let parent = match &node.parent {
            Some(p) => if handles.contains(p.as_str()) {
                Some(p.clone())
            } else {
                None
            },
            None => None,
        };
        assert(text::text_of(parent) == parent_inside(nodes@, nodes@[i as int]));
        if same_text(node.kind.as_str(), "file") {
            total_files = total_files + 1;
            total_bytes = total_bytes + node.size;
        } else {
            total_folders = total_folders + 1;
            if parent.is_none() {
                root_handle = node.handle.clone();
                root_name = node.name.clone();
            }
        }
        shown.push(
            NodeRecord {
                handle: node.handle.clone(),
                parent,
                kind: node.kind.clone(),
                name: node.name.clone(),
                rel_path: node.rel_path.clone(),
                size: node.size,
            },
        );
    }
    assert(nodes@.take(nodes@.len() as int) =~= nodes@);
    JobTree { root_handle, root_name, total_files, total_folders, total_bytes, nodes: shown }
}

// ---------------------------------------------------------------------------
// Transfers
// ---------------------------------------------------------------------------

/// How far a file's transfer is.
#[derive(Debug, Clone, PartialEq, Eq)]
pub struct TransferState {
    pub handle: String,
    pub bytes_done: i64,
    pub bytes_total: i64,
    pub status: String,
}

/// Whether two states say the same.
pub open spec fn same_state(a: TransferState, b: TransferState) -> bool {
    &&& a.handle@ == b.handle@
    &&& a.bytes_done == b.bytes_done
    &&& a.bytes_total == b.bytes_total
    &&& a.status@ == b.status@
}

/// Whether the `k`th row is the last one for its file.
pub open spec fn is_latest(rows: Seq<TransferState>, k: int) -> bool {
    &&& 0 <= k < rows.len()
    &&& forall|j: int| k < j < rows.len() ==> (#[trigger] rows[j]).handle@ != rows[k].handle@
}

/// Whether a state is that of the last row for its file, at or behind `from`.
pub open spec fn latest_from(rows: Seq<TransferState>, from: int, t: TransferState) -> bool {
    exists|k: int| k >= from && #[trigger] is_latest(rows, k) && same_state(t, rows[k])
}

/// Whether a state is in a list.
pub open spec fn has_state(list: Seq<TransferState>, t: TransferState) -> bool {
    exists|m: int| 0 <= m < list.len() && same_state(#[trigger] list[m], t)
}

/// Whether one of the rows at or behind `from` is for a file.
pub open spec fn occurs_from(rows: Seq<TransferState>, from: int, handle: Seq<char>) -> bool {
    exists|j: int| from <= j < rows.len() && (#[trigger] rows[j]).handle@ == handle
}

/// The state of each file: where a file has several rows, the last one counts.
pub fn latest_transfers(rows: &Vec<TransferState>) -> (r: Vec<TransferState>)
    ensures
        forall|m: int| 0 <= m < r@.len() ==> latest_from(rows@, 0, #[trigger] r@[m]),
        forall|k: int| #[trigger] is_latest(rows@, k) ==> has_state(r@, rows@[k]),
        forall|m: int, n: int|
            0 <= m < n < r@.len() ==> (#[trigger] r@[m]).handle@ != (#[trigger] r@[n]).handle@,
{
    let mut out: Vec<TransferState> = Vec::new();
    let mut seen = StringHashSet::new();
    let mut i: usize = rows.len();
    while i > 0
        invariant
            i <= rows@.len(),
            forall|h: Seq<char>| #[trigger]
                seen@.contains(h) <==> occurs_from(rows@, i as int, h),
            forall|m: int| 0 <= m < out@.len() ==> latest_from(rows@, i as int, #[trigger] out@[m]),
            forall|k: int| k >= i && #[trigger] is_latest(rows@, k) ==> has_state(out@, rows@[k]),
            forall|m: int, n: int|
                0 <= m < n < out@.len() ==> (#[trigger] out@[m]).handle@ != (
                #[trigger] out@[n]).handle@,
        decreases i,
    {
        i = i - 1;
        let row = &rows[i];
        let ghost before = out@;
        let ghost seen_before = seen@;
        let fresh = seen.insert(row.handle.clone());
        proof {
            occurs_one_before(rows@, i as int);
            latest_or_occurs(rows@, i as int);
        }
        if fresh {
            let state = TransferState {
                handle: row.handle.clone(),
                bytes_done: row.bytes_done,
                bytes_total: row.bytes_total,
                status: row.status.clone(),
            };
            out.push(state);
            assert(same_state(out@[out@.len() - 1], rows@[i as int]));
            assert(latest_from(rows@, i as int, state));
            assert forall|m: int| 0 <= m < before.len() implies (
            #[trigger] out@[m]).handle@ != state.handle@ by {
                assert(latest_from(rows@, i + 1, before[m]));
                let k = choose|k: int|
                    k >= i + 1 && #[trigger] is_latest(rows@, k) && same_state(before[m], rows@[k]);
                assert(occurs_from(rows@, i + 1, rows@[k].handle@));
                assert(seen_before.contains(rows@[k].handle@));
            }
        }
        assert forall|m: int| 0 <= m < out@.len() implies latest_from(
            rows@,
            i as int,
            #[trigger] out@[m],
        ) by {
            if m < before.len() {
                assert(latest_from(rows@, i + 1, before[m]));
            }
        }
        assert forall|k: int| k >= i && #[trigger] is_latest(rows@, k) implies has_state(
            out@,
            rows@[k],
        ) by {
            if k > i {
                assert(has_state(before, rows@[k]));
                let m = choose|m: int|
                    0 <= m < before.len() && same_state(#[trigger] before[m], rows@[k]);
                assert(same_state(out@[m], rows@[k]));
            }
        }
    }
    out
}

/// What occurs from one row earlier on.
proof fn occurs_one_before(rows: Seq<TransferState>, i: int)
    requires
        0 <= i < rows.len(),
    ensures
        forall|h: Seq<char>| #[trigger]
            occurs_from(rows, i, h) <==> h == rows[i].handle@ || occurs_from(rows, i + 1, h),
{
    assert forall|h: Seq<char>| #[trigger]
        occurs_from(rows, i, h) <==> h == rows[i].handle@ || occurs_from(rows, i + 1, h) by {
        if h == rows[i].handle@ {
            assert(rows[i].handle@ == h);
        }
        if occurs_from(rows, i, h) {
            let j = choose|j: int| i <= j < rows.len() && (#[trigger] rows[j]).handle@ == h;
            if j > i {
                assert(rows[j].handle@ == h);
            }
        }
    }
}

/// A row is the last one for its file unless the file occurs behind it.
proof fn latest_or_occurs(rows: Seq<TransferState>, i: int)
    requires
        0 <= i < rows.len(),
    ensures
        is_latest(rows, i) <==> !occurs_from(rows, i + 1, rows[i].handle@),
{
    if !is_latest(rows, i) {
        let j = choose|j: int|
            i < j < rows.len() && (#[trigger] rows[j]).handle@ == rows[i].handle@;
        assert(rows[j].handle@ == rows[i].handle@);
    }
}

// ---------------------------------------------------------------------------
// Laws
// ---------------------------------------------------------------------------

/// A tree is closed: every parent that is shown is the handle of a node that
/// is shown.
pub proof fn shown_parents_are_shown(
    nodes: Seq<NodeRecord>,
    shown: Seq<NodeRecord>,
    i: int,
    parent: Seq<char>,
)
    requires
        shown.len() == nodes.len(),
        forall|k: int| 0 <= k < nodes.len() ==> shows(nodes, nodes[k], #[trigger] shown[k]),
        0 <= i < shown.len(),
        text::text_of(shown[i].parent) == Some(parent),
    ensures
        has_handle(shown, parent),
{
    assert(shows(nodes, nodes[i], shown[i]));
    let k = choose|k: int| 0 <= k < nodes.len() && (#[trigger] nodes[k]).handle@ == parent;
    assert(shows(nodes, nodes[k], shown[k]));
    assert(shown[k].handle@ == parent);
}

/// The root is the last folder whose parent is not in the tree.
pub proof fn root_is_the_last_one(nodes: Seq<NodeRecord>, upto: int)
    requires
        0 <= upto <= nodes.len(),
    ensures
        match root_place(nodes, upto) {
            Some(k) => 0 <= k < upto && is_root(nodes, nodes[k]) && forall|j: int|
                k < j < upto ==> !is_root(nodes, #[trigger] nodes[j]),
            None => forall|j: int| 0 <= j < upto ==> !is_root(nodes, #[trigger] nodes[j]),
        },
    decreases upto,
{
    if upto > 0 {
        root_is_the_last_one(nodes, upto - 1);
    }
}

/// A parent is shown exactly if a node of the tree has its handle.
pub proof fn parents_inside_the_tree_are_kept(nodes: Seq<NodeRecord>, node: NodeRecord, i: int)
    requires
        0 <= i < nodes.len(),
    ensures
        node.parent is None ==> parent_inside(nodes, node) is None,
        node.parent matches Some(p) ==> {
            &&& p@ == nodes[i].handle@ ==> parent_inside(nodes, node) == Some(p@)
            &&& (forall|j: int| 0 <= j < nodes.len() ==> (#[trigger] nodes[j]).handle@ != p@)
                ==> parent_inside(nodes, node) is None
        },
{
}

/// What is shown of a node is all of it, but for a parent outside the tree.
pub proof fn nodes_are_shown_in_full(
    nodes: Seq<NodeRecord>,
    record: NodeRecord,
    shown: NodeRecord,
)
    requires
        shows(nodes, record, shown),
    ensures
        shown.handle@ == record.handle@,
        shown.kind@ == record.kind@,
        shown.name@ == record.name@,
        shown.rel_path@ == record.rel_path@,
        shown.size == record.size,
        shown.parent is None ==> parent_inside(nodes, record) is None,
        shown.parent matches Some(p) ==> parent_inside(nodes, record) == Some(p@),
{
}

/// Files are counted one by one, each with its whole size, and folders neither
/// count as files nor add to the size.
pub proof fn totals_add_up(a: Seq<NodeRecord>, b: Seq<NodeRecord>, node: NodeRecord)
    ensures
        file_count(a + b) == file_count(a) + file_count(b),
        file_bytes(a + b) == file_bytes(a) + file_bytes(b),
        node.kind@ == "file"@ ==> file_count(seq![node]) == 1 && file_bytes(seq![node])
            == node.size,
        node.kind@ != "file"@ ==> file_count(seq![node]) == 0 && file_bytes(seq![node]) == 0,
    decreases b.len(),
{
    let one = seq![node];
    assert(one.drop_last() =~= Seq::<NodeRecord>::empty());
    assert(file_count(one.drop_last()) == 0 && file_bytes(one.drop_last()) == 0);
    if b.len() == 0 {
        assert(a + b =~= a);
    } else {
        totals_add_up(a, b.drop_last(), node);
        assert((a + b).drop_last() =~= a + b.drop_last());
    }
}

/// A root is a folder, and its parent is not in the tree; a file never is one.
pub proof fn roots_are_folders_without_a_parent(nodes: Seq<NodeRecord>, node: NodeRecord)
    ensures
        is_root(nodes, node) <==> node.kind@ != "file"@ && (node.parent is None || forall|j: int|
            0 <= j < nodes.len() ==> (#[trigger] nodes[j]).handle@ != node.parent->0@),
{
}

/// Trees of ordinary files always fit: sizes that are not negative and whose sum
/// is in range are accepted.
pub proof fn ordinary_sizes_fit(nodes: Seq<NodeRecord>)
    requires
        forall|i: int| 0 <= i < nodes.len() ==> (#[trigger] nodes[i]).size >= 0,
        file_bytes(nodes) <= i64::MAX,
    ensures
        sizes_fit(nodes),
{
    assert forall|k: int| 0 <= k <= nodes.len() implies i64::MIN <= #[trigger] file_bytes(
        nodes.take(k),
    ) <= i64::MAX by {
        let a = nodes.take(k);
        let b = nodes.skip(k);
        assert(a + b =~= nodes);
        if nodes.len() > 0 {
            totals_add_up(a, b, nodes[0]);
            sizes_not_negative(a);
            sizes_not_negative(b);
        } else {
            assert(a =~= nodes);
        }
    }
}

proof fn sizes_not_negative(nodes: Seq<NodeRecord>)
    requires
        forall|i: int| 0 <= i < nodes.len() ==> (#[trigger] nodes[i]).size >= 0,
    ensures
        file_bytes(nodes) >= 0,
    decreases nodes.len(),
{
    if nodes.len() > 0 {
        assert(nodes[nodes.len() - 1].size >= 0);
        let t = nodes.drop_last();
        assert forall|i: int| 0 <= i < t.len() implies (#[trigger] t[i]).size >= 0 by {
            assert(nodes[i].size >= 0);
        }
        sizes_not_negative(t);
    }
}

/// The last row of a file is the one that counts, and it counts in full.
pub proof fn the_last_row_counts_in_full(rows: Seq<TransferState>, k: int, t: TransferState)
    ensures
        is_latest(rows, k) <==> 0 <= k < rows.len() && forall|j: int|
            k < j < rows.len() ==> (#[trigger] rows[j]).handle@ != rows[k].handle@,
        same_state(t, rows[k]) <==> t.handle@ == rows[k].handle@ && t.bytes_done
            == rows[k].bytes_done && t.bytes_total == rows[k].bytes_total && t.status@
            == rows[k].status@,
{
}

} // verus!

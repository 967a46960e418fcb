//! A job: a shared folder's tree, written down with one transfer per selected
//! file, so that it survives a restart.

use crate::downloader::Downloader;
use crate::error::Error;
use crate::events::{EngineEvent, EventView};
use crate::ids::{self, new_id, new_ids};
use crate::task::{self, copy_key};
use crate::text::{self, set_of};
use vstd::prelude::*;

verus! {

/// What a node of a tree is.
#[derive(Debug, Clone, Copy, PartialEq, Eq, Structural)]
pub enum NodeKind {
    File,
    Folder,
}

/// A node of a shared folder's tree.
#[derive(Debug, Clone, PartialEq, Eq)]
pub struct Node {
    pub handle: String,
    pub parent: Option<String>,
    pub kind: NodeKind,
    pub name: String,
    pub rel_path: String,
    pub size: i64,
    pub file_key: Option<Vec<u8>>,
}

/// A shared folder's tree.
#[derive(Debug, Clone, PartialEq, Eq)]
pub struct Tree {
    pub root_name: String,
    pub total_files: i64,
    pub total_bytes: i64,
    pub nodes: Vec<Node>,
}

/// A MEGA link, taken apart.
#[derive(Debug, Clone, PartialEq, Eq)]
pub enum MegaLink {
    Folder { id: String, key: String },
    File { id: String, key: String },
}

// ---------------------------------------------------------------------------
// Rows
// ---------------------------------------------------------------------------

/// A row of the `jobs` table.
#[derive(Debug, Clone, PartialEq, Eq)]
pub struct JobRow {
    pub id: String,
    pub link: String,
    pub kind: String,
    pub root_path: String,
    pub transport: String,
    pub status: String,
}

/// A row of the `nodes` table.
#[derive(Debug, Clone, PartialEq, Eq)]
pub struct NodeRow {
    pub id: String,
    pub job_id: String,
    pub parent_handle: Option<String>,
    pub handle: String,
    pub kind: String,
    pub name: String,
    pub rel_path: String,
    pub size: i64,
    pub file_key: Option<Vec<u8>>,
}

/// A row of the `transfers` table.
#[derive(Debug, Clone, PartialEq, Eq)]
pub struct TransferRow {
    pub id: String,
    pub node_id: String,
    pub status: String,
    pub bytes_total: i64,
}

/// All that is written down for a new job (in one transaction, so that a crash
/// cannot leave a part of it), and the event that tells of it.
#[derive(Debug, Clone, PartialEq, Eq)]
pub struct JobPlan {
    pub job: JobRow,
    pub nodes: Vec<NodeRow>,
    pub transfers: Vec<TransferRow>,
    pub event: EngineEvent,
}

/// How the kind of a node is written down.
pub open spec fn kind_text(kind: NodeKind) -> Seq<char> {
    match kind {
        NodeKind::File => "file"@,
        NodeKind::Folder => "folder"@,
    }
}

/// Whether a row is that of a job for a link with this destination.
pub open spec fn is_job_row(
    row: JobRow,
    id: Seq<char>,
    link: Seq<char>,
    root_path: Seq<char>,
) -> bool {
    &&& row.id@ == id
    &&& row.link@ == link
    &&& row.kind@ == "folder"@
    &&& row.root_path@ == root_path
    &&& row.transport@ == "realdebrid"@
    &&& row.status@ == "downloading"@
}

/// Whether a row is that of a node of a job.
pub open spec fn is_node_row(row: NodeRow, id: Seq<char>, job_id: Seq<char>, node: Node) -> bool {
    &&& row.id@ == id
    &&& row.job_id@ == job_id
    &&& text::text_of(row.parent_handle) == text::text_of(node.parent)
    &&& row.handle@ == node.handle@
    &&& row.kind@ == kind_text(node.kind)
    &&& row.name@ == node.name@
    &&& row.rel_path@ == node.rel_path@
    &&& row.size == node.size
    &&& task::bytes_view(row.file_key) == task::bytes_view(node.file_key)
}

/// Whether a row is that of the transfer for a node.
pub open spec fn is_transfer_row(row: TransferRow, id: Seq<char>, node_id: Seq<char>, size: i64) ->
    bool {
    &&& row.id@ == id
    &&& row.node_id@ == node_id
    &&& row.status@ == "queued"@
    &&& row.bytes_total == size
}

// ---------------------------------------------------------------------------
// Selecting files
// ---------------------------------------------------------------------------

/// Whether a list of handles, where there is one, names a handle.
pub open spec fn included(wanted: Option<Vec<String>>, handle: Seq<char>) -> bool {
    match wanted {
        Some(list) => exists|i: int| 0 <= i < list@.len() && (#[trigger] list@[i])@ == handle,
        None => true,
    }
}

/// Whether a node gets a transfer: it is a file, and is not left out.
pub open spec fn is_selected(node: Node, wanted: Option<Vec<String>>) -> bool {
    node.kind == NodeKind::File && included(wanted, node.handle@)
}

/// The places of the nodes that get a transfer.
pub open spec fn selected_places(nodes: Seq<Node>, wanted: Option<Vec<String>>) -> Seq<int>
    decreases nodes.len(),
{
    if nodes.len() == 0 {
        Seq::empty()
    } else {
        let before = selected_places(nodes.drop_last(), wanted);
        if is_selected(nodes.last(), wanted) {
            before.push(nodes.len() - 1)
        } else {
            before
        }
    }
}

/// Finds the nodes that get a transfer.
pub fn select_files(nodes: &Vec<Node>, wanted: &Option<Vec<String>>) -> (r: Vec<usize>)
    ensures
        r@.map_values(|i: usize| i as int) == selected_places(nodes@, *wanted),
        forall|k: int| 0 <= k < r@.len() ==> (#[trigger] r@[k]) < nodes@.len(),
        wanted is None ==> forall|i: usize|
            i < nodes@.len() ==> (#[trigger] r@.contains(i) <==> nodes@[i as int].kind
                == NodeKind::File),
        wanted matches Some(list) ==> forall|i: usize|
            i < nodes@.len() ==> (#[trigger] r@.contains(i) <==> nodes@[i as int].kind
                == NodeKind::File && exists|j: int|
                0 <= j < list@.len() && (#[trigger] list@[j])@ == nodes@[i as int].handle@),
{
    let handles = match wanted {
        Some(list) => Some(set_of(list)),
        None => None,
    };
    let mut places: Vec<usize> = Vec::new();
    assert(nodes@.take(0) =~= Seq::<Node>::empty());
    for i in 0..nodes.len()
        invariant
            places@.map_values(|i: usize| i as int) == selected_places(
                nodes@.take(i as int),
                *wanted,
            ),
            forall|k: int| 0 <= k < places@.len() ==> (#[trigger] places@[k]) < i,
            handles is Some <==> wanted is Some,
            handles matches Some(set) ==> forall|t: Seq<char>| #[trigger]
                set@.contains(t) <==> included(*wanted, t),
    {
        assert(nodes@.take(i + 1).drop_last() =~= nodes@.take(i as int));
        let is_file = match nodes[i].kind {
            NodeKind::File => true,
            NodeKind::Folder => false,
        };
        let named = match &handles {
            Some(set) => set.contains(nodes[i].handle.as_str()),
            None => true,
        };
        if is_file && named {
            let ghost before = places@;
            places.push(i);
            assert(places@.map_values(|i: usize| i as int) =~= before.map_values(
                |i: usize| i as int,
            ).push(i as int));
        }
    }
    assert(nodes@.take(nodes@.len() as int) =~= nodes@);
    proof {
        let spots = selected_places(nodes@, *wanted);
        assert forall|i: usize| i < nodes@.len() implies (#[trigger] places@.contains(i)
            <==> spots.contains(i as int)) by {
            if places@.contains(i) {
                let k = choose|k: int| 0 <= k < places@.len() && places@[k] == i;
                assert(spots[k] == i as int);
            }
            if spots.contains(i as int) {
                let k = choose|k: int| 0 <= k < spots.len() && spots[k] == i as int;
                assert(places@[k] == i);
            }
        }
        assert forall|i: int| 0 <= i < nodes@.len() implies (spots.contains(i) <==> is_selected(
            #[trigger] nodes@[i],
            *wanted,
        )) by {
            every_file_gets_a_transfer(nodes@, *wanted);
        }
    }
    places
}

// ---------------------------------------------------------------------------
// Creating a job
// ---------------------------------------------------------------------------

/// Whether a plan writes down a tree with these ids: the job, all of its
/// nodes, and one queued transfer per selected file.
pub open spec fn is_plan(
    plan: JobPlan,
    job_id: Seq<char>,
    node_ids: Seq<Seq<char>>,
    transfer_ids: Seq<Seq<char>>,
    link: Seq<char>,
    root_path: Seq<char>,
    tree: Tree,
    wanted: Option<Vec<String>>,
) -> bool {
    let places = selected_places(tree.nodes@, wanted);
    &&& is_job_row(plan.job, job_id, link, root_path)
    &&& plan.nodes@.len() == tree.nodes@.len()
    &&& forall|i: int|
        0 <= i < tree.nodes@.len() ==> is_node_row(
            #[trigger] plan.nodes@[i],
            node_ids[i],
            job_id,
            tree.nodes@[i],
        )
    &&& plan.transfers@.len() == places.len()
    &&& forall|k: int|
        0 <= k < places.len() ==> is_transfer_row(
            #[trigger] plan.transfers@[k],
            transfer_ids[k],
            node_ids[places[k]],
            tree.nodes@[places[k]].size,
        )
    &&& plan.event@ == (EventView::JobCreated {
        job_id,
        root_name: tree.root_name@,
        total_files: tree.total_files,
        total_bytes: tree.total_bytes,
    })
}

fn node_row(id: &str, job_id: &str, node: &Node) -> (r: NodeRow)
    ensures
        is_node_row(r, id@, job_id@, *node),
{
    let kind = match node.kind {
        NodeKind::File => "file",
        NodeKind::Folder => "folder",
    };
    NodeRow {
        id: id.to_owned(),
        job_id: job_id.to_owned(),
        parent_handle: node.parent.clone(),
        handle: node.handle.clone(),
        kind: kind.to_owned(),
        name: node.name.clone(),
        rel_path: node.rel_path.clone(),
        size: node.size,
        file_key: copy_key(&node.file_key),
    }
}

/// Plans a job with given ids.
pub fn plan_job(
    job_id: &str,
    node_ids: &Vec<String>,
    transfer_ids: &Vec<String>,
    link: &str,
    root_path: &str,
    tree: &Tree,
    wanted: &Option<Vec<String>>,
) -> (r: JobPlan)
    requires
        node_ids@.len() == tree.nodes@.len(),
        transfer_ids@.len() == selected_places(tree.nodes@, *wanted).len(),
    ensures
        is_plan(
            r,
            job_id@,
            text::texts_of(node_ids@),
            text::texts_of(transfer_ids@),
            link@,
            root_path@,
            *tree,
            *wanted,
        ),
{
    let job = JobRow {
        id: job_id.to_owned(),
        link: link.to_owned(),
        kind: "folder".to_owned(),
        root_path: root_path.to_owned(),
        transport: "realdebrid".to_owned(),
        status: "downloading".to_owned(),
    };
    let mut nodes: Vec<NodeRow> = Vec::new();
    for i in 0..tree.nodes.len()
        invariant
            node_ids@.len() == tree.nodes@.len(),
            nodes@.len() == i,
            forall|j: int|
                0 <= j < i ==> is_node_row(
                    #[trigger] nodes@[j],
                    text::texts_of(node_ids@)[j],
                    job_id@,
                    tree.nodes@[j],
                ),
    {
        nodes.push(node_row(node_ids[i].as_str(), job_id, &tree.nodes[i]));
    }
    let places = select_files(&tree.nodes, wanted);
    let ghost spots = selected_places(tree.nodes@, *wanted);
    assert(places@.len() == spots.len());
    let mut transfers: Vec<TransferRow> = Vec::new();
    for k in 0..places.len()
        invariant
            node_ids@.len() == tree.nodes@.len(),
            transfer_ids@.len() == places@.len(),
            spots == places@.map_values(|i: usize| i as int),
            forall|k: int| 0 <= k < places@.len() ==> (#[trigger] places@[k]) < tree.nodes@.len(),
            transfers@.len() == k,
            forall|j: int|
                0 <= j < k ==> is_transfer_row(
                    #[trigger] transfers@[j],
                    text::texts_of(transfer_ids@)[j],
                    text::texts_of(node_ids@)[spots[j]],
                    tree.nodes@[spots[j]].size,
                ),
    {
        let i = places[k];
        assert(spots[k as int] == i);
        transfers.push(
            TransferRow {
                id: transfer_ids[k].clone(),
                node_id: node_ids[i].clone(),
                status: "queued".to_owned(),
                bytes_total: tree.nodes[i].size,
            },
        );
    }
    let event = EngineEvent::JobCreated {
        job_id: job_id.to_owned(),
        root_name: tree.root_name.clone(),
        total_files: tree.total_files,
        total_bytes: tree.total_bytes,
    };
    JobPlan { job, nodes, transfers, event }
}

impl Downloader {
    /// Writes down a tree and creates one transfer per selected file, with new
    /// ids. `include_handles` optionally restricts which files get queued.
    pub fn create_job(
        &self,
        link_str: &str,
        tree: &Tree,
        include_handles: Option<Vec<String>>,
    ) -> (r: JobPlan)
        ensures
            exists|node_ids: Seq<Seq<char>>, transfer_ids: Seq<Seq<char>>| #[trigger]
                is_plan(
                    r,
                    r.job.id@,
                    node_ids,
                    transfer_ids,
                    link_str@,
                    self.dest_root@,
                    *tree,
                    include_handles,
                ),
            ids::is_random_id(r.job.id@),
            forall|i: int|
                0 <= i < r.nodes@.len() ==> ids::is_random_id((#[trigger] r.nodes@[i]).id@),
            forall|k: int|
                0 <= k < r.transfers@.len() ==> ids::is_random_id((#[trigger] r.transfers@[k]).id@),
    {
        let places = select_files(&tree.nodes, &include_handles);
        assert(places@.len() == selected_places(tree.nodes@, include_handles).len());
        let job_id = new_id();
        let node_ids = new_ids(tree.nodes.len());
        let transfer_ids = new_ids(places.len());
        plan_job(
            job_id.as_str(),
            &node_ids,
            &transfer_ids,
            link_str,
            self.dest_root.as_str(),
            tree,
            &include_handles,
        )
    }
}

/// The id and the key of the folder that a job's link points to.
pub fn folder_of(link: MegaLink) -> (r: Result<(String, String), Error>)
    ensures
        match link {
            MegaLink::Folder { id, key } => r == Ok::<(String, String), Error>((id, key)),
            MegaLink::File { .. } => r matches Err(Error::Other(m)) && m@
                == "job link is not a folder"@,
        },
{
    match link {
        MegaLink::Folder { id, key } => Ok((id, key)),
        MegaLink::File { .. } => Err(Error::Other("job link is not a folder".to_owned())),
    }
}

// ---------------------------------------------------------------------------
// Laws
// ---------------------------------------------------------------------------

/// Selected places are places of selected nodes, in order, and none is
/// missed.
pub proof fn selected_places_are_right(nodes: Seq<Node>, wanted: Option<Vec<String>>)
    ensures
        ({
            let p = selected_places(nodes, wanted);
            &&& forall|k: int|
                0 <= k < p.len() ==> 0 <= #[trigger] p[k] < nodes.len() && is_selected(
                    nodes[p[k]],
                    wanted,
                )
            &&& forall|j: int, k: int| 0 <= j < k < p.len() ==> #[trigger] p[j] < #[trigger] p[k]
            &&& forall|i: int|
                0 <= i < nodes.len() && is_selected(#[trigger] nodes[i], wanted) ==> p.contains(i)
        }),
    decreases nodes.len(),
{
    if nodes.len() > 0 {
        let front = nodes.drop_last();
        selected_places_are_right(front, wanted);
        let before = selected_places(front, wanted);
        let p = selected_places(nodes, wanted);
        assert forall|k: int| 0 <= k < p.len() implies 0 <= #[trigger] p[k] < nodes.len()
            && is_selected(nodes[p[k]], wanted) by {
            if k < before.len() {
                assert(before[k] == p[k]);
                assert(front[before[k]] == nodes[p[k]]);
            }
        }
        assert forall|i: int| 0 <= i < nodes.len() && is_selected(
            #[trigger] nodes[i],
            wanted,
        ) implies p.contains(i) by {
            if i < front.len() {
                assert(front[i] == nodes[i]);
                assert(before.contains(i));
                let k = choose|k: int| 0 <= k < before.len() && before[k] == i;
                assert(p[k] == i);
            } else {
                assert(p[p.len() - 1] == i);
            }
        }
    }
}

/// A job covers the folder: without a restriction every file of the tree gets
/// a transfer, and nothing else does; with one, only files that it names do.
pub proof fn every_file_gets_a_transfer(nodes: Seq<Node>, wanted: Option<Vec<String>>)
    ensures
        wanted is None ==> forall|i: int|
            0 <= i < nodes.len() ==> (selected_places(nodes, wanted).contains(i) <==> (
            #[trigger] nodes[i]).kind == NodeKind::File),
        forall|i: int|
            0 <= i < nodes.len() ==> (selected_places(nodes, wanted).contains(i) <==> is_selected(
                #[trigger] nodes[i],
                wanted,
            )),
{
    selected_places_are_right(nodes, wanted);
    let p = selected_places(nodes, wanted);
    assert forall|i: int| 0 <= i < nodes.len() implies (p.contains(i) <==> is_selected(
        #[trigger] nodes[i],
        wanted,
    )) by {
        if p.contains(i) {
            let k = choose|k: int| 0 <= k < p.len() && p[k] == i;
            assert(is_selected(nodes[p[k]], wanted));
        }
    }
}

/// A restriction is kept to the letter: a file is queued exactly if its handle
/// stands somewhere in the list, at whatever place; a folder never is. Without
/// a list every file is queued.
pub proof fn every_named_file_is_queued(nodes: Seq<Node>, wanted: Option<Vec<String>>, i: int)
    requires
        0 <= i < nodes.len(),
    ensures
        wanted is None ==> (selected_places(nodes, wanted).contains(i) <==> nodes[i].kind
            == NodeKind::File),
        wanted matches Some(list) ==> (selected_places(nodes, wanted).contains(i)
            <==> nodes[i].kind == NodeKind::File && exists|k: int|
            0 <= k < list@.len() && (#[trigger] list@[k])@ == nodes[i].handle@),
        nodes[i].kind == NodeKind::Folder ==> !selected_places(nodes, wanted).contains(i),
{
    every_file_gets_a_transfer(nodes, wanted);
    assert(selected_places(nodes, wanted).contains(i) <==> is_selected(nodes[i], wanted));
}

/// Each place is queued once, in the order of the tree.
pub proof fn files_are_queued_once_and_in_order(nodes: Seq<Node>, wanted: Option<Vec<String>>)
    ensures
        forall|j: int, k: int|
            0 <= j < k < selected_places(nodes, wanted).len() ==> 0 <= #[trigger] selected_places(
                nodes,
                wanted,
            )[j] < #[trigger] selected_places(nodes, wanted)[k] < nodes.len(),
        selected_places(nodes, wanted).len() <= nodes.len(),
{
    selected_places_are_right(nodes, wanted);
    let p = selected_places(nodes, wanted);
    if p.len() > 0 {
        places_spread(p, p.len() - 1);
    }
}

proof fn places_spread(p: Seq<int>, k: int)
    requires
        0 <= k < p.len(),
        forall|i: int| 0 <= i < p.len() ==> 0 <= #[trigger] p[i],
        forall|i: int, j: int| 0 <= i < j < p.len() ==> #[trigger] p[i] < #[trigger] p[j],
    ensures
        p[k] >= k,
    decreases k,
{
    if k > 0 {
        places_spread(p, k - 1);
        assert(p[k - 1] < p[k]);
    }
}

/// A plan leaves nothing out: the job's row, every node with all that is known
/// of it, and for each selected file one transfer that is queued, belongs to
/// that file's node and has its size.
pub proof fn plans_leave_nothing_out(
    plan: JobPlan,
    job_id: Seq<char>,
    node_ids: Seq<Seq<char>>,
    transfer_ids: Seq<Seq<char>>,
    link: Seq<char>,
    root_path: Seq<char>,
    tree: Tree,
    wanted: Option<Vec<String>>,
)
    requires
        is_plan(plan, job_id, node_ids, transfer_ids, link, root_path, tree, wanted),
    ensures
        plan.job.id@ == job_id,
        plan.job.link@ == link,
        plan.job.root_path@ == root_path,
        plan.job.kind@ == "folder"@,
        plan.job.transport@ == "realdebrid"@,
        plan.job.status@ == "downloading"@,
        plan.nodes@.len() == tree.nodes@.len(),
        forall|i: int|
            0 <= i < tree.nodes@.len() ==> {
                let row = #[trigger] plan.nodes@[i];
                let node = tree.nodes@[i];
                &&& row.id@ == node_ids[i]
                &&& row.job_id@ == job_id
                &&& row.handle@ == node.handle@
                &&& row.name@ == node.name@
                &&& row.rel_path@ == node.rel_path@
                &&& row.size == node.size
                &&& row.kind@ == if node.kind == NodeKind::File {
                    "file"@
                } else {
                    "folder"@
                }
                &&& row.parent_handle is Some <==> node.parent is Some
                &&& node.parent matches Some(p) ==> row.parent_handle->0@ == p@
                &&& row.file_key is Some <==> node.file_key is Some
                &&& node.file_key matches Some(k) ==> row.file_key->0@ == k@
            },
        plan.transfers@.len() == selected_places(tree.nodes@, wanted).len(),
        forall|k: int|
            0 <= k < plan.transfers@.len() ==> {
                let row = #[trigger] plan.transfers@[k];
                let place = selected_places(tree.nodes@, wanted)[k];
                &&& row.id@ == transfer_ids[k]
                &&& row.node_id@ == plan.nodes@[place].id@
                &&& row.status@ == "queued"@
                &&& row.bytes_total == tree.nodes@[place].size
            },
        plan.event@ == (EventView::JobCreated {
            job_id,
            root_name: tree.root_name@,
            total_files: tree.total_files,
            total_bytes: tree.total_bytes,
        }),
{
    selected_places_are_right(tree.nodes@, wanted);
    assert forall|k: int| 0 <= k < plan.transfers@.len() implies {
        let row = #[trigger] plan.transfers@[k];
        let place = selected_places(tree.nodes@, wanted)[k];
        &&& row.id@ == transfer_ids[k]
        &&& row.node_id@ == plan.nodes@[place].id@
        &&& row.status@ == "queued"@
        &&& row.bytes_total == tree.nodes@[place].size
    } by {
        let place = selected_places(tree.nodes@, wanted)[k];
        assert(0 <= place < tree.nodes@.len());
        assert(is_node_row(plan.nodes@[place], node_ids[place], job_id, tree.nodes@[place]));
    }
}

} // verus!

//! The grid layout of a diagram: nodes in columns by how far downstream they
//! lie, in rows within a column. The layering keeps its state in vectors
//! indexed by node position rather than in hash maps keyed by id, and rows
//! follow node order where a hash map's iteration order would be arbitrary.
use vstd::prelude::*;
use crate::entities::edge::{edges_view, Edge, EdgeView};
use crate::entities::node::{nodes_view, Node, NodeView};

verus! {

/// Both ends of the edge are nodes of the diagram.
pub open spec fn inner_edge(ids: Seq<u128>, e: EdgeView) -> bool {
    ids.contains(e.source_id) && ids.contains(e.target_id)
}

/// Node `n` is settled within `f` rounds: every edge into it comes from a
/// node settled within `f - 1` rounds. Settled nodes are those that no cycle
/// leads to; they are laid out in topological order.
pub open spec fn settled(ids: Seq<u128>, edges: Seq<EdgeView>, n: u128, f: nat) -> bool
    decreases f, 1nat, 0nat,
{
    if f == 0 {
        false
    } else {
        sources_settled(ids, edges, n, f, edges.len())
    }
}

/// Each of the first `k` edges into `n` comes from a node settled within
/// `f - 1` rounds.
pub open spec fn sources_settled(ids: Seq<u128>, edges: Seq<EdgeView>, n: u128, f: nat, k: nat) -> bool
    decreases f, 0nat, k,
{
    if f == 0 || k == 0 || k > edges.len() {
        true
    } else {
        let e = edges[k - 1];
        sources_settled(ids, edges, n, f, (k - 1) as nat) && (!(inner_edge(ids, e) && e.target_id == n)
            || settled(ids, edges, e.source_id, (f - 1) as nat))
    }
}

/// The longest path into `n` through nodes settled within `f - 1` rounds.
pub open spec fn depth(ids: Seq<u128>, edges: Seq<EdgeView>, n: u128, f: nat) -> nat
    decreases f, 1nat, 0nat,
{
    if f == 0 {
        0
    } else {
        depth_over(ids, edges, n, f, edges.len())
    }
}

/// The longest path into `n` through the first `k` edges, from nodes
/// settled within `f - 1` rounds; 0 when there is none.
pub open spec fn depth_over(ids: Seq<u128>, edges: Seq<EdgeView>, n: u128, f: nat, k: nat) -> nat
    decreases f, 0nat, k,
{
    if f == 0 || k == 0 || k > edges.len() {
        0
    } else {
        let rest = depth_over(ids, edges, n, f, (k - 1) as nat);
        let e = edges[k - 1];
        if inner_edge(ids, e) && e.target_id == n && settled(ids, edges, e.source_id, (f - 1) as nat) {
            let via = depth(ids, edges, e.source_id, (f - 1) as nat) + 1;
            if via > rest {
                via
            } else {
                rest
            }
        } else {
            rest
        }
    }
}

/// Some edge into `n` comes from a node settled within `f` rounds.
pub open spec fn has_settled_source(ids: Seq<u128>, edges: Seq<EdgeView>, n: u128, f: nat) -> bool {
    exists|k: int|
        0 <= k < edges.len() && inner_edge(ids, edges[k]) && edges[k].target_id == n && #[trigger] settled(
            ids,
            edges,
            edges[k].source_id,
            f,
        )
}

/// The node gets its layer from the topological pass: it is settled, or
/// an edge reaches it from a settled node.
pub open spec fn reached(ids: Seq<u128>, edges: Seq<EdgeView>, n: u128) -> bool {
    settled(ids, edges, n, ids.len()) || has_settled_source(ids, edges, n, ids.len())
}

/// The layer the topological pass gives a reached node: its longest path
/// from settled nodes.
pub open spec fn pass_layer(ids: Seq<u128>, edges: Seq<EdgeView>, n: u128) -> nat {
    depth(ids, edges, n, ids.len() + 1)
}

/// The largest layer among the first `k` nodes that were reached, 0 if none.
pub open spec fn max_reached_layer(ids: Seq<u128>, edges: Seq<EdgeView>, k: nat) -> nat
    decreases k,
{
    if k == 0 {
        0
    } else {
        let rest = max_reached_layer(ids, edges, (k - 1) as nat);
        let n = ids[k - 1];
        if reached(ids, edges, n) && pass_layer(ids, edges, n) > rest {
            pass_layer(ids, edges, n)
        } else {
            rest
        }
    }
}

/// The layer of a node: from the topological pass, or one past the last
/// layer for the nodes that only cycles lead to.
pub open spec fn layer_of(ids: Seq<u128>, edges: Seq<EdgeView>, n: u128) -> nat {
    if reached(ids, edges, n) {
        pass_layer(ids, edges, n)
    } else {
        max_reached_layer(ids, edges, ids.len()) + 1
    }
}

/// Among the first `k` nodes, those that hold a layer below `l` no earlier
/// node holds: the number of distinct layers below `l` they use.
pub open spec fn layers_below(ids: Seq<u128>, edges: Seq<EdgeView>, l: nat, k: nat) -> nat
    decreases k,
{
    if k == 0 {
        0
    } else {
        let rest = layers_below(ids, edges, l, (k - 1) as nat);
        let m = layer_of(ids, edges, ids[k - 1]);
        if m < l && !first_layer_use_before(ids, edges, m, (k - 1) as int) {
            rest + 1
        } else {
            rest
        }
    }
}

/// Some node before position `i` is in layer `m`.
pub open spec fn first_layer_use_before(ids: Seq<u128>, edges: Seq<EdgeView>, m: nat, i: int) -> bool {
    exists|j: int| 0 <= j < i && layer_of(ids, edges, #[trigger] ids[j]) == m
}

/// The column of a node: the number of distinct layers below its own.
pub open spec fn column_of(ids: Seq<u128>, edges: Seq<EdgeView>, n: u128) -> nat {
    layers_below(ids, edges, layer_of(ids, edges, n), ids.len())
}

/// The first of the first `k` positions holding `id`.
pub open spec fn first_index_of(ids: Seq<u128>, id: u128, k: int) -> Option<int>
    decreases k,
{
    if k <= 0 {
        None
    } else {
        match first_index_of(ids, id, k - 1) {
            Some(j) => Some(j),
            None => if ids[k - 1] == id {
                Some(k - 1)
            } else {
                None
            },
        }
    }
}

/// Among the first `k` positions, those that are the first position of
/// their id and hold layer `l`.
pub open spec fn rows_before(ids: Seq<u128>, edges: Seq<EdgeView>, l: nat, k: nat) -> nat
    decreases k,
{
    if k == 0 {
        0
    } else {
        let rest = rows_before(ids, edges, l, (k - 1) as nat);
        let n = ids[k - 1];
        if layer_of(ids, edges, n) == l && first_index_of(ids, n, k - 1) is None {
            rest + 1
        } else {
            rest
        }
    }
}

/// The row of the node at position `i`: among the ids in its layer, counted
/// at their first positions, how many come before its own id.
pub open spec fn row_of(ids: Seq<u128>, edges: Seq<EdgeView>, i: int) -> nat {
    let first = first_index_of(ids, ids[i], ids.len() as int).unwrap();
    rows_before(ids, edges, layer_of(ids, edges, ids[i]), first as nat)
}

/// The ids of the nodes, in order.
pub open spec fn node_ids(nodes: Seq<NodeView>) -> Seq<u128> {
    nodes.map_values(|n: NodeView| n.id)
}


fn first_index_in(ids: &Vec<u128>, id: u128, k: usize) -> (r: Option<usize>)
    requires
        k <= ids.len(),
    ensures
        match r {
            Some(j) => j < k && ids@[j as int] == id && first_index_of(ids@, id, k as int) == Some(j as int),
            None => first_index_of(ids@, id, k as int) is None && forall|j: int| 0 <= j < k ==> ids@[j] != id,
        },
{
    let mut i: usize = 0;
    while i < k
        invariant
            i <= k <= ids.len(),
            first_index_of(ids@, id, i as int) is None,
            forall|j: int| 0 <= j < i ==> ids@[j] != id,
        decreases k - i,
    {
        if ids[i] == id {
            proof {
                lemma_first_index_stays(ids@, id, (i + 1) as int, k as int);
            }
            return Some(i);
        }
        i = i + 1;
    }
    None
}

proof fn lemma_first_index_stays(ids: Seq<u128>, id: u128, k: int, k2: int)
    requires
        k <= k2,
        first_index_of(ids, id, k) is Some,
    ensures
        first_index_of(ids, id, k2) == first_index_of(ids, id, k),
    decreases k2,
{
    if k2 > k {
        lemma_first_index_stays(ids, id, k, k2 - 1);
    }
}

proof fn lemma_first_index_found(ids: Seq<u128>, id: u128, k: int)
    requires
        0 <= k <= ids.len(),
        first_index_of(ids, id, k) is Some,
    ensures
        0 <= first_index_of(ids, id, k)->0 < k,
        ids[first_index_of(ids, id, k)->0] == id,
    decreases k,
{
    if k > 0 && first_index_of(ids, id, k - 1) is Some {
        lemma_first_index_found(ids, id, k - 1);
    }
}

/// One round of settling: which nodes have every incoming edge from a node
/// settled in the round before.
fn settle_round(
    ids: &Vec<u128>,
    edges: &Vec<Edge>,
    inner: &Vec<bool>,
    src: &Vec<usize>,
    prev: &Vec<bool>,
    Ghost(f): Ghost<nat>,
) -> (cur: Vec<bool>)
    requires
        f >= 1,
        inner.len() == edges.len(),
        src.len() == edges.len(),
        prev.len() == ids.len(),
        forall|k: int| 0 <= k < edges.len() ==> inner@[k] == inner_edge(ids@, edges_view(edges@)[k]),
        forall|k: int| 0 <= k < edges.len() && inner@[k] ==> src@[k] < ids.len() && ids@[src@[k] as int] == edges@[k].source_id,
        forall|j: int| 0 <= j < ids.len() ==> prev@[j] == settled(ids@, edges_view(edges@), ids@[j], (f - 1) as nat),
    ensures
        cur.len() == ids.len(),
        forall|j: int| 0 <= j < ids.len() ==> cur@[j] == settled(ids@, edges_view(edges@), ids@[j], f),
{
    let ghost ev = edges_view(edges@);
    let mut cur: Vec<bool> = Vec::new();
    let mut i: usize = 0;
    while i < ids.len()
        invariant
            i <= ids.len(),
            cur.len() == i,
            ev == edges_view(edges@),
            f >= 1,
            inner.len() == edges.len(),
            src.len() == edges.len(),
            prev.len() == ids.len(),
            forall|m: int| 0 <= m < edges.len() ==> inner@[m] == inner_edge(ids@, ev[m]),
            forall|m: int| 0 <= m < edges.len() && inner@[m] ==> src@[m] < ids.len() && ids@[src@[m] as int] == edges@[m].source_id,
            forall|j: int| 0 <= j < ids.len() ==> prev@[j] == settled(ids@, ev, ids@[j], (f - 1) as nat),
            forall|j: int| 0 <= j < i ==> cur@[j] == settled(ids@, ev, ids@[j], f),
        decreases ids.len() - i,
    {
        let mut ok = true;
        let mut k: usize = 0;
        while k < edges.len()
            invariant
                k <= edges.len(),
                i < ids.len(),
                ev == edges_view(edges@),
                inner.len() == edges.len(),
                src.len() == edges.len(),
                prev.len() == ids.len(),
                forall|m: int| 0 <= m < edges.len() ==> inner@[m] == inner_edge(ids@, ev[m]),
                forall|m: int| 0 <= m < edges.len() && inner@[m] ==> src@[m] < ids.len() && ids@[src@[m] as int] == edges@[m].source_id,
                forall|j: int| 0 <= j < ids.len() ==> prev@[j] == settled(ids@, ev, ids@[j], (f - 1) as nat),
                f >= 1,
                ok == sources_settled(ids@, ev, ids@[i as int], f, k as nat),
            decreases edges.len() - k,
        {
            assert(ev[k as int] == edges@[k as int]@);
            if inner[k] && edges[k].target_id == ids[i] {
                if !prev[src[k]] {
                    ok = false;
                }
            }
            k = k + 1;
        }
        cur.push(ok);
        i = i + 1;
    }
    cur
}

/// One round of depths: the longest path into each node from nodes settled
/// in the round before.
fn depth_round(
    ids: &Vec<u128>,
    edges: &Vec<Edge>,
    inner: &Vec<bool>,
    src: &Vec<usize>,
    prev_settled: &Vec<bool>,
    prev_depth: &Vec<usize>,
    Ghost(f): Ghost<nat>,
) -> (cur: Vec<usize>)
    requires
        f >= 1,
        f <= usize::MAX,
        inner.len() == edges.len(),
        src.len() == edges.len(),
        prev_settled.len() == ids.len(),
        prev_depth.len() == ids.len(),
        forall|k: int| 0 <= k < edges.len() ==> inner@[k] == inner_edge(ids@, edges_view(edges@)[k]),
        forall|k: int| 0 <= k < edges.len() && inner@[k] ==> src@[k] < ids.len() && ids@[src@[k] as int] == edges@[k].source_id,
        forall|j: int| 0 <= j < ids.len() ==> prev_settled@[j] == settled(ids@, edges_view(edges@), ids@[j], (f - 1) as nat),
        forall|j: int| 0 <= j < ids.len() ==> prev_depth@[j] == depth(ids@, edges_view(edges@), ids@[j], (f - 1) as nat),
        forall|j: int| 0 <= j < ids.len() ==> prev_depth@[j] <= f - 1,
    ensures
        cur.len() == ids.len(),
        forall|j: int| 0 <= j < ids.len() ==> cur@[j] == depth(ids@, edges_view(edges@), ids@[j], f),
        forall|j: int| 0 <= j < ids.len() ==> cur@[j] <= f,
{
    let ghost ev = edges_view(edges@);
    let mut cur: Vec<usize> = Vec::new();
    let mut i: usize = 0;
    while i < ids.len()
        invariant
            i <= ids.len(),
            cur.len() == i,
            ev == edges_view(edges@),
            f >= 1,
            f <= usize::MAX,
            inner.len() == edges.len(),
            src.len() == edges.len(),
            prev_settled.len() == ids.len(),
            prev_depth.len() == ids.len(),
            forall|m: int| 0 <= m < edges.len() ==> inner@[m] == inner_edge(ids@, ev[m]),
            forall|m: int| 0 <= m < edges.len() && inner@[m] ==> src@[m] < ids.len() && ids@[src@[m] as int] == edges@[m].source_id,
            forall|j: int| 0 <= j < ids.len() ==> prev_settled@[j] == settled(ids@, ev, ids@[j], (f - 1) as nat),
            forall|j: int| 0 <= j < ids.len() ==> prev_depth@[j] == depth(ids@, ev, ids@[j], (f - 1) as nat),
            forall|j: int| 0 <= j < ids.len() ==> prev_depth@[j] <= f - 1,
            forall|j: int| 0 <= j < i ==> cur@[j] == depth(ids@, ev, ids@[j], f),
            forall|j: int| 0 <= j < i ==> cur@[j] <= f,
        decreases ids.len() - i,
    {
        let mut best: usize = 0;
        let mut k: usize = 0;
        while k < edges.len()
            invariant
                k <= edges.len(),
                i < ids.len(),
                ev == edges_view(edges@),
                f >= 1,
                f <= usize::MAX,
                inner.len() == edges.len(),
                src.len() == edges.len(),
                prev_settled.len() == ids.len(),
                prev_depth.len() == ids.len(),
                forall|m: int| 0 <= m < edges.len() ==> inner@[m] == inner_edge(ids@, ev[m]),
                forall|m: int| 0 <= m < edges.len() && inner@[m] ==> src@[m] < ids.len() && ids@[src@[m] as int] == edges@[m].source_id,
                forall|j: int| 0 <= j < ids.len() ==> prev_settled@[j] == settled(ids@, ev, ids@[j], (f - 1) as nat),
                forall|j: int| 0 <= j < ids.len() ==> prev_depth@[j] == depth(ids@, ev, ids@[j], (f - 1) as nat),
                forall|j: int| 0 <= j < ids.len() ==> prev_depth@[j] <= f - 1,
                best == depth_over(ids@, ev, ids@[i as int], f, k as nat),
                best <= f,
            decreases edges.len() - k,
        {
            assert(ev[k as int] == edges@[k as int]@);
            if inner[k] && edges[k].target_id == ids[i] && prev_settled[src[k]] {
                let via = prev_depth[src[k]] + 1;
                if via > best {
                    best = via;
                }
            }
            k = k + 1;
        }
        cur.push(best);
        i = i + 1;
    }
    cur
}

/// Lays out a diagram on a grid: each node gets its column and row. Nodes
/// that share an id share a cell.
pub struct LayoutService;

impl LayoutService {
    pub fn grid_cells(nodes: &Vec<Node>, edges: &Vec<Edge>) -> (cells: Vec<(usize, usize)>)
        requires
            nodes.len() < usize::MAX - 1,
        ensures
            cells.len() == nodes.len(),
            forall|i: int| 0 <= i < nodes.len() ==> (#[trigger] cells@[i]).0 == column_of(
                node_ids(nodes_view(nodes@)),
                edges_view(edges@),
                nodes@[i].id,
            ) && cells@[i].1 == row_of(node_ids(nodes_view(nodes@)), edges_view(edges@), i),
    {
        let ghost ev = edges_view(edges@);
        let mut ids: Vec<u128> = Vec::new();
        let mut i: usize = 0;
        while i < nodes.len()
            invariant
                i <= nodes.len(),
                ids.len() == i,
                forall|j: int| 0 <= j < i ==> ids@[j] == nodes@[j].id,
            decreases nodes.len() - i,
        {
            ids.push(nodes[i].id);
            i = i + 1;
        }
        assert(ids@ =~= node_ids(nodes_view(nodes@)));
        let n = ids.len();
        // Which edges join two nodes of the diagram, and where their sources are.
        let mut inner: Vec<bool> = Vec::new();
        let mut src: Vec<usize> = Vec::new();
        let mut k: usize = 0;
        while k < edges.len()
            invariant
                k <= edges.len(),
                n == ids.len(),
                inner.len() == k,
                src.len() == k,
                ev == edges_view(edges@),
                forall|m: int| 0 <= m < k ==> inner@[m] == inner_edge(ids@, ev[m]),
                forall|m: int| 0 <= m < k && inner@[m] ==> src@[m] < ids.len() && ids@[src@[m] as int] == edges@[m].source_id,
            decreases edges.len() - k,
        {
            assert(ev[k as int] == edges@[k as int]@);
            let s = first_index_in(&ids, edges[k].source_id, n);
            let t = first_index_in(&ids, edges[k].target_id, n);
            proof {
                if s is Some {
                    assert(ids@.contains(edges@[k as int].source_id));
                }
                if t is Some {
                    assert(ids@.contains(edges@[k as int].target_id));
                }
            }
            match (s, t) {
                (Some(a), Some(_)) => {
                    inner.push(true);
                    src.push(a);
                },
                _ => {
                    inner.push(false);
                    src.push(0);
                },
            }
            k = k + 1;
        }
        // Rounds 1 to n of settling, with the depths alongside.
        let mut s_prev: Vec<bool> = Vec::new();
        let mut d_prev: Vec<usize> = Vec::new();
        let mut j: usize = 0;
        while j < n
            invariant
                j <= n,
                n == ids.len(),
                s_prev.len() == j,
                d_prev.len() == j,
                forall|m: int| 0 <= m < j ==> s_prev@[m] == false && d_prev@[m] == 0,
            decreases n - j,
        {
            s_prev.push(false);
            d_prev.push(0);
            j = j + 1;
        }
        let mut f: usize = 1;
        while f <= n
            invariant
                1 <= f <= n + 1,
                n == ids.len(),
                n < usize::MAX - 1,
                ev == edges_view(edges@),
                inner.len() == edges.len(),
                src.len() == edges.len(),
                forall|m: int| 0 <= m < edges.len() ==> inner@[m] == inner_edge(ids@, ev[m]),
                forall|m: int| 0 <= m < edges.len() && inner@[m] ==> src@[m] < ids.len() && ids@[src@[m] as int] == edges@[m].source_id,
                s_prev.len() == n,
                d_prev.len() == n,
                forall|m: int| 0 <= m < n ==> s_prev@[m] == settled(ids@, ev, ids@[m], (f - 1) as nat),
                forall|m: int| 0 <= m < n ==> d_prev@[m] == depth(ids@, ev, ids@[m], (f - 1) as nat),
                forall|m: int| 0 <= m < n ==> d_prev@[m] <= f - 1,
            decreases n + 1 - f,
        {
            let s_cur = settle_round(&ids, edges, &inner, &src, &s_prev, Ghost(f as nat));
            let d_cur = depth_round(&ids, edges, &inner, &src, &s_prev, &d_prev, Ghost(f as nat));
            s_prev = s_cur;
            d_prev = d_cur;
            f = f + 1;
        }
        // Depths with one more round: the layers of the topological pass.
        let d_last = depth_round(&ids, edges, &inner, &src, &s_prev, &d_prev, Ghost((n + 1) as nat));
        let ghost idv = ids@;
        // Which nodes the pass reached, and the largest layer among them.
        let mut reached_v: Vec<bool> = Vec::new();
        let mut max_layer: usize = 0;
        let mut i: usize = 0;
        while i < n
            invariant
                i <= n,
                n == ids.len(),
                idv == ids@,
                ev == edges_view(edges@),
                n < usize::MAX - 1,
                inner.len() == edges.len(),
                src.len() == edges.len(),
                forall|m: int| 0 <= m < edges.len() ==> inner@[m] == inner_edge(ids@, ev[m]),
                forall|m: int| 0 <= m < edges.len() && inner@[m] ==> src@[m] < ids.len() && ids@[src@[m] as int] == edges@[m].source_id,
                s_prev.len() == n,
                forall|m: int| 0 <= m < n ==> s_prev@[m] == settled(ids@, ev, ids@[m], n as nat),
                d_last.len() == n,
                forall|m: int| 0 <= m < n ==> d_last@[m] == depth(ids@, ev, ids@[m], (n + 1) as nat),
                forall|m: int| 0 <= m < n ==> d_last@[m] <= n + 1,
                reached_v.len() == i,
                forall|m: int| 0 <= m < i ==> reached_v@[m] == reached(ids@, ev, ids@[m]),
                max_layer == max_reached_layer(ids@, ev, i as nat),
                max_layer <= n + 1,
            decreases n - i,
        {
            let mut from_settled = false;
            let mut k: usize = 0;
            while k < edges.len()
                invariant
                    k <= edges.len(),
                    i < n,
                    n == ids.len(),
                    ev == edges_view(edges@),
                    inner.len() == edges.len(),
                    src.len() == edges.len(),
                    forall|m: int| 0 <= m < edges.len() ==> inner@[m] == inner_edge(ids@, ev[m]),
                    forall|m: int| 0 <= m < edges.len() && inner@[m] ==> src@[m] < ids.len() && ids@[src@[m] as int] == edges@[m].source_id,
                    s_prev.len() == n,
                    forall|m: int| 0 <= m < n ==> s_prev@[m] == settled(ids@, ev, ids@[m], n as nat),
                    from_settled == exists|m: int|
                        0 <= m < k && inner_edge(ids@, ev[m]) && ev[m].target_id == ids@[i as int]
                            && #[trigger] settled(ids@, ev, ev[m].source_id, n as nat),
                decreases edges.len() - k,
            {
                assert(ev[k as int] == edges@[k as int]@);
                if inner[k] && edges[k].target_id == ids[i] && s_prev[src[k]] {
                    from_settled = true;
                }
                k = k + 1;
            }
            let r = s_prev[i] || from_settled;
            reached_v.push(r);
            if r && d_last[i] > max_layer {
                max_layer = d_last[i];
            }
            i = i + 1;
        }
        // The layer of each node.
        let mut layer: Vec<usize> = Vec::new();
        let mut i: usize = 0;
        while i < n
            invariant
                i <= n,
                n == ids.len(),
                ev == edges_view(edges@),
                n < usize::MAX - 1,
                reached_v.len() == n,
                forall|m: int| 0 <= m < n ==> reached_v@[m] == reached(ids@, ev, ids@[m]),
                d_last.len() == n,
                forall|m: int| 0 <= m < n ==> d_last@[m] == depth(ids@, ev, ids@[m], (n + 1) as nat),
                max_layer == max_reached_layer(ids@, ev, n as nat),
                max_layer <= n + 1,
                layer.len() == i,
                forall|m: int| 0 <= m < i ==> layer@[m] == layer_of(ids@, ev, ids@[m]),
            decreases n - i,
        {
            if reached_v[i] {
                layer.push(d_last[i]);
            } else {
                assert(max_layer + 1 <= usize::MAX);
                layer.push(max_layer + 1);
            }
            i = i + 1;
        }
        // Columns and rows.
        let mut cells: Vec<(usize, usize)> = Vec::new();
        let mut i: usize = 0;
        while i < n
            invariant
                i <= n,
                n == ids.len(),
                ids@ == node_ids(nodes_view(nodes@)),
                ev == edges_view(edges@),
                layer.len() == n,
                forall|m: int| 0 <= m < n ==> layer@[m] == layer_of(ids@, ev, ids@[m]),
                cells.len() == i,
                forall|m: int| 0 <= m < i ==> (#[trigger] cells@[m]).0 == column_of(ids@, ev, ids@[m]) && cells@[m].1 == row_of(ids@, ev, m),
            decreases n - i,
        {
            let l = layer[i];
            // Distinct layers below this one.
            let mut col: usize = 0;
            let mut k: usize = 0;
            while k < n
                invariant
                    k <= n,
                    i < n,
                    n == ids.len(),
                    layer.len() == n,
                    l == layer_of(ids@, ev, ids@[i as int]),
                    forall|m: int| 0 <= m < n ==> layer@[m] == layer_of(ids@, ev, ids@[m]),
                    col == layers_below(ids@, ev, l as nat, k as nat),
                    col <= k,
                decreases n - k,
            {
                if layer[k] < l {
                    let mut seen = false;
                    let mut q: usize = 0;
                    while q < k
                        invariant
                            q <= k < n,
                            n == ids.len(),
                            layer.len() == n,
                            forall|m: int| 0 <= m < n ==> layer@[m] == layer_of(ids@, ev, ids@[m]),
                            seen == exists|m: int| 0 <= m < q && layer_of(ids@, ev, #[trigger] ids@[m]) == layer@[k as int],
                        decreases k - q,
                    {
                        if layer[q] == layer[k] {
                            seen = true;
                        }
                        q = q + 1;
                    }
                    if !seen {
                        col = col + 1;
                    }
                }
                k = k + 1;
            }
            // Position among the ids of the same layer.
            let first = first_index_in(&ids, ids[i], n).unwrap();
            proof {
                lemma_first_index_found(ids@, ids@[i as int], n as int);
            }
            let mut row: usize = 0;
            let mut k: usize = 0;
            while k < first
                invariant
                    k <= first < n,
                    n == ids.len(),
                    layer.len() == n,
                    l == layer_of(ids@, ev, ids@[i as int]),
                    forall|m: int| 0 <= m < n ==> layer@[m] == layer_of(ids@, ev, ids@[m]),
                    row == rows_before(ids@, ev, l as nat, k as nat),
                    row <= k,
                decreases first - k,
            {
                if layer[k] == l && first_index_in(&ids, ids[k], k).is_none() {
                    row = row + 1;
                }
                k = k + 1;
            }
            cells.push((col, row));
            i = i + 1;
        }
        cells
    }
}

proof fn lemma_settled_grows(ids: Seq<u128>, edges: Seq<EdgeView>, n: u128, f: nat)
    requires
        settled(ids, edges, n, f),
    ensures
        settled(ids, edges, n, f + 1),
    decreases f, 1nat, 0nat,
{
    lemma_sources_grow(ids, edges, n, f, edges.len());
}

proof fn lemma_sources_grow(ids: Seq<u128>, edges: Seq<EdgeView>, n: u128, f: nat, k: nat)
    requires
        f >= 1,
        k <= edges.len(),
        sources_settled(ids, edges, n, f, k),
    ensures
        sources_settled(ids, edges, n, f + 1, k),
    decreases f, 0nat, k,
{
    if k > 0 {
        lemma_sources_grow(ids, edges, n, f, (k - 1) as nat);
        let e = edges[k - 1];
        if inner_edge(ids, e) && e.target_id == n {
            lemma_settled_grows(ids, edges, e.source_id, (f - 1) as nat);
        }
    }
}

proof fn lemma_settled_mono(ids: Seq<u128>, edges: Seq<EdgeView>, n: u128, f: nat, g: nat)
    requires
        settled(ids, edges, n, f),
        f <= g,
    ensures
        settled(ids, edges, n, g),
    decreases g - f,
{
    if f < g {
        lemma_settled_grows(ids, edges, n, f);
        lemma_settled_mono(ids, edges, n, f + 1, g);
    }
}

/// Each edge into a settled node comes from a node settled one round earlier.
proof fn lemma_sources_at(ids: Seq<u128>, edges: Seq<EdgeView>, n: u128, f: nat, k: nat, j: int)
    requires
        f >= 1,
        k <= edges.len(),
        0 <= j < k,
        sources_settled(ids, edges, n, f, k),
        inner_edge(ids, edges[j]),
        edges[j].target_id == n,
    ensures
        settled(ids, edges, edges[j].source_id, (f - 1) as nat),
    decreases k,
{
    if j < k - 1 {
        lemma_sources_at(ids, edges, n, f, (k - 1) as nat, j);
    }
}

/// The depth of a node settled within `f` rounds is the same in every
/// later round.
proof fn lemma_depth_stable(ids: Seq<u128>, edges: Seq<EdgeView>, n: u128, f: nat, g: nat)
    requires
        settled(ids, edges, n, f),
        f <= g,
    ensures
        depth(ids, edges, n, g) == depth(ids, edges, n, f),
    decreases f, 1nat, 0nat,
{
    lemma_depth_over_stable(ids, edges, n, f, g, edges.len());
}

proof fn lemma_depth_over_stable(ids: Seq<u128>, edges: Seq<EdgeView>, n: u128, f: nat, g: nat, k: nat)
    requires
        1 <= f <= g,
        k <= edges.len(),
        sources_settled(ids, edges, n, f, k),
    ensures
        depth_over(ids, edges, n, g, k) == depth_over(ids, edges, n, f, k),
    decreases f, 0nat, k,
{
    if k > 0 {
        lemma_depth_over_stable(ids, edges, n, f, g, (k - 1) as nat);
        let e = edges[k - 1];
        if inner_edge(ids, e) && e.target_id == n {
            lemma_settled_mono(ids, edges, e.source_id, (f - 1) as nat, (g - 1) as nat);
            lemma_depth_stable(ids, edges, e.source_id, (f - 1) as nat, (g - 1) as nat);
        }
    }
}

/// The depth of a node is at least one more than that of each settled
/// source among the first `k` edges.
proof fn lemma_depth_over_at_least(ids: Seq<u128>, edges: Seq<EdgeView>, n: u128, f: nat, k: nat, j: int)
    requires
        f >= 1,
        k <= edges.len(),
        0 <= j < k,
        inner_edge(ids, edges[j]),
        edges[j].target_id == n,
        settled(ids, edges, edges[j].source_id, (f - 1) as nat),
    ensures
        depth_over(ids, edges, n, f, k) >= depth(ids, edges, edges[j].source_id, (f - 1) as nat) + 1,
    decreases k,
{
    if j < k - 1 {
        lemma_depth_over_at_least(ids, edges, n, f, (k - 1) as nat, j);
    }
}

/// Counting layers below a higher layer `lb` counts at least one more than
/// below `la` once some of the first `k` nodes is in layer `la`.
proof fn lemma_layers_below_gap(ids: Seq<u128>, edges: Seq<EdgeView>, la: nat, lb: nat, k: nat)
    requires
        la < lb,
        k <= ids.len(),
    ensures
        layers_below(ids, edges, lb, k) >= layers_below(ids, edges, la, k) + (if first_layer_use_before(
            ids,
            edges,
            la,
            k as int,
        ) {
            1int
        } else {
            0int
        }),
    decreases k,
{
    if k > 0 {
        let k1 = (k - 1) as nat;
        lemma_layers_below_gap(ids, edges, la, lb, k1);
        let m = layer_of(ids, edges, ids[k1 as int]);
        if m == la {
            if !first_layer_use_before(ids, edges, la, k1 as int) {
                assert(layer_of(ids, edges, ids[k1 as int]) == la);
                assert(first_layer_use_before(ids, edges, la, k as int));
            } else {
                let j = choose|j: int| 0 <= j < k1 && layer_of(ids, edges, #[trigger] ids[j]) == la;
                assert(0 <= j < k && layer_of(ids, edges, ids[j]) == la);
            }
        } else {
            if first_layer_use_before(ids, edges, la, k1 as int) {
                let j = choose|j: int| 0 <= j < k1 && layer_of(ids, edges, #[trigger] ids[j]) == la;
                assert(0 <= j < k && layer_of(ids, edges, ids[j]) == la);
            } else {
                assert forall|j: int| 0 <= j < k implies layer_of(ids, edges, #[trigger] ids[j]) != la by {
                    if j < k1 {
                    }
                }
            }
        }
    }
}

/// A node of the diagram in a lower layer sits in an earlier column.
proof fn lemma_column_order(ids: Seq<u128>, edges: Seq<EdgeView>, a: u128, b: u128)
    requires
        ids.contains(a),
        layer_of(ids, edges, a) < layer_of(ids, edges, b),
    ensures
        column_of(ids, edges, a) < column_of(ids, edges, b),
{
    let la = layer_of(ids, edges, a);
    let j = choose|j: int| 0 <= j < ids.len() && ids[j] == a;
    assert(layer_of(ids, edges, ids[j]) == la);
    assert(first_layer_use_before(ids, edges, la, ids.len() as int));
    lemma_layers_below_gap(ids, edges, la, layer_of(ids, edges, b), ids.len());
}

/// Layering follows the edges: an edge between nodes of the diagram whose
/// target no cycle leads to (settled within as many rounds as there are
/// nodes) runs from an earlier column to a later one.
pub proof fn law_edges_point_right(ids: Seq<u128>, edges: Seq<EdgeView>, j: int)
    requires
        0 <= j < edges.len(),
        inner_edge(ids, edges[j]),
        settled(ids, edges, edges[j].target_id, ids.len()),
    ensures
        column_of(ids, edges, edges[j].source_id) < column_of(ids, edges, edges[j].target_id),
{
    let n = ids.len();
    let u = edges[j].source_id;
    let v = edges[j].target_id;
    lemma_sources_at(ids, edges, v, n, edges.len(), j);
    lemma_settled_mono(ids, edges, u, (n - 1) as nat, n);
    lemma_depth_over_at_least(ids, edges, v, n + 1, edges.len(), j);
    lemma_depth_stable(ids, edges, u, (n - 1) as nat, n + 1);
    lemma_depth_stable(ids, edges, u, (n - 1) as nat, n);
    assert(reached(ids, edges, u));
    assert(reached(ids, edges, v));
    assert(layer_of(ids, edges, u) < layer_of(ids, edges, v));
    lemma_column_order(ids, edges, u, v);
}

/// A node only cycles lead to sits after every node that the topological
/// pass reached: in a later column.
pub proof fn law_cycle_nodes_come_last(ids: Seq<u128>, edges: Seq<EdgeView>, m: u128, c: u128)
    requires
        ids.contains(m),
        reached(ids, edges, m),
        !reached(ids, edges, c),
    ensures
        column_of(ids, edges, m) < column_of(ids, edges, c),
{
    let i = choose|i: int| 0 <= i < ids.len() && ids[i] == m;
    lemma_max_reached_layer_bound(ids, edges, ids.len(), i);
    lemma_column_order(ids, edges, m, c);
}

proof fn lemma_max_reached_layer_bound(ids: Seq<u128>, edges: Seq<EdgeView>, k: nat, i: int)
    requires
        k <= ids.len(),
        0 <= i < k,
        reached(ids, edges, ids[i]),
    ensures
        pass_layer(ids, edges, ids[i]) <= max_reached_layer(ids, edges, k),
    decreases k,
{
    if i < k - 1 {
        lemma_max_reached_layer_bound(ids, edges, (k - 1) as nat, i);
    }
}

proof fn lemma_first_index_none(ids: Seq<u128>, id: u128, k: int)
    requires
        0 <= k <= ids.len(),
    ensures
        first_index_of(ids, id, k) is None <==> forall|j: int| 0 <= j < k ==> ids[j] != id,
    decreases k,
{
    if k > 0 {
        lemma_first_index_none(ids, id, k - 1);
        if first_index_of(ids, id, k - 1) is Some {
            lemma_first_index_found(ids, id, k - 1);
        }
    }
}

/// The first position of the id at position `i`, which holds that id and has
/// no earlier position holding it.
proof fn lemma_first_position(ids: Seq<u128>, i: int) -> (f: int)
    requires
        0 <= i < ids.len(),
    ensures
        first_index_of(ids, ids[i], ids.len() as int) == Some(f),
        0 <= f <= i,
        ids[f] == ids[i],
        first_index_of(ids, ids[f], f) is None,
{
    let n = ids.len() as int;
    lemma_first_index_none(ids, ids[i], n);
    lemma_first_index_found(ids, ids[i], n);
    let f = first_index_of(ids, ids[i], n)->0;
    if first_index_of(ids, ids[i], f) is Some {
        lemma_first_index_found(ids, ids[i], f);
        lemma_first_index_stays(ids, ids[i], f, n);
    }
    lemma_first_index_none(ids, ids[i], f);
    if f > i {
        assert(ids[i] == ids[i]);
    }
    f
}

proof fn lemma_rows_before_mono(ids: Seq<u128>, edges: Seq<EdgeView>, l: nat, k1: nat, k2: nat)
    requires
        k1 <= k2,
    ensures
        rows_before(ids, edges, l, k1) <= rows_before(ids, edges, l, k2),
    decreases k2,
{
    if k2 > k1 {
        lemma_rows_before_mono(ids, edges, l, k1, (k2 - 1) as nat);
    }
}

/// Nodes with different ids get different grid cells.
pub proof fn law_cells_distinct(ids: Seq<u128>, edges: Seq<EdgeView>, i: int, j: int)
    requires
        0 <= i < ids.len(),
        0 <= j < ids.len(),
        ids[i] != ids[j],
    ensures
        column_of(ids, edges, ids[i]) != column_of(ids, edges, ids[j]) || row_of(ids, edges, i) != row_of(
            ids,
            edges,
            j,
        ),
{
    let li = layer_of(ids, edges, ids[i]);
    let lj = layer_of(ids, edges, ids[j]);
    assert(ids[i] == ids[i] && ids[j] == ids[j]);
    assert(ids.contains(ids[i]) && ids.contains(ids[j]));
    if li < lj {
        lemma_column_order(ids, edges, ids[i], ids[j]);
    } else if lj < li {
        lemma_column_order(ids, edges, ids[j], ids[i]);
    } else {
        let fi = lemma_first_position(ids, i);
        let fj = lemma_first_position(ids, j);
        if fi < fj {
            lemma_rows_before_mono(ids, edges, li, (fi + 1) as nat, fj as nat);
            assert(rows_before(ids, edges, li, (fi + 1) as nat) == rows_before(ids, edges, li, fi as nat) + 1);
        } else {
            assert(fi != fj);
            lemma_rows_before_mono(ids, edges, li, (fj + 1) as nat, fi as nat);
            assert(rows_before(ids, edges, li, (fj + 1) as nat) == rows_before(ids, edges, li, fj as nat) + 1);
        }
    }
}

/// An edge of the diagram runs from `src` to `tgt`.
pub open spec fn edge_into(ids: Seq<u128>, edges: Seq<EdgeView>, src: u128, tgt: u128) -> bool {
    exists|k: int|
        0 <= k < edges.len() && inner_edge(ids, #[trigger] edges[k]) && edges[k].source_id == src
            && edges[k].target_id == tgt
}

/// `w` walks the edges backwards: each id after the first is the source of
/// an edge into the one before it.
pub open spec fn back_walk(ids: Seq<u128>, edges: Seq<EdgeView>, w: Seq<u128>) -> bool {
    forall|t: int| 0 <= t < w.len() - 1 ==> #[trigger] edge_into(ids, edges, w[t + 1], w[t])
}

/// No cycle of edges: no walk of one or more edges returns to where it
/// started.
pub open spec fn acyclic(ids: Seq<u128>, edges: Seq<EdgeView>) -> bool {
    forall|w: Seq<u128>| #[trigger] back_walk(ids, edges, w) && w.len() >= 2 ==> w[0] != w.last()
}

proof fn lemma_unsettled_source(ids: Seq<u128>, edges: Seq<EdgeView>, n: u128, f: nat, k: nat) -> (j: int)
    requires
        f >= 1,
        k <= edges.len(),
        !sources_settled(ids, edges, n, f, k),
    ensures
        0 <= j < k,
        inner_edge(ids, edges[j]),
        edges[j].target_id == n,
        !settled(ids, edges, edges[j].source_id, (f - 1) as nat),
    decreases k,
{
    if sources_settled(ids, edges, n, f, (k - 1) as nat) {
        (k - 1) as int
    } else {
        lemma_unsettled_source(ids, edges, n, f, (k - 1) as nat)
    }
}

/// A node not settled within `f` rounds ends a backward walk of `f` edges.
proof fn lemma_unsettled_walk(ids: Seq<u128>, edges: Seq<EdgeView>, n: u128, f: nat) -> (w: Seq<u128>)
    requires
        !settled(ids, edges, n, f),
    ensures
        w.len() == f + 1,
        w[0] == n,
        back_walk(ids, edges, w),
        forall|t: int| 1 <= t < w.len() ==> ids.contains(#[trigger] w[t]),
    decreases f,
{
    if f == 0 {
        seq![n]
    } else {
        let j = lemma_unsettled_source(ids, edges, n, f, edges.len());
        let src = edges[j].source_id;
        let w1 = lemma_unsettled_walk(ids, edges, src, (f - 1) as nat);
        let w = seq![n] + w1;
        assert forall|t: int| 0 <= t < w.len() - 1 implies #[trigger] edge_into(ids, edges, w[t + 1], w[t]) by {
            if t == 0 {
                assert(w[1] == src && w[0] == n);
                assert(inner_edge(ids, edges[j]));
            } else {
                assert(w[t + 1] == w1[t] && w[t] == w1[t - 1]);
                assert(edge_into(ids, edges, w1[(t - 1) + 1], w1[t - 1]));
            }
        }
        assert forall|t: int| 1 <= t < w.len() implies ids.contains(#[trigger] w[t]) by {
            assert(w[t] == w1[t - 1]);
            if t == 1 {
                assert(inner_edge(ids, edges[j]));
            }
        }
        w
    }
}

/// In a diagram without cycles every node is settled: the topological pass
/// reaches it and it lies in no cycle's shadow.
pub proof fn law_acyclic_settles(ids: Seq<u128>, edges: Seq<EdgeView>, n: u128)
    requires
        acyclic(ids, edges),
        ids.contains(n),
    ensures
        settled(ids, edges, n, ids.len()),
{
    let len = ids.len();
    if !settled(ids, edges, n, len) {
        let w = lemma_unsettled_walk(ids, edges, n, len);
        assert(w.to_set().subset_of(ids.to_set())) by {
            assert forall|x: u128| w.to_set().contains(x) implies ids.to_set().contains(x) by {
                let t = choose|t: int| 0 <= t < w.len() && w[t] == x;
                if t == 0 {
                } else {
                    assert(ids.contains(w[t]));
                }
            }
        }
        ids.lemma_cardinality_of_set();
        vstd::set_lib::lemma_len_subset(w.to_set(), ids.to_set());
        if w.no_duplicates() {
            w.unique_seq_to_set();
        }
        let (a, b) = choose|a: int, b: int| 0 <= a < w.len() && 0 <= b < w.len() && a != b && w[a] == w[b];
        let lo = if a < b { a } else { b };
        let hi = if a < b { b } else { a };
        let c = w.subrange(lo, hi + 1);
        assert forall|t: int| 0 <= t < c.len() - 1 implies #[trigger] edge_into(ids, edges, c[t + 1], c[t]) by {
            assert(c[t + 1] == w[lo + t + 1] && c[t] == w[lo + t]);
            assert(edge_into(ids, edges, w[(lo + t) + 1], w[lo + t]));
        }
        assert(back_walk(ids, edges, c));
        assert(c[0] == w[lo] && c.last() == w[hi]);
    }
}

/// In a diagram without cycles every edge runs from an earlier column to a
/// later one.
pub proof fn law_acyclic_edges_point_right(ids: Seq<u128>, edges: Seq<EdgeView>, j: int)
    requires
        acyclic(ids, edges),
        0 <= j < edges.len(),
        inner_edge(ids, edges[j]),
    ensures
        column_of(ids, edges, edges[j].source_id) < column_of(ids, edges, edges[j].target_id),
{
    law_acyclic_settles(ids, edges, edges[j].target_id);
    law_edges_point_right(ids, edges, j);
}

} // verus!

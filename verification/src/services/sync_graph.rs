//! The two searches of the validator over synchronous edges: the depth-first
//! search that reports the ends of back edges, and the memoised search for
//! the longest chain of synchronous calls. Visited sets, the path and the
//! memo are vectors scanned by id, which the specs model as sequences.
use vstd::prelude::*;
use crate::entities::diagram::Diagram;
use crate::entities::edge::{EdgeType, EdgeView};
use crate::entities::node::NodeView;
use crate::seq_facts::lemma_distinct_within;

verus! {

/// Every id the searches can reach: the node ids, then the edge targets.
pub open spec fn sync_universe(nodes: Seq<NodeView>, edges: Seq<EdgeView>) -> Seq<u128> {
    nodes.map_values(|n: NodeView| n.id) + edges.map_values(|e: EdgeView| e.target_id)
}

/// More recursion depth than the searches can use: one more than the size of
/// the universe.
pub open spec fn search_fuel(nodes: Seq<NodeView>, edges: Seq<EdgeView>) -> nat {
    sync_universe(nodes, edges).len() + 1
}

pub open spec fn is_sync_from(e: EdgeView, u: u128) -> bool {
    e.edge_type == EdgeType::Synchronous && e.source_id == u
}

/// `s` with `x` appended unless already present.
pub open spec fn add_unique(s: Seq<u128>, x: u128) -> Seq<u128> {
    if s.contains(x) {
        s
    } else {
        s.push(x)
    }
}

/// The state of the depth-first search: the nodes visited in order, the
/// current path, and the ends of the back edges found so far.
pub struct DfsState {
    pub visited: Seq<u128>,
    pub stack: Seq<u128>,
    pub cycles: Seq<u128>,
}

/// Visiting `u`: mark it, search its synchronous successors, leave it.
pub open spec fn dfs_visit(edges: Seq<EdgeView>, u: u128, st: DfsState, fuel: nat) -> DfsState
    decreases fuel, edges.len() + 2,
{
    if fuel == 0 {
        st
    } else {
        let st1 = DfsState { visited: st.visited.push(u), stack: st.stack.push(u), cycles: st.cycles };
        let st2 = dfs_edges(edges, u, 0, st1, fuel);
        DfsState { stack: st2.stack.drop_last(), ..st2 }
    }
}

/// The search over the edges of `u` from index `i` on: an unvisited target is
/// visited; a target on the current path closes a cycle, and both ends of the
/// edge are recorded.
pub open spec fn dfs_edges(edges: Seq<EdgeView>, u: u128, i: int, st: DfsState, fuel: nat) -> DfsState
    decreases fuel, edges.len() + 1 - i,
{
    if i < 0 || i >= edges.len() || fuel == 0 {
        st
    } else {
        let e = edges[i];
        let st1 = if is_sync_from(e, u) {
            if !st.visited.contains(e.target_id) {
                dfs_visit(edges, e.target_id, st, (fuel - 1) as nat)
            } else if st.stack.contains(e.target_id) {
                DfsState { cycles: add_unique(add_unique(st.cycles, e.target_id), u), ..st }
            } else {
                st
            }
        } else {
            st
        };
        dfs_edges(edges, u, i + 1, st1, fuel)
    }
}

pub open spec fn empty_dfs_state() -> DfsState {
    DfsState { visited: Seq::empty(), stack: Seq::empty(), cycles: Seq::empty() }
}

/// The search started from each of the first `k` nodes in turn, unless
/// already visited.
pub open spec fn dfs_all(nodes: Seq<NodeView>, edges: Seq<EdgeView>, k: int, fuel: nat) -> DfsState
    decreases k,
{
    if k <= 0 {
        empty_dfs_state()
    } else {
        let st = dfs_all(nodes, edges, k - 1, fuel);
        let u = nodes[k - 1].id;
        if st.visited.contains(u) {
            st
        } else {
            dfs_visit(edges, u, st, fuel)
        }
    }
}

/// The nodes at the ends of the back edges the search finds, in the order
/// found: empty exactly when the search meets no cycle.
pub open spec fn sync_cycle_nodes(nodes: Seq<NodeView>, edges: Seq<EdgeView>) -> Seq<u128> {
    dfs_all(nodes, edges, nodes.len() as int, search_fuel(nodes, edges)).cycles
}

fn contains_id(v: &Vec<u128>, x: u128) -> (b: bool)
    ensures
        b == v@.contains(x),
{
    let mut i: usize = 0;
    while i < v.len()
        invariant
            i <= v.len(),
            forall|j: int| 0 <= j < i ==> v@[j] != x,
        decreases v.len() - i,
    {
        if v[i] == x {
            return true;
        }
        i = i + 1;
    }
    false
}

fn push_unique(v: &mut Vec<u128>, x: u128)
    ensures
        final(v)@ == add_unique(old(v)@, x),
{
    if !contains_id(v, x) {
        v.push(x);
    }
}

/// The state invariant: visited ids are distinct and in the universe.
pub open spec fn visited_ok(visited: Seq<u128>, u: Seq<u128>) -> bool {
    visited.no_duplicates() && forall|i: int| 0 <= i < visited.len() ==> u.contains(visited[i])
}

pub open spec fn state_of(visited: Seq<u128>, stack: Seq<u128>, cycles: Seq<u128>) -> DfsState {
    DfsState { visited, stack, cycles }
}

proof fn lemma_target_in_universe(nodes: Seq<NodeView>, edges: Seq<EdgeView>, i: int)
    requires
        0 <= i < edges.len(),
    ensures
        sync_universe(nodes, edges).contains(edges[i].target_id),
{
    let u = sync_universe(nodes, edges);
    assert(u[nodes.len() + i] == edges[i].target_id);
}

proof fn lemma_node_in_universe(nodes: Seq<NodeView>, edges: Seq<EdgeView>, i: int)
    requires
        0 <= i < nodes.len(),
    ensures
        sync_universe(nodes, edges).contains(nodes[i].id),
{
    let u = sync_universe(nodes, edges);
    assert(u[i] == nodes[i].id);
}

fn dfs_visit_exec(
    d: &Diagram,
    u: u128,
    visited: &mut Vec<u128>,
    stack: &mut Vec<u128>,
    cycles: &mut Vec<u128>,
    Ghost(fuel): Ghost<nat>,
)
    requires
        fuel + old(visited)@.len() > sync_universe(d@.nodes, d@.edges).len(),
        visited_ok(old(visited)@, sync_universe(d@.nodes, d@.edges)),
        sync_universe(d@.nodes, d@.edges).contains(u),
        !old(visited)@.contains(u),
    ensures
        state_of(final(visited)@, final(stack)@, final(cycles)@) == dfs_visit(
            d@.edges,
            u,
            state_of(old(visited)@, old(stack)@, old(cycles)@),
            fuel,
        ),
        visited_ok(final(visited)@, sync_universe(d@.nodes, d@.edges)),
        final(visited)@.len() > old(visited)@.len(),
        old(visited)@ == final(visited)@.subrange(0, old(visited)@.len() as int),
        final(stack)@ == old(stack)@,
    decreases fuel,
{
    let ghost univ = sync_universe(d@.nodes, d@.edges);
    let ghost edges = d@.edges;
    proof {
        assert(visited@.push(u).no_duplicates());
        lemma_distinct_within(visited@.push(u), univ);
    }
    let ghost st0 = state_of(visited@, stack@, cycles@);
    visited.push(u);
    stack.push(u);
    let ghost st1 = state_of(visited@, stack@, cycles@);
    let ghost start_len = old(visited)@.len();
    let mut i: usize = 0;
    while i < d.edges.len()
        invariant
            edges == d@.edges,
            univ == sync_universe(d@.nodes, d@.edges),
            i <= d.edges@.len(),
            fuel >= 1,
            fuel + start_len > univ.len(),
            visited_ok(visited@, univ),
            visited@.len() > start_len,
            old(visited)@ == visited@.subrange(0, start_len as int),
            visited@[start_len as int] == u,
            stack@ == old(stack)@.push(u),
            dfs_edges(edges, u, 0, st1, fuel) == dfs_edges(edges, u, i as int, state_of(visited@, stack@, cycles@), fuel),
        decreases d.edges.len() - i,
    {
        assert(d@.edges[i as int] == d.edges@[i as int]@);
        let e = &d.edges[i];
        if e.edge_type == EdgeType::Synchronous && e.source_id == u {
            let t = e.target_id;
            if !contains_id(visited, t) {
                proof {
                    lemma_target_in_universe(d@.nodes, d@.edges, i as int);
                    assert(visited@.push(t).no_duplicates());
                    lemma_distinct_within(visited@.push(t), univ);
                }
                let ghost before = visited@;
                dfs_visit_exec(d, t, visited, stack, cycles, Ghost((fuel - 1) as nat));
                assert(before =~= visited@.subrange(0, before.len() as int));
                assert(old(visited)@ =~= visited@.subrange(0, start_len as int));
                assert(visited@[start_len as int] == before[start_len as int]);
            } else if contains_id(stack, t) {
                push_unique(cycles, t);
                push_unique(cycles, u);
            }
        }
        i = i + 1;
    }
    stack.pop();
    assert(stack@ =~= old(stack)@);
}

/// The ends of the back edges met by the search from every node.
pub fn sync_cycle_nodes_exec(d: &Diagram) -> (r: Vec<u128>)
    ensures
        r@ == sync_cycle_nodes(d@.nodes, d@.edges),
{
    let ghost univ = sync_universe(d@.nodes, d@.edges);
    let ghost fuel = search_fuel(d@.nodes, d@.edges);
    let mut visited: Vec<u128> = Vec::new();
    let mut stack: Vec<u128> = Vec::new();
    let mut cycles: Vec<u128> = Vec::new();
    let mut k: usize = 0;
    while k < d.nodes.len()
        invariant
            k <= d.nodes@.len(),
            univ == sync_universe(d@.nodes, d@.edges),
            fuel == search_fuel(d@.nodes, d@.edges),
            visited_ok(visited@, univ),
            stack@ == Seq::<u128>::empty(),
            state_of(visited@, stack@, cycles@) == dfs_all(d@.nodes, d@.edges, k as int, fuel),
        decreases d.nodes.len() - k,
    {
        assert(d@.nodes[k as int] == d.nodes@[k as int]@);
        let u = d.nodes[k].id;
        if !contains_id(&visited, u) {
            proof { lemma_node_in_universe(d@.nodes, d@.edges, k as int); }
            dfs_visit_exec(d, u, &mut visited, &mut stack, &mut cycles, Ghost(fuel));
        }
        k = k + 1;
    }
    cycles
}

// ---------------------------------------------------------------- longest chain

/// The depth recorded for `u` in the memo, if any (the last record).
pub open spec fn memo_lookup(memo: Seq<(u128, nat)>, u: u128) -> Option<nat>
    decreases memo.len(),
{
    if memo.len() == 0 {
        None
    } else if memo.last().0 == u {
        Some(memo.last().1)
    } else {
        memo_lookup(memo.drop_last(), u)
    }
}

pub open spec fn nat_max(a: nat, b: nat) -> nat {
    if a >= b { a } else { b }
}

/// The length of the longest chain of synchronous calls from `u` that the
/// memoised search reports, with the memo after the search. A recorded
/// depth is returned as is; a node already on the current path counts 0.
pub open spec fn lp_visit(
    edges: Seq<EdgeView>,
    u: u128,
    memo: Seq<(u128, nat)>,
    visiting: Seq<u128>,
    fuel: nat,
) -> (nat, Seq<(u128, nat)>)
    decreases fuel, edges.len() + 2,
{
    match memo_lookup(memo, u) {
        Some(dv) => (dv, memo),
        None => if visiting.contains(u) || fuel == 0 {
            (0, memo)
        } else {
            let r = lp_edges(edges, u, 0, memo, visiting.push(u), fuel, 0);
            (r.0, r.1.push((u, r.0)))
        },
    }
}

/// The best depth over the synchronous edges of `u` from index `i` on: one
/// more than the depth of each target.
pub open spec fn lp_edges(
    edges: Seq<EdgeView>,
    u: u128,
    i: int,
    memo: Seq<(u128, nat)>,
    visiting: Seq<u128>,
    fuel: nat,
    best: nat,
) -> (nat, Seq<(u128, nat)>)
    decreases fuel, edges.len() + 1 - i,
{
    if i < 0 || i >= edges.len() || fuel == 0 {
        (best, memo)
    } else if is_sync_from(edges[i], u) {
        let r = lp_visit(edges, edges[i].target_id, memo, visiting, (fuel - 1) as nat);
        lp_edges(edges, u, i + 1, r.1, visiting, fuel, nat_max(best, r.0 + 1))
    } else {
        lp_edges(edges, u, i + 1, memo, visiting, fuel, best)
    }
}

/// The search from each of the first `k` nodes, sharing one memo: the
/// largest depth found, and the memo.
pub open spec fn lp_all(nodes: Seq<NodeView>, edges: Seq<EdgeView>, k: int, fuel: nat) -> (nat, Seq<(u128, nat)>)
    decreases k,
{
    if k <= 0 {
        (0, Seq::empty())
    } else {
        let prev = lp_all(nodes, edges, k - 1, fuel);
        let r = lp_visit(edges, nodes[k - 1].id, prev.1, Seq::empty(), fuel);
        (nat_max(prev.0, r.0), r.1)
    }
}

/// The length of the longest chain of synchronous calls, as the memoised
/// search finds it (exact when the synchronous edges form no cycle).
pub open spec fn longest_sync_chain(nodes: Seq<NodeView>, edges: Seq<EdgeView>) -> nat {
    lp_all(nodes, edges, nodes.len() as int, search_fuel(nodes, edges)).0
}

pub open spec fn memo_view(m: Seq<(u128, u128)>) -> Seq<(u128, nat)> {
    m.map_values(|p: (u128, u128)| (p.0, p.1 as nat))
}

/// Every recorded depth is at most one more than its position.
pub open spec fn memo_ok(m: Seq<(u128, u128)>) -> bool {
    forall|k: int| 0 <= k < m.len() ==> m[k].1 <= k + 1
}

fn memo_lookup_exec(memo: &Vec<(u128, u128)>, u: u128) -> (r: Option<u128>)
    ensures
        match r {
            Some(v) => memo_lookup(memo_view(memo@), u) == Some(v as nat) && exists|k: int| 0 <= k < memo@.len() && memo@[k].1 == v,
            None => memo_lookup(memo_view(memo@), u) is None,
        },
{
    let mut k: usize = memo.len();
    assert(memo_view(memo@).subrange(0, k as int) =~= memo_view(memo@));
    while k > 0
        invariant
            k <= memo@.len(),
            memo_lookup(memo_view(memo@), u) == memo_lookup(memo_view(memo@).subrange(0, k as int), u),
        decreases k,
    {
        assert(memo_view(memo@).subrange(0, k as int).drop_last() =~= memo_view(memo@).subrange(0, k - 1));
        if memo[k - 1].0 == u {
            assert(memo@[k - 1].1 == memo[k - 1].1);
            return Some(memo[k - 1].1);
        }
        k = k - 1;
    }
    None
}

fn lp_visit_exec(
    d: &Diagram,
    u: u128,
    memo: &mut Vec<(u128, u128)>,
    visiting: &mut Vec<u128>,
    Ghost(fuel): Ghost<nat>,
) -> (r: u128)
    requires
        fuel + old(visiting)@.len() > sync_universe(d@.nodes, d@.edges).len(),
        visited_ok(old(visiting)@, sync_universe(d@.nodes, d@.edges)),
        sync_universe(d@.nodes, d@.edges).contains(u),
        memo_ok(old(memo)@),
        old(memo)@.len() <= usize::MAX,
    ensures
        (r as nat, memo_view(final(memo)@)) == lp_visit(
            d@.edges,
            u,
            memo_view(old(memo)@),
            old(visiting)@,
            fuel,
        ),
        final(visiting)@ == old(visiting)@,
        memo_ok(final(memo)@),
        final(memo)@.len() >= old(memo)@.len(),
        final(memo)@.len() <= usize::MAX,
        r <= final(memo)@.len(),
    decreases fuel,
{
    let ghost univ = sync_universe(d@.nodes, d@.edges);
    let ghost edges = d@.edges;
    match memo_lookup_exec(memo, u) {
        Some(v) => {
            let _ = memo.len();
            return v;
        }
        None => {}
    }
    if contains_id(visiting, u) {
        let _ = memo.len();
        return 0;
    }
    proof {
        assert(visiting@.push(u).no_duplicates());
        lemma_distinct_within(visiting@.push(u), univ);
    }
    let ghost memo0 = memo_view(memo@);
    let ghost vis1 = visiting@.push(u);
    visiting.push(u);
    let mut best: u128 = 0;
    let mut i: usize = 0;
    while i < d.edges.len()
        invariant
            edges == d@.edges,
            univ == sync_universe(d@.nodes, d@.edges),
            i <= d.edges@.len(),
            fuel >= 1,
            fuel + old(visiting)@.len() > univ.len(),
            visiting@ == vis1,
            vis1 == old(visiting)@.push(u),
            visited_ok(vis1, univ),
            memo_ok(memo@),
            memo@.len() >= old(memo)@.len(),
            memo@.len() <= usize::MAX,
            best <= memo@.len() + 1,
            lp_edges(edges, u, 0, memo0, vis1, fuel, 0) == lp_edges(edges, u, i as int, memo_view(memo@), vis1, fuel, best as nat),
        decreases d.edges.len() - i,
    {
        assert(d@.edges[i as int] == d.edges@[i as int]@);
        let e = &d.edges[i];
        if e.edge_type == EdgeType::Synchronous && e.source_id == u {
            let t = e.target_id;
            proof {
                lemma_target_in_universe(d@.nodes, d@.edges, i as int);
            }
            let dn = lp_visit_exec(d, t, memo, visiting, Ghost((fuel - 1) as nat));
            if dn + 1 > best {
                best = dn + 1;
            }
        }
        i = i + 1;
    }
    visiting.pop();
    assert(visiting@ =~= old(visiting)@);
    let ghost before = memo@;
    memo.push((u, best));
    let _ = memo.len();
    assert(memo_view(memo@) =~= memo_view(before).push((u, best as nat)));
    best
}

/// The length of the longest synchronous call chain (see `longest_sync_chain`).
pub fn longest_sync_chain_exec(d: &Diagram) -> (r: u128)
    ensures
        r == longest_sync_chain(d@.nodes, d@.edges),
        r <= usize::MAX,
{
    let ghost univ = sync_universe(d@.nodes, d@.edges);
    let ghost fuel = search_fuel(d@.nodes, d@.edges);
    let mut memo: Vec<(u128, u128)> = Vec::new();
    let mut max_depth: u128 = 0;
    let mut k: usize = 0;
    while k < d.nodes.len()
        invariant
            k <= d.nodes@.len(),
            univ == sync_universe(d@.nodes, d@.edges),
            fuel == search_fuel(d@.nodes, d@.edges),
            memo_ok(memo@),
            memo@.len() <= usize::MAX,
            max_depth <= memo@.len(),
            (max_depth as nat, memo_view(memo@)) == lp_all(d@.nodes, d@.edges, k as int, fuel),
        decreases d.nodes.len() - k,
    {
        assert(d@.nodes[k as int] == d.nodes@[k as int]@);
        let u = d.nodes[k].id;
        proof { lemma_node_in_universe(d@.nodes, d@.edges, k as int); }
        let mut visiting: Vec<u128> = Vec::new();
        let dv = lp_visit_exec(d, u, &mut memo, &mut visiting, Ghost(fuel));
        if dv > max_depth {
            max_depth = dv;
        }
        k = k + 1;
    }
    max_depth
}

// ---------------------------------------------------------------- laws

/// A synchronous edge runs from `a` to `b`.
pub open spec fn sync_edge(edges: Seq<EdgeView>, a: u128, b: u128) -> bool {
    exists|k: int|
        0 <= k < edges.len() && (#[trigger] edges[k]).edge_type == EdgeType::Synchronous && edges[k].source_id
            == a && edges[k].target_id == b
}

/// Each id of `w` after the first is reached from the one before by a
/// synchronous edge.
pub open spec fn sync_path(edges: Seq<EdgeView>, w: Seq<u128>) -> bool {
    forall|t: int| 0 <= t < w.len() - 1 ==> #[trigger] sync_edge(edges, w[t], w[t + 1])
}

/// `x` lies on a cycle of synchronous edges.
pub open spec fn on_sync_cycle(edges: Seq<EdgeView>, x: u128) -> bool {
    exists|w: Seq<u128>| #[trigger] sync_path(edges, w) && w.len() >= 2 && w[0] == w.last() && w.contains(x)
}

/// Every id the search reported lies on a cycle of synchronous edges.
pub open spec fn cycles_sound(edges: Seq<EdgeView>, st: DfsState) -> bool {
    forall|x: u128| #[trigger] st.cycles.contains(x) ==> on_sync_cycle(edges, x)
}

proof fn lemma_path_push(edges: Seq<EdgeView>, w: Seq<u128>, x: u128)
    requires
        sync_path(edges, w),
        w.len() > 0,
        sync_edge(edges, w.last(), x),
    ensures
        sync_path(edges, w.push(x)),
{
    let v = w.push(x);
    assert forall|t: int| 0 <= t < v.len() - 1 implies #[trigger] sync_edge(edges, v[t], v[t + 1]) by {
        if t < w.len() - 1 {
            assert(v[t] == w[t] && v[t + 1] == w[t + 1]);
        } else {
            assert(v[t] == w.last() && v[t + 1] == x);
        }
    }
}

/// A back edge from the end of the current path to an id on it closes a
/// cycle through both ends.
proof fn lemma_back_edge_cycle(edges: Seq<EdgeView>, stack: Seq<u128>, u: u128, t: u128)
    requires
        sync_path(edges, stack),
        stack.len() > 0,
        stack.last() == u,
        stack.contains(t),
        sync_edge(edges, u, t),
    ensures
        on_sync_cycle(edges, t),
        on_sync_cycle(edges, u),
{
    let a = choose|a: int| 0 <= a < stack.len() && stack[a] == t;
    let p = stack.subrange(a, stack.len() as int);
    assert forall|q: int| 0 <= q < p.len() - 1 implies #[trigger] sync_edge(edges, p[q], p[q + 1]) by {
        assert(p[q] == stack[a + q] && p[q + 1] == stack[(a + q) + 1]);
    }
    assert(p.last() == u);
    lemma_path_push(edges, p, t);
    let w = p.push(t);
    assert(w[0] == t && w.last() == t && w.len() >= 2);
    assert(w[w.len() - 2] == u);
    assert(w.contains(t) && w.contains(u));
}

proof fn lemma_add_unique(s: Seq<u128>, x: u128)
    ensures
        forall|y: u128| #[trigger] add_unique(s, x).contains(y) ==> s.contains(y) || y == x,
{
    assert forall|y: u128| #[trigger] add_unique(s, x).contains(y) implies s.contains(y) || y == x by {
        if !s.contains(x) {
            let i = choose|i: int| 0 <= i < s.push(x).len() && s.push(x)[i] == y;
            if i < s.len() {
                assert(s[i] == y);
            }
        }
    }
}

proof fn lemma_visit_sound(edges: Seq<EdgeView>, u: u128, st: DfsState, fuel: nat)
    requires
        sync_path(edges, st.stack.push(u)),
        cycles_sound(edges, st),
    ensures
        dfs_visit(edges, u, st, fuel).stack == st.stack,
        cycles_sound(edges, dfs_visit(edges, u, st, fuel)),
    decreases fuel, edges.len() + 2,
{
    if fuel > 0 {
        let st1 = DfsState { visited: st.visited.push(u), stack: st.stack.push(u), cycles: st.cycles };
        lemma_edges_sound(edges, u, 0, st1, fuel);
        assert(st.stack.push(u).drop_last() =~= st.stack);
    }
}

proof fn lemma_edges_sound(edges: Seq<EdgeView>, u: u128, i: int, st: DfsState, fuel: nat)
    requires
        sync_path(edges, st.stack),
        st.stack.len() > 0,
        st.stack.last() == u,
        cycles_sound(edges, st),
    ensures
        dfs_edges(edges, u, i, st, fuel).stack == st.stack,
        cycles_sound(edges, dfs_edges(edges, u, i, st, fuel)),
    decreases fuel, edges.len() + 1 - i,
{
    if !(i < 0 || i >= edges.len() || fuel == 0) {
        let e = edges[i];
        if is_sync_from(e, u) {
            assert(sync_edge(edges, u, e.target_id));
            if !st.visited.contains(e.target_id) {
                lemma_path_push(edges, st.stack, e.target_id);
                lemma_visit_sound(edges, e.target_id, st, (fuel - 1) as nat);
                let st1 = dfs_visit(edges, e.target_id, st, (fuel - 1) as nat);
                lemma_edges_sound(edges, u, i + 1, st1, fuel);
            } else if st.stack.contains(e.target_id) {
                let c1 = add_unique(st.cycles, e.target_id);
                let st1 = DfsState { cycles: add_unique(c1, u), ..st };
                lemma_back_edge_cycle(edges, st.stack, u, e.target_id);
                lemma_add_unique(st.cycles, e.target_id);
                lemma_add_unique(c1, u);
                assert forall|x: u128| #[trigger] st1.cycles.contains(x) implies on_sync_cycle(edges, x) by {
                    if c1.contains(x) && st.cycles.contains(x) {
                    }
                }
                lemma_edges_sound(edges, u, i + 1, st1, fuel);
            } else {
                lemma_edges_sound(edges, u, i + 1, st, fuel);
            }
        } else {
            lemma_edges_sound(edges, u, i + 1, st, fuel);
        }
    }
}

proof fn lemma_all_sound(nodes: Seq<NodeView>, edges: Seq<EdgeView>, k: int, fuel: nat)
    ensures
        dfs_all(nodes, edges, k, fuel).stack == Seq::<u128>::empty(),
        cycles_sound(edges, dfs_all(nodes, edges, k, fuel)),
    decreases k,
{
    if k > 0 {
        lemma_all_sound(nodes, edges, k - 1, fuel);
        let st = dfs_all(nodes, edges, k - 1, fuel);
        let u = nodes[k - 1].id;
        if !st.visited.contains(u) {
            assert(sync_path(edges, st.stack.push(u)));
            lemma_visit_sound(edges, u, st, fuel);
        }
    }
}

/// Every node the cycle check reports lies on a cycle of synchronous edges;
/// so the check reports nothing when the synchronous edges form no cycle.
pub proof fn law_reported_cycles_are_real(nodes: Seq<NodeView>, edges: Seq<EdgeView>)
    ensures
        forall|x: u128| #[trigger] sync_cycle_nodes(nodes, edges).contains(x) ==> on_sync_cycle(edges, x),
        (forall|x: u128| !on_sync_cycle(edges, x)) ==> sync_cycle_nodes(nodes, edges).len() == 0,
{
    lemma_all_sound(nodes, edges, nodes.len() as int, search_fuel(nodes, edges));
    let c = sync_cycle_nodes(nodes, edges);
    if c.len() > 0 {
        assert(c.contains(c[0]));
    }
}

/// Some path of `d` synchronous edges starts at `u`.
pub open spec fn chain_from(edges: Seq<EdgeView>, u: u128, d: nat) -> bool {
    exists|w: Seq<u128>| #[trigger] sync_path(edges, w) && w.len() == d + 1 && w[0] == u
}

/// Every depth in the memo is the length of a path from its node.
pub open spec fn memo_paths(edges: Seq<EdgeView>, memo: Seq<(u128, nat)>) -> bool {
    forall|i: int| 0 <= i < memo.len() ==> chain_from(edges, (#[trigger] memo[i]).0, memo[i].1)
}

proof fn lemma_single_chain(edges: Seq<EdgeView>, u: u128)
    ensures
        chain_from(edges, u, 0),
{
    let w = seq![u];
    assert(sync_path(edges, w));
}

proof fn lemma_memo_lookup_chain(edges: Seq<EdgeView>, memo: Seq<(u128, nat)>, u: u128)
    requires
        memo_paths(edges, memo),
    ensures
        memo_lookup(memo, u) matches Some(d) ==> chain_from(edges, u, d),
    decreases memo.len(),
{
    if memo.len() > 0 {
        if memo.last().0 == u {
            assert(memo[memo.len() - 1] == memo.last());
        } else {
            let m0 = memo.drop_last();
            assert forall|i: int| 0 <= i < m0.len() implies chain_from(edges, (#[trigger] m0[i]).0, m0[i].1) by {
                assert(m0[i] == memo[i]);
            }
            lemma_memo_lookup_chain(edges, m0, u);
        }
    }
}

proof fn lemma_chain_extend(edges: Seq<EdgeView>, u: u128, t: u128, d: nat)
    requires
        sync_edge(edges, u, t),
        chain_from(edges, t, d),
    ensures
        chain_from(edges, u, d + 1),
{
    let w = choose|w: Seq<u128>| #[trigger] sync_path(edges, w) && w.len() == d + 1 && w[0] == t;
    let v = seq![u] + w;
    assert forall|q: int| 0 <= q < v.len() - 1 implies #[trigger] sync_edge(edges, v[q], v[q + 1]) by {
        if q == 0 {
            assert(v[0] == u && v[1] == t);
        } else {
            assert(v[q] == w[q - 1] && v[q + 1] == w[(q - 1) + 1]);
        }
    }
    assert(sync_path(edges, v) && v.len() == d + 2 && v[0] == u);
}

proof fn lemma_lp_visit_chain(edges: Seq<EdgeView>, u: u128, memo: Seq<(u128, nat)>, visiting: Seq<u128>, fuel: nat)
    requires
        memo_paths(edges, memo),
    ensures
        chain_from(edges, u, lp_visit(edges, u, memo, visiting, fuel).0),
        memo_paths(edges, lp_visit(edges, u, memo, visiting, fuel).1),
    decreases fuel, edges.len() + 2,
{
    lemma_memo_lookup_chain(edges, memo, u);
    lemma_single_chain(edges, u);
    if memo_lookup(memo, u) is None && !(visiting.contains(u) || fuel == 0) {
        lemma_lp_edges_chain(edges, u, 0, memo, visiting.push(u), fuel, 0);
        let r = lp_edges(edges, u, 0, memo, visiting.push(u), fuel, 0);
        let m = r.1.push((u, r.0));
        assert forall|i: int| 0 <= i < m.len() implies chain_from(edges, (#[trigger] m[i]).0, m[i].1) by {
            if i < r.1.len() {
                assert(m[i] == r.1[i]);
            }
        }
    }
}

proof fn lemma_lp_edges_chain(
    edges: Seq<EdgeView>,
    u: u128,
    i: int,
    memo: Seq<(u128, nat)>,
    visiting: Seq<u128>,
    fuel: nat,
    best: nat,
)
    requires
        memo_paths(edges, memo),
        chain_from(edges, u, best),
    ensures
        chain_from(edges, u, lp_edges(edges, u, i, memo, visiting, fuel, best).0),
        memo_paths(edges, lp_edges(edges, u, i, memo, visiting, fuel, best).1),
    decreases fuel, edges.len() + 1 - i,
{
    if !(i < 0 || i >= edges.len() || fuel == 0) {
        if is_sync_from(edges[i], u) {
            let t = edges[i].target_id;
            lemma_lp_visit_chain(edges, t, memo, visiting, (fuel - 1) as nat);
            let r = lp_visit(edges, t, memo, visiting, (fuel - 1) as nat);
            assert(sync_edge(edges, u, t));
            lemma_chain_extend(edges, u, t, r.0);
            lemma_lp_edges_chain(edges, u, i + 1, r.1, visiting, fuel, nat_max(best, r.0 + 1));
        } else {
            lemma_lp_edges_chain(edges, u, i + 1, memo, visiting, fuel, best);
        }
    }
}

proof fn lemma_lp_all_chain(nodes: Seq<NodeView>, edges: Seq<EdgeView>, k: int, fuel: nat)
    requires
        k <= nodes.len(),
    ensures
        memo_paths(edges, lp_all(nodes, edges, k, fuel).1),
        exists|w: Seq<u128>| #[trigger] sync_path(edges, w) && w.len() == lp_all(nodes, edges, k, fuel).0 + 1,
        k > 0 ==> exists|j: int| 0 <= j < k && #[trigger] chain_from(edges, nodes[j].id, lp_all(nodes, edges, k, fuel).0),
    decreases k,
{
    if k <= 0 {
        let w = seq![0u128];
        assert(sync_path(edges, w));
    } else {
        lemma_lp_all_chain(nodes, edges, k - 1, fuel);
        let prev = lp_all(nodes, edges, k - 1, fuel);
        lemma_lp_visit_chain(edges, nodes[k - 1].id, prev.1, Seq::empty(), fuel);
        let r = lp_visit(edges, nodes[k - 1].id, prev.1, Seq::empty(), fuel);
        let v = lp_all(nodes, edges, k, fuel).0;
        if prev.0 < r.0 || k == 1 {
            if prev.0 >= r.0 {
                assert(r.0 == 0 && v == 0);
            }
            let w = choose|w: Seq<u128>| #[trigger] sync_path(edges, w) && w.len() == r.0 + 1 && w[0] == nodes[k - 1].id;
            assert(sync_path(edges, w));
            assert(chain_from(edges, nodes[k - 1].id, v));
        } else {
            let j = choose|j: int| 0 <= j < k - 1 && #[trigger] chain_from(edges, nodes[j].id, prev.0);
            assert(chain_from(edges, nodes[j].id, v));
        }
    }
}

/// The chain length the check reports is achieved: some path of that many
/// synchronous edges exists.
pub proof fn law_reported_chain_exists(nodes: Seq<NodeView>, edges: Seq<EdgeView>)
    ensures
        exists|w: Seq<u128>| #[trigger] sync_path(edges, w) && w.len() == longest_sync_chain(nodes, edges) + 1,
        nodes.len() > 0 ==> exists|j: int|
            0 <= j < nodes.len() && #[trigger] chain_from(edges, nodes[j].id, longest_sync_chain(nodes, edges)),
{
    lemma_lp_all_chain(nodes, edges, nodes.len() as int, search_fuel(nodes, edges));
    if nodes.len() > 0 {
        let v = lp_all(nodes, edges, nodes.len() as int, search_fuel(nodes, edges)).0;
        let j = choose|j: int| 0 <= j < nodes.len() && #[trigger] chain_from(edges, nodes[j].id, v);
        assert(chain_from(edges, nodes[j].id, longest_sync_chain(nodes, edges)));
    }
}

/// No cycle of synchronous edges.
pub open spec fn sync_acyclic(edges: Seq<EdgeView>) -> bool {
    forall|w: Seq<u128>| #[trigger] sync_path(edges, w) && w.len() >= 2 ==> w[0] != w.last()
}

/// Every path of synchronous edges from `u` has at most `d` edges.
pub open spec fn paths_at_most(edges: Seq<EdgeView>, u: u128, d: nat) -> bool {
    forall|p: Seq<u128>| #[trigger] sync_path(edges, p) && p.len() > 0 && p[0] == u ==> p.len() <= d + 1
}

/// Every depth in the memo bounds the paths from its node.
pub open spec fn memo_bounds(edges: Seq<EdgeView>, memo: Seq<(u128, nat)>) -> bool {
    forall|i: int| 0 <= i < memo.len() ==> paths_at_most(edges, (#[trigger] memo[i]).0, memo[i].1)
}

/// Every edge target is in `univ`.
pub open spec fn targets_within(edges: Seq<EdgeView>, univ: Seq<u128>) -> bool {
    forall|k: int| 0 <= k < edges.len() ==> univ.contains(#[trigger] edges[k].target_id)
}

/// Every element of `q` is in `univ`.
pub open spec fn within(q: Seq<u128>, univ: Seq<u128>) -> bool {
    forall|i: int| 0 <= i < q.len() ==> univ.contains(#[trigger] q[i])
}

proof fn lemma_acyclic_no_dup(edges: Seq<EdgeView>, q: Seq<u128>)
    requires
        sync_acyclic(edges),
        sync_path(edges, q),
    ensures
        q.no_duplicates(),
{
    assert forall|a: int, b: int| 0 <= a < q.len() && 0 <= b < q.len() && a != b implies q[a] != q[b] by {
        let lo = if a < b { a } else { b };
        let hi = if a < b { b } else { a };
        let c = q.subrange(lo, hi + 1);
        assert forall|t: int| 0 <= t < c.len() - 1 implies #[trigger] sync_edge(edges, c[t], c[t + 1]) by {
            assert(c[t] == q[lo + t] && c[t + 1] == q[(lo + t) + 1]);
        }
        assert(sync_path(edges, c));
        assert(c[0] == q[lo] && c.last() == q[hi]);
    }
}

proof fn lemma_distinct_within_len(q: Seq<u128>, univ: Seq<u128>)
    requires
        q.no_duplicates(),
        within(q, univ),
    ensures
        q.len() <= univ.len(),
{
    assert(q.to_set().subset_of(univ.to_set())) by {
        assert forall|x: u128| q.to_set().contains(x) implies univ.to_set().contains(x) by {
            let i = choose|i: int| 0 <= i < q.len() && q[i] == x;
            assert(univ.contains(q[i]));
        }
    }
    univ.lemma_cardinality_of_set();
    vstd::set_lib::lemma_len_subset(q.to_set(), univ.to_set());
    q.unique_seq_to_set();
}

proof fn lemma_join(edges: Seq<EdgeView>, a: Seq<u128>, p: Seq<u128>)
    requires
        sync_path(edges, a),
        a.len() > 0,
        sync_path(edges, p),
        p.len() > 0,
        p[0] == a.last(),
    ensures
        sync_path(edges, a + p.drop_first()),
        (a + p.drop_first()).len() == a.len() + p.len() - 1,
{
    let q = a + p.drop_first();
    assert forall|t: int| 0 <= t < q.len() - 1 implies #[trigger] sync_edge(edges, q[t], q[t + 1]) by {
        if t < a.len() - 1 {
            assert(q[t] == a[t] && q[t + 1] == a[t + 1]);
        } else {
            let s = t - (a.len() - 1);
            assert(q[t] == p[s] && q[t + 1] == p[s + 1]);
            assert(sync_edge(edges, p[s], p[s + 1]));
        }
    }
}

/// With the current path `vis` ending at `u` and no cycles, every path from
/// `u` fits in the universe beside `vis`.
proof fn lemma_path_room(edges: Seq<EdgeView>, univ: Seq<u128>, vis: Seq<u128>, p: Seq<u128>)
    requires
        sync_acyclic(edges),
        targets_within(edges, univ),
        sync_path(edges, vis),
        vis.len() > 0,
        within(vis, univ),
        sync_path(edges, p),
        p.len() > 0,
        p[0] == vis.last(),
    ensures
        vis.len() + p.len() <= univ.len() + 1,
{
    lemma_join(edges, vis, p);
    let q = vis + p.drop_first();
    lemma_acyclic_no_dup(edges, q);
    assert forall|i: int| 0 <= i < q.len() implies univ.contains(#[trigger] q[i]) by {
        if i < vis.len() {
            assert(q[i] == vis[i]);
        } else {
            assert(sync_edge(edges, q[i - 1], q[(i - 1) + 1]));
            let k = choose|k: int|
                0 <= k < edges.len() && (#[trigger] edges[k]).edge_type == EdgeType::Synchronous
                    && edges[k].source_id == q[i - 1] && edges[k].target_id == q[(i - 1) + 1];
            assert(univ.contains(edges[k].target_id));
        }
    }
    lemma_distinct_within_len(q, univ);
}

proof fn lemma_memo_lookup_bound(edges: Seq<EdgeView>, memo: Seq<(u128, nat)>, u: u128)
    requires
        memo_bounds(edges, memo),
    ensures
        memo_lookup(memo, u) matches Some(d) ==> paths_at_most(edges, u, d),
    decreases memo.len(),
{
    if memo.len() > 0 {
        if memo.last().0 == u {
            assert(memo[memo.len() - 1] == memo.last());
        } else {
            let m0 = memo.drop_last();
            assert forall|i: int| 0 <= i < m0.len() implies paths_at_most(edges, (#[trigger] m0[i]).0, m0[i].1) by {
                assert(m0[i] == memo[i]);
            }
            lemma_memo_lookup_bound(edges, m0, u);
        }
    }
}

proof fn lemma_lp_visit_max(
    edges: Seq<EdgeView>,
    univ: Seq<u128>,
    u: u128,
    memo: Seq<(u128, nat)>,
    visiting: Seq<u128>,
    fuel: nat,
)
    requires
        sync_acyclic(edges),
        targets_within(edges, univ),
        memo_bounds(edges, memo),
        sync_path(edges, visiting.push(u)),
        within(visiting.push(u), univ),
        fuel + visiting.len() >= univ.len() + 1,
    ensures
        paths_at_most(edges, u, lp_visit(edges, u, memo, visiting, fuel).0),
        memo_bounds(edges, lp_visit(edges, u, memo, visiting, fuel).1),
    decreases fuel, edges.len() + 2,
{
    lemma_memo_lookup_bound(edges, memo, u);
    let vis = visiting.push(u);
    lemma_acyclic_no_dup(edges, vis);
    assert(sync_path(edges, seq![u]));
    lemma_path_room(edges, univ, vis, seq![u]);
    if visiting.contains(u) {
        let i = choose|i: int| 0 <= i < visiting.len() && visiting[i] == u;
        assert(vis[i] == vis[vis.len() - 1]);
    }
    if memo_lookup(memo, u) is None {
        lemma_lp_edges_max(edges, univ, u, 0, memo, vis, fuel, 0);
        let r = lp_edges(edges, u, 0, memo, vis, fuel, 0);
        assert forall|p: Seq<u128>| #[trigger] sync_path(edges, p) && p.len() > 0 && p[0] == u implies p.len()
            <= r.0 + 1 by {
            if p.len() >= 2 {
                assert(sync_edge(edges, p[0], p[0int + 1]));
                let k = choose|k: int|
                    0 <= k < edges.len() && (#[trigger] edges[k]).edge_type == EdgeType::Synchronous
                        && edges[k].source_id == p[0] && edges[k].target_id == p[0int + 1];
                let p1 = p.drop_first();
                assert forall|t: int| 0 <= t < p1.len() - 1 implies #[trigger] sync_edge(edges, p1[t], p1[t + 1]) by {
                    assert(p1[t] == p[t + 1] && p1[t + 1] == p[(t + 1) + 1]);
                }
                assert(sync_path(edges, p1) && p1[0] == edges[k].target_id);
                assert(is_sync_from(edges[k], u));
            }
        }
        let m = r.1.push((u, r.0));
        assert forall|i: int| 0 <= i < m.len() implies paths_at_most(edges, (#[trigger] m[i]).0, m[i].1) by {
            if i < r.1.len() {
                assert(m[i] == r.1[i]);
            }
        }
    }
}

proof fn lemma_lp_edges_max(
    edges: Seq<EdgeView>,
    univ: Seq<u128>,
    u: u128,
    i: int,
    memo: Seq<(u128, nat)>,
    vis: Seq<u128>,
    fuel: nat,
    best: nat,
)
    requires
        sync_acyclic(edges),
        targets_within(edges, univ),
        memo_bounds(edges, memo),
        sync_path(edges, vis),
        vis.len() > 0,
        vis.last() == u,
        within(vis, univ),
        fuel + vis.len() >= univ.len() + 2,
        i >= 0,
    ensures
        lp_edges(edges, u, i, memo, vis, fuel, best).0 >= best,
        memo_bounds(edges, lp_edges(edges, u, i, memo, vis, fuel, best).1),
        forall|k: int|
            i <= k < edges.len() && #[trigger] is_sync_from(edges[k], u) ==> forall|p: Seq<u128>|
                #[trigger] sync_path(edges, p) && p.len() > 0 && p[0] == edges[k].target_id ==> p.len()
                    <= lp_edges(edges, u, i, memo, vis, fuel, best).0,
    decreases fuel, edges.len() + 1 - i,
{
    if i < edges.len() {
        assert(sync_path(edges, seq![u]));
        lemma_path_room(edges, univ, vis, seq![u]);
        if is_sync_from(edges[i], u) {
            let t = edges[i].target_id;
            assert(sync_edge(edges, u, t));
            lemma_path_push(edges, vis, t);
            assert forall|j: int| 0 <= j < vis.push(t).len() implies univ.contains(#[trigger] vis.push(t)[j]) by {
                if j < vis.len() {
                    assert(vis.push(t)[j] == vis[j]);
                }
            }
            lemma_lp_visit_max(edges, univ, t, memo, vis, (fuel - 1) as nat);
            let r = lp_visit(edges, t, memo, vis, (fuel - 1) as nat);
            lemma_lp_edges_max(edges, univ, u, i + 1, r.1, vis, fuel, nat_max(best, r.0 + 1));
        } else {
            lemma_lp_edges_max(edges, univ, u, i + 1, memo, vis, fuel, best);
        }
    }
}

proof fn lemma_lp_all_max(nodes: Seq<NodeView>, edges: Seq<EdgeView>, k: int)
    requires
        sync_acyclic(edges),
        0 <= k <= nodes.len(),
    ensures
        memo_bounds(edges, lp_all(nodes, edges, k, search_fuel(nodes, edges)).1),
        forall|j: int|
            0 <= j < k ==> paths_at_most(edges, #[trigger] nodes[j].id, lp_all(nodes, edges, k, search_fuel(nodes, edges)).0),
    decreases k,
{
    let univ = sync_universe(nodes, edges);
    let fuel = search_fuel(nodes, edges);
    if k > 0 {
        lemma_lp_all_max(nodes, edges, k - 1);
        let prev = lp_all(nodes, edges, k - 1, fuel);
        let u = nodes[k - 1].id;
        assert forall|q: int| 0 <= q < edges.len() implies univ.contains(#[trigger] edges[q].target_id) by {
            assert(univ[nodes.len() + q] == edges[q].target_id);
        }
        assert(univ[k - 1] == u);
        let vis = Seq::<u128>::empty().push(u);
        assert(sync_path(edges, vis));
        assert forall|j: int| 0 <= j < vis.len() implies univ.contains(#[trigger] vis[j]) by {
            assert(univ[k - 1] == vis[j]);
        }
        lemma_lp_visit_max(edges, univ, u, prev.1, Seq::empty(), fuel);
        let r = lp_visit(edges, u, prev.1, Seq::empty(), fuel);
        let m = nat_max(prev.0, r.0);
        assert forall|j: int| 0 <= j < k implies paths_at_most(edges, #[trigger] nodes[j].id, m) by {
            if j < k - 1 {
                assert(paths_at_most(edges, nodes[j].id, prev.0));
            }
        }
    }
}

/// Without cycles of synchronous edges, the chain length the check reports
/// is the longest: no path of synchronous edges from a node has more edges.
pub proof fn law_reported_chain_is_longest(nodes: Seq<NodeView>, edges: Seq<EdgeView>, j: int, p: Seq<u128>)
    requires
        sync_acyclic(edges),
        0 <= j < nodes.len(),
        sync_path(edges, p),
        p.len() > 0,
        p[0] == nodes[j].id,
    ensures
        p.len() <= longest_sync_chain(nodes, edges) + 1,
{
    lemma_lp_all_max(nodes, edges, nodes.len() as int);
    assert(paths_at_most(edges, nodes[j].id, longest_sync_chain(nodes, edges)));
}

proof fn lemma_visit_cycles_grow(edges: Seq<EdgeView>, u: u128, st: DfsState, fuel: nat)
    ensures
        dfs_visit(edges, u, st, fuel).cycles.len() >= st.cycles.len(),
    decreases fuel, edges.len() + 2,
{
    if fuel > 0 {
        let st1 = DfsState { visited: st.visited.push(u), stack: st.stack.push(u), cycles: st.cycles };
        lemma_edges_cycles_grow(edges, u, 0, st1, fuel);
    }
}

proof fn lemma_edges_cycles_grow(edges: Seq<EdgeView>, u: u128, i: int, st: DfsState, fuel: nat)
    ensures
        dfs_edges(edges, u, i, st, fuel).cycles.len() >= st.cycles.len(),
    decreases fuel, edges.len() + 1 - i,
{
    if !(i < 0 || i >= edges.len() || fuel == 0) {
        let e = edges[i];
        if is_sync_from(e, u) {
            if !st.visited.contains(e.target_id) {
                lemma_visit_cycles_grow(edges, e.target_id, st, (fuel - 1) as nat);
                lemma_edges_cycles_grow(edges, u, i + 1, dfs_visit(edges, e.target_id, st, (fuel - 1) as nat), fuel);
            } else if st.stack.contains(e.target_id) {
                let c1 = add_unique(st.cycles, e.target_id);
                let st1 = DfsState { cycles: add_unique(c1, u), ..st };
                lemma_edges_cycles_grow(edges, u, i + 1, st1, fuel);
            } else {
                lemma_edges_cycles_grow(edges, u, i + 1, st, fuel);
            }
        } else {
            lemma_edges_cycles_grow(edges, u, i + 1, st, fuel);
        }
    }
}

/// The state of a search that has met no back edge, with `fin` the finished
/// ids in the order they finished: every synchronous edge from a finished id
/// leads to an id that finished before it.
pub open spec fn finish_order(edges: Seq<EdgeView>, univ: Seq<u128>, st: DfsState, fin: Seq<u128>) -> bool {
    &&& st.cycles.len() == 0
    &&& fin.no_duplicates()
    &&& st.stack.no_duplicates()
    &&& within(st.visited, univ)
    &&& forall|x: u128| #[trigger] st.stack.contains(x) ==> st.visited.contains(x)
    &&& forall|x: u128| #[trigger] fin.contains(x) <==> st.visited.contains(x) && !st.stack.contains(x)
    &&& forall|a: int, y: u128|
        0 <= a < fin.len() && #[trigger] sync_edge(edges, fin[a], y) ==> exists|b: int|
            0 <= b < a && #[trigger] fin[b] == y
}

proof fn lemma_visited_within_push(univ: Seq<u128>, v: Seq<u128>, u: u128)
    requires
        within(v, univ),
        univ.contains(u),
    ensures
        within(v.push(u), univ),
{
    assert forall|i: int| 0 <= i < v.push(u).len() implies univ.contains(#[trigger] v.push(u)[i]) by {
        if i < v.len() {
            assert(v.push(u)[i] == v[i]);
        }
    }
}

proof fn lemma_stack_room(univ: Seq<u128>, st: DfsState, u: u128)
    requires
        st.stack.no_duplicates(),
        forall|x: u128| #[trigger] st.stack.contains(x) ==> st.visited.contains(x),
        within(st.visited, univ),
        !st.visited.contains(u),
        univ.contains(u),
    ensures
        st.stack.len() + 1 <= univ.len(),
{
    let q = st.stack.push(u);
    assert forall|a: int, b: int| 0 <= a < q.len() && 0 <= b < q.len() && a != b implies q[a] != q[b] by {
        if a < st.stack.len() && b < st.stack.len() {
            assert(q[a] == st.stack[a] && q[b] == st.stack[b]);
        } else if a < st.stack.len() {
            assert(st.stack.contains(st.stack[a]));
            assert(q[a] == st.stack[a]);
        } else if b < st.stack.len() {
            assert(st.stack.contains(st.stack[b]));
            assert(q[b] == st.stack[b]);
        }
    }
    assert forall|i: int| 0 <= i < q.len() implies univ.contains(#[trigger] q[i]) by {
        if i < st.stack.len() {
            assert(q[i] == st.stack[i]);
            assert(st.stack.contains(st.stack[i]));
            let j = choose|j: int| 0 <= j < st.visited.len() && st.visited[j] == st.stack[i];
            assert(univ.contains(st.visited[j]));
        }
    }
    lemma_distinct_within_len(q, univ);
}

proof fn lemma_visit_finish(edges: Seq<EdgeView>, univ: Seq<u128>, u: u128, st: DfsState, fuel: nat, fin: Seq<u128>) -> (fin2: Seq<u128>)
    requires
        targets_within(edges, univ),
        finish_order(edges, univ, st, fin),
        !st.visited.contains(u),
        univ.contains(u),
        fuel + st.stack.len() >= univ.len() + 1,
    ensures
        dfs_visit(edges, u, st, fuel).cycles.len() == 0 ==> {
            let r = dfs_visit(edges, u, st, fuel);
            &&& finish_order(edges, univ, r, fin2)
            &&& r.stack == st.stack
            &&& fin2.len() >= fin.len() && fin2.subrange(0, fin.len() as int) == fin
            &&& fin2.contains(u)
            &&& forall|x: u128| #[trigger] st.visited.contains(x) ==> r.visited.contains(x)
        },
    decreases fuel, edges.len() + 2,
{
    lemma_stack_room(univ, st, u);
    let st1 = DfsState { visited: st.visited.push(u), stack: st.stack.push(u), cycles: st.cycles };
    lemma_visit_cycles_grow(edges, u, st, fuel);
    lemma_visited_within_push(univ, st.visited, u);
    assert(st1.stack.no_duplicates()) by {
        assert forall|a: int, b: int| 0 <= a < st1.stack.len() && 0 <= b < st1.stack.len() && a != b implies st1.stack[a] != st1.stack[b] by {
            if a < st.stack.len() && b < st.stack.len() {
            } else if a < st.stack.len() {
                assert(st.stack.contains(st.stack[a]));
            } else if b < st.stack.len() {
                assert(st.stack.contains(st.stack[b]));
            }
        }
    }
    assert forall|x: u128| #[trigger] st1.stack.contains(x) implies st1.visited.contains(x) by {
        let i = choose|i: int| 0 <= i < st1.stack.len() && st1.stack[i] == x;
        if i < st.stack.len() {
            assert(st.stack.contains(st.stack[i]));
            let j = choose|j: int| 0 <= j < st.visited.len() && st.visited[j] == x;
            assert(st1.visited[j] == x);
        } else {
            assert(st1.visited[st.visited.len() as int] == x);
        }
    }
    assert forall|x: u128| #[trigger] fin.contains(x) implies st1.visited.contains(x) && !st1.stack.contains(x) by {
        let j = choose|j: int| 0 <= j < st.visited.len() && st.visited[j] == x;
        assert(st1.visited[j] == x);
        if st1.stack.contains(x) {
            let i = choose|i: int| 0 <= i < st1.stack.len() && st1.stack[i] == x;
            if i < st.stack.len() {
                assert(st.stack.contains(st.stack[i]));
            }
        }
    }
    assert forall|x: u128| st1.visited.contains(x) && !st1.stack.contains(x) implies #[trigger] fin.contains(x) by {
        let j = choose|j: int| 0 <= j < st1.visited.len() && st1.visited[j] == x;
        if j < st.visited.len() {
            assert(st.visited[j] == x);
            if st.stack.contains(x) {
                let i = choose|i: int| 0 <= i < st.stack.len() && st.stack[i] == x;
                assert(st1.stack[i] == x);
            }
        } else {
            assert(st1.stack[st.stack.len() as int] == x);
        }
    }
    assert(finish_order(edges, univ, st1, fin));
    let fin1 = lemma_edges_finish(edges, univ, u, 0, st1, fuel, fin);
    let st2 = dfs_edges(edges, u, 0, st1, fuel);
    let fin2 = fin1.push(u);
    if st2.cycles.len() == 0 {
        let r = dfs_visit(edges, u, st, fuel);
        assert(st2.stack == st1.stack);
        assert(st1.stack.drop_last() =~= st.stack);
        assert(r.stack == st.stack && r.visited == st2.visited);
        assert(st2.stack.contains(u)) by {
            assert(st2.stack[st.stack.len() as int] == u);
        }
        assert(!fin1.contains(u));
        assert(fin2.no_duplicates()) by {
            assert forall|a: int, b: int| 0 <= a < fin2.len() && 0 <= b < fin2.len() && a != b implies fin2[a] != fin2[b] by {
                if a < fin1.len() && b < fin1.len() {
                } else if a < fin1.len() {
                    assert(fin1.contains(fin1[a]));
                } else if b < fin1.len() {
                    assert(fin1.contains(fin1[b]));
                }
            }
        }
        assert forall|x: u128| #[trigger] r.stack.contains(x) implies r.visited.contains(x) by {
            assert(st.visited.contains(x));
            let j = choose|j: int| 0 <= j < st.visited.len() && st.visited[j] == x;
            assert(st1.visited[j] == x);
            assert(st1.visited.contains(x));
        }
        assert forall|x: u128| #[trigger] fin2.contains(x) <==> r.visited.contains(x) && !r.stack.contains(x) by {
            if fin2.contains(x) {
                let i = choose|i: int| 0 <= i < fin2.len() && fin2[i] == x;
                if i < fin1.len() {
                    assert(fin1.contains(fin1[i]));
                    if r.stack.contains(x) {
                        let k = choose|k: int| 0 <= k < r.stack.len() && r.stack[k] == x;
                        assert(st2.stack[k] == x);
                    }
                } else {
                    assert(x == u);
                    if r.stack.contains(u) {
                        let k = choose|k: int| 0 <= k < r.stack.len() && r.stack[k] == u;
                        assert(st2.stack[k] == u);
                        assert(st2.stack[k] == st2.stack[st.stack.len() as int]);
                    }
                }
            }
            if r.visited.contains(x) && !r.stack.contains(x) {
                if x != u {
                    if st2.stack.contains(x) {
                        let k = choose|k: int| 0 <= k < st2.stack.len() && st2.stack[k] == x;
                        if k < st.stack.len() {
                            assert(r.stack[k] == x);
                        }
                    }
                    assert(fin1.contains(x));
                    let i = choose|i: int| 0 <= i < fin1.len() && fin1[i] == x;
                    assert(fin2[i] == x);
                } else {
                    assert(fin2[fin1.len() as int] == u);
                }
            }
        }
        assert forall|a: int, y: u128| 0 <= a < fin2.len() && #[trigger] sync_edge(edges, fin2[a], y) implies exists|b: int|
            0 <= b < a && #[trigger] fin2[b] == y by {
            if a < fin1.len() {
                assert(fin2[a] == fin1[a]);
                let b = choose|b: int| 0 <= b < a && #[trigger] fin1[b] == y;
                assert(fin2[b] == y);
            } else {
                assert(fin2[a] == u);
                let k = choose|k: int|
                    0 <= k < edges.len() && (#[trigger] edges[k]).edge_type == EdgeType::Synchronous
                        && edges[k].source_id == u && edges[k].target_id == y;
                assert(is_sync_from(edges[k], u));
                assert(fin1.contains(y));
                let b = choose|b: int| 0 <= b < fin1.len() && fin1[b] == y;
                assert(fin2[b] == y);
            }
        }
        assert(fin2.subrange(0, fin.len() as int) =~= fin) by {
            assert(fin1.subrange(0, fin.len() as int) == fin);
            assert forall|i: int| 0 <= i < fin.len() implies fin2[i] == fin[i] by {
                assert(fin2[i] == fin1[i]);
                assert(fin1.subrange(0, fin.len() as int)[i] == fin1[i]);
            }
        }
        assert(fin2[fin1.len() as int] == u);
        assert forall|x: u128| #[trigger] st.visited.contains(x) implies r.visited.contains(x) by {
            let j = choose|j: int| 0 <= j < st.visited.len() && st.visited[j] == x;
            assert(st1.visited[j] == x);
            assert(st1.visited.contains(x));
        }
    }
    fin2
}

proof fn lemma_edges_finish(edges: Seq<EdgeView>, univ: Seq<u128>, u: u128, i: int, st: DfsState, fuel: nat, fin: Seq<u128>) -> (fin2: Seq<u128>)
    requires
        targets_within(edges, univ),
        finish_order(edges, univ, st, fin),
        st.stack.len() > 0,
        st.stack.last() == u,
        fuel + st.stack.len() >= univ.len() + 2,
        i >= 0,
        forall|k: int| 0 <= k < i && #[trigger] is_sync_from(edges[k], u) ==> fin.contains(edges[k].target_id),
    ensures
        dfs_edges(edges, u, i, st, fuel).cycles.len() == 0 ==> {
            let r = dfs_edges(edges, u, i, st, fuel);
            &&& finish_order(edges, univ, r, fin2)
            &&& r.stack == st.stack
            &&& fin2.len() >= fin.len() && fin2.subrange(0, fin.len() as int) == fin
            &&& forall|k: int| 0 <= k < edges.len() && #[trigger] is_sync_from(edges[k], u) ==> fin2.contains(edges[k].target_id)
            &&& forall|x: u128| #[trigger] st.visited.contains(x) ==> r.visited.contains(x)
        },
    decreases fuel, edges.len() + 1 - i,
{
    assert(st.stack.contains(u)) by {
        assert(st.stack[st.stack.len() - 1] == u);
    }
    assert(st.stack.len() <= univ.len()) by {
        assert forall|j: int| 0 <= j < st.stack.len() implies univ.contains(#[trigger] st.stack[j]) by {
            assert(st.stack.contains(st.stack[j]));
            let v = choose|v: int| 0 <= v < st.visited.len() && st.visited[v] == st.stack[j];
            assert(univ.contains(st.visited[v]));
        }
        lemma_distinct_within_len(st.stack, univ);
    }
    assert(fin.subrange(0, fin.len() as int) =~= fin);
    if i >= edges.len() {
        fin
    } else {
        let e = edges[i];
        if is_sync_from(e, u) {
            let t = e.target_id;
            assert(univ.contains(t));
            if !st.visited.contains(t) {
                let fa = lemma_visit_finish(edges, univ, t, st, (fuel - 1) as nat, fin);
                let st1 = dfs_visit(edges, t, st, (fuel - 1) as nat);
                lemma_edges_cycles_grow(edges, u, i + 1, st1, fuel);
                if st1.cycles.len() == 0 {
                    assert forall|k: int| 0 <= k < i + 1 && #[trigger] is_sync_from(edges[k], u) implies fa.contains(edges[k].target_id) by {
                        if k < i {
                            let j = choose|j: int| 0 <= j < fin.len() && fin[j] == edges[k].target_id;
                            assert(fa.subrange(0, fin.len() as int)[j] == fa[j]);
                            assert(fa[j] == edges[k].target_id);
                        }
                    }
                    let fb = lemma_edges_finish(edges, univ, u, i + 1, st1, fuel, fa);
                    let r = dfs_edges(edges, u, i + 1, st1, fuel);
                    if r.cycles.len() == 0 {
                        assert(fb.subrange(0, fin.len() as int) =~= fin) by {
                            assert forall|q: int| 0 <= q < fin.len() implies fb[q] == fin[q] by {
                                assert(fb.subrange(0, fa.len() as int)[q] == fb[q]);
                                assert(fa.subrange(0, fin.len() as int)[q] == fa[q]);
                            }
                        }
                        assert forall|x: u128| #[trigger] st.visited.contains(x) implies r.visited.contains(x) by {
                            assert(st1.visited.contains(x));
                        }
                    }
                    fb
                } else {
                    fin
                }
            } else if st.stack.contains(t) {
                let c1 = add_unique(st.cycles, t);
                let st1 = DfsState { cycles: add_unique(c1, u), ..st };
                assert(st1.cycles.len() > 0);
                lemma_edges_cycles_grow(edges, u, i + 1, st1, fuel);
                fin
            } else {
                assert(fin.contains(t));
                lemma_edges_finish(edges, univ, u, i + 1, st, fuel, fin)
            }
        } else {
            lemma_edges_finish(edges, univ, u, i + 1, st, fuel, fin)
        }
    }
}

proof fn lemma_all_finish(nodes: Seq<NodeView>, edges: Seq<EdgeView>, k: int) -> (fin: Seq<u128>)
    requires
        0 <= k <= nodes.len(),
    ensures
        dfs_all(nodes, edges, k, search_fuel(nodes, edges)).cycles.len() == 0 ==> {
            let r = dfs_all(nodes, edges, k, search_fuel(nodes, edges));
            &&& finish_order(edges, sync_universe(nodes, edges), r, fin)
            &&& r.stack.len() == 0
            &&& forall|j: int| 0 <= j < k ==> r.visited.contains(#[trigger] nodes[j].id)
        },
    decreases k,
{
    let univ = sync_universe(nodes, edges);
    let fuel = search_fuel(nodes, edges);
    if k <= 0 {
        let fin = Seq::<u128>::empty();
        let r = dfs_all(nodes, edges, k, fuel);
        assert(finish_order(edges, univ, r, fin));
        fin
    } else {
        let fin0 = lemma_all_finish(nodes, edges, k - 1);
        let st = dfs_all(nodes, edges, k - 1, fuel);
        let u = nodes[k - 1].id;
        assert(univ[k - 1] == u);
        assert forall|q: int| 0 <= q < edges.len() implies univ.contains(#[trigger] edges[q].target_id) by {
            assert(univ[nodes.len() + q] == edges[q].target_id);
        }
        if st.visited.contains(u) {
            fin0
        } else {
            lemma_visit_cycles_grow(edges, u, st, fuel);
            let r = dfs_visit(edges, u, st, fuel);
            if st.cycles.len() == 0 {
                let fin = lemma_visit_finish(edges, univ, u, st, fuel, fin0);
                if r.cycles.len() == 0 {
                    assert forall|j: int| 0 <= j < k implies r.visited.contains(#[trigger] nodes[j].id) by {
                        if j < k - 1 {
                            assert(st.visited.contains(nodes[j].id));
                        } else {
                            assert(fin.contains(u));
                        }
                    }
                }
                fin
            } else {
                fin0
            }
        }
    }
}

/// A cycle of synchronous edges through a node of the diagram is always
/// reported: the cycle check finds something whenever such a cycle exists.
pub proof fn law_cycle_is_reported(nodes: Seq<NodeView>, edges: Seq<EdgeView>, j: int, w: Seq<u128>)
    requires
        0 <= j < nodes.len(),
        sync_path(edges, w),
        w.len() >= 2,
        w[0] == nodes[j].id,
        w.last() == w[0],
    ensures
        sync_cycle_nodes(nodes, edges).len() > 0,
{
    let fin = lemma_all_finish(nodes, edges, nodes.len() as int);
    let r = dfs_all(nodes, edges, nodes.len() as int, search_fuel(nodes, edges));
    if r.cycles.len() == 0 {
        assert(r.visited.contains(nodes[j].id));
        assert(!r.stack.contains(w[0]));
        assert(fin.contains(w[0]));
        let i0 = choose|i: int| 0 <= i < fin.len() && fin[i] == w[0];
        lemma_descend(edges, fin, w, i0, w.len() - 1);
        let b = choose|b: int| 0 <= b < i0 && fin[b] == w[w.len() - 1];
        assert(w[w.len() - 1] == w.last());
        assert(fin[b] == fin[i0]);
    }
}

proof fn lemma_descend(edges: Seq<EdgeView>, fin: Seq<u128>, w: Seq<u128>, i0: int, t: int)
    requires
        sync_path(edges, w),
        1 <= t < w.len(),
        0 <= i0 < fin.len(),
        fin[i0] == w[0],
        forall|a: int, y: u128|
            0 <= a < fin.len() && #[trigger] sync_edge(edges, fin[a], y) ==> exists|b: int|
                0 <= b < a && #[trigger] fin[b] == y,
    ensures
        exists|b: int| 0 <= b < i0 && fin[b] == w[t],
    decreases t,
{
    if t == 1 {
        assert(sync_edge(edges, w[0], w[0int + 1]));
        assert(sync_edge(edges, fin[i0], w[1]));
    } else {
        lemma_descend(edges, fin, w, i0, t - 1);
        let a = choose|b: int| 0 <= b < i0 && fin[b] == w[t - 1];
        assert(sync_edge(edges, w[t - 1], w[(t - 1) + 1]));
        assert(sync_edge(edges, fin[a], w[t]));
        let b = choose|b: int| 0 <= b < a && #[trigger] fin[b] == w[t];
    }
}

} // verus!

//! The rules that check a diagram's architecture. The lookups by id (incoming
//! counts, parents, same-type groups) scan the node and edge vectors rather
//! than build hash maps: each rule's spec is a fold over the nodes in order,
//! which these scans follow step by step, and it fixes the finding order that
//! a hash set's iteration would leave open.
use vstd::prelude::*;
use vstd::string::*;
use crate::entities::diagram::{Diagram, DiagramView};
use crate::entities::edge::{EdgeType, EdgeView};
use crate::entities::node::{
    first_with_id, is_group, is_group_type, lemma_first_with_id_found, lemma_first_with_id_none, MessagingComponent, NetworkingComponent, NodeType, NodeView,
};
use crate::entities::validation::{
    findings_view, FindingView, Severity, ValidationResult, ValidationRule, ValidationWarning,
};
use crate::ids::{is_v4_id, new_id};
use crate::services::sync_graph::{
    chain_from, law_cycle_is_reported, law_reported_chain_exists, law_reported_chain_is_longest,
    law_reported_cycles_are_real, on_sync_cycle, sync_acyclic, sync_edge, sync_path, longest_sync_chain, longest_sync_chain_exec, sync_cycle_nodes, sync_cycle_nodes_exec,
};
use crate::text::{contains_str, decimal, has_substring, lowercase, push_decimal, spec_lowercase};

verus! {

/// A finding with the given severity, message, nodes and rule, and no edges.
pub open spec fn finding_view(
    severity: Severity,
    message: Seq<char>,
    node_ids: Seq<u128>,
    rule: ValidationRule,
) -> FindingView {
    FindingView { severity, message, node_ids, edge_ids: Seq::empty(), rule }
}

/// Every warning has a fresh random (version-4) id.
pub open spec fn fresh_ids(s: Seq<ValidationWarning>) -> bool {
    forall|i: int| 0 <= i < s.len() ==> is_v4_id(#[trigger] s[i].id)
}

/// A finding with a fresh random id.
fn finding(severity: Severity, message: String, node_ids: Vec<u128>, rule: ValidationRule) -> (w:
    ValidationWarning)
    ensures
        w@ == finding_view(severity, message@, node_ids@, rule),
        is_v4_id(w.id),
{
    ValidationWarning { id: new_id(), severity, message, node_ids, edge_ids: Vec::new(), rule }
}

fn push_finding(out: &mut Vec<ValidationWarning>, w: ValidationWarning)
    requires
        is_v4_id(w.id),
    ensures
        findings_view(final(out)@) == findings_view(old(out)@).push(w@),
        fresh_ids(old(out)@) ==> fresh_ids(final(out)@),
{
    let ghost wv = w@;
    out.push(w);
    assert(findings_view(out@) =~= findings_view(old(out)@).push(wv));
}

fn append_findings(out: &mut Vec<ValidationWarning>, more: Vec<ValidationWarning>)
    ensures
        findings_view(final(out)@) == findings_view(old(out)@) + findings_view(more@),
        fresh_ids(old(out)@) && fresh_ids(more@) ==> fresh_ids(final(out)@),
{
    let mut more = more;
    let ghost m = more@;
    out.append(&mut more);
    assert(findings_view(out@) =~= findings_view(old(out)@) + findings_view(m));
}

/// `pre + label + post` as a new string.
fn quoted(pre: &str, label: &str, post: &str) -> (s: String)
    ensures
        s@ == pre@ + label@ + post@,
{
    let mut s = String::from_str(pre);
    s.append(label);
    s.append(post);
    s
}

fn one_id(id: u128) -> (v: Vec<u128>)
    ensures
        v@ == seq![id],
{
    let v = vec![id];
    assert(v@ =~= seq![id]);
    v
}

/// A finding about one node, with the message `pre + label + post`.
fn node_finding(
    severity: Severity,
    pre: &str,
    label: &str,
    post: &str,
    id: u128,
    rule: ValidationRule,
) -> (w: ValidationWarning)
    ensures
        w@ == finding_view(severity, pre@ + label@ + post@, seq![id], rule),
        is_v4_id(w.id),
{
    finding(severity, quoted(pre, label, post), one_id(id), rule)
}

// ---------------------------------------------------------------- orphans

/// Some edge starts or ends at `id`.
pub open spec fn touches(edges: Seq<EdgeView>, id: u128) -> bool {
    exists|e: int| 0 <= e < edges.len() && (edges[e].source_id == id || edges[e].target_id == id)
}

/// A non-group node that no edge starts or ends at.
pub open spec fn orphan_findings(nodes: Seq<NodeView>, edges: Seq<EdgeView>, k: int) -> Seq<FindingView>
    decreases k,
{
    if k <= 0 {
        Seq::empty()
    } else {
        let rest = orphan_findings(nodes, edges, k - 1);
        let n = nodes[k - 1];
        if !is_group(n.node_type) && !touches(edges, n.id) {
            rest.push(finding_view(
                Severity::Warning,
                "Node '"@ + n.label + "' has no connections"@,
                seq![n.id],
                ValidationRule::OrphanNode,
            ))
        } else {
            rest
        }
    }
}

fn touches_exec(d: &Diagram, id: u128) -> (b: bool)
    ensures
        b == touches(d@.edges, id),
{
    let mut e: usize = 0;
    while e < d.edges.len()
        invariant
            e <= d.edges@.len(),
            forall|j: int| 0 <= j < e ==> !(d@.edges[j].source_id == id || d@.edges[j].target_id == id),
        decreases d.edges.len() - e,
    {
        if d.edges[e].source_id == id || d.edges[e].target_id == id {
            assert(d@.edges[e as int].source_id == id || d@.edges[e as int].target_id == id);
            return true;
        }
        e = e + 1;
    }
    false
}

// ---------------------------------------------------------------- load balancers

pub open spec fn is_lb(t: NodeType) -> bool {
    t == NodeType::Networking(NetworkingComponent::LoadBalancer)
}

/// The number of edges among the first `m` that start at `id`.
pub open spec fn outgoing_count(edges: Seq<EdgeView>, id: u128, m: int) -> nat
    decreases m,
{
    if m <= 0 {
        0
    } else {
        outgoing_count(edges, id, m - 1) + if edges[m - 1].source_id == id { 1nat } else { 0nat }
    }
}

/// An earlier load balancer has the same id as node `i`.
pub open spec fn earlier_lb_with_id(nodes: Seq<NodeView>, i: int) -> bool {
    exists|j: int| 0 <= j < i && is_lb(nodes[j].node_type) && nodes[j].id == nodes[i].id
}

/// Each load balancer id with exactly one outgoing edge, named after the
/// first node with that id.
pub open spec fn lb_findings(nodes: Seq<NodeView>, edges: Seq<EdgeView>, k: int) -> Seq<FindingView>
    decreases k,
{
    if k <= 0 {
        Seq::empty()
    } else {
        let rest = lb_findings(nodes, edges, k - 1);
        let n = nodes[k - 1];
        if is_lb(n.node_type) && !earlier_lb_with_id(nodes, k - 1) && outgoing_count(
            edges,
            n.id,
            edges.len() as int,
        ) == 1 {
            rest.push(finding_view(
                Severity::Warning,
                "Load balancer '"@ + nodes[first_with_id(nodes, n.id, nodes.len() as int).unwrap()].label
                    + "' has only 1 target, defeating its purpose"@,
                seq![n.id],
                ValidationRule::SingleTargetLb,
            ))
        } else {
            rest
        }
    }
}

fn is_lb_exec(t: &NodeType) -> (b: bool)
    ensures
        b == is_lb(*t),
{
    *t == NodeType::Networking(NetworkingComponent::LoadBalancer)
}

fn outgoing_count_exec(d: &Diagram, id: u128) -> (c: usize)
    ensures
        c == outgoing_count(d@.edges, id, d@.edges.len() as int),
{
    let mut c: usize = 0;
    let mut m: usize = 0;
    while m < d.edges.len()
        invariant
            m <= d.edges@.len(),
            c <= m,
            c == outgoing_count(d@.edges, id, m as int),
        decreases d.edges.len() - m,
    {
        if d.edges[m].source_id == id {
            c = c + 1;
        }
        m = m + 1;
    }
    c
}

fn first_with_id_exec(d: &Diagram, id: u128) -> (i: usize)
    requires
        exists|j: int| 0 <= j < d@.nodes.len() && d@.nodes[j].id == id,
    ensures
        i < d@.nodes.len(),
        first_with_id(d@.nodes, id, d@.nodes.len() as int) == Some(i as int),
{
    let mut i: usize = 0;
    while i < d.nodes.len()
        invariant
            i <= d.nodes@.len(),
            forall|j: int| 0 <= j < i ==> d@.nodes[j].id != id,
            exists|j: int| 0 <= j < d@.nodes.len() && d@.nodes[j].id == id,
        decreases d.nodes.len() - i,
    {
        assert(d@.nodes[i as int] == d.nodes@[i as int]@);
        if d.nodes[i].id == id {
            proof { lemma_first_with_id_found(d@.nodes, id, d@.nodes.len() as int, i as int); }
            return i;
        }
        i = i + 1;
    }
    assert(false);
    0
}

fn earlier_lb_with_id_exec(d: &Diagram, i: usize) -> (b: bool)
    requires
        i < d@.nodes.len(),
    ensures
        b == earlier_lb_with_id(d@.nodes, i as int),
{
    let mut j: usize = 0;
    while j < i
        invariant
            i < d@.nodes.len(),
            j <= i,
            forall|m: int| 0 <= m < j ==> !(is_lb(d@.nodes[m].node_type) && d@.nodes[m].id == d@.nodes[i as int].id),
        decreases i - j,
    {
        assert(d@.nodes[j as int] == d.nodes@[j as int]@);
        assert(d@.nodes[i as int] == d.nodes@[i as int]@);
        if is_lb_exec(&d.nodes[j].node_type) && d.nodes[j].id == d.nodes[i].id {
            return true;
        }
        j = j + 1;
    }
    false
}

// ---------------------------------------------------------------- containment

/// The last of the first `k` nodes with id `id` (the node an id denotes when
/// ids repeat).
pub open spec fn last_with_id(nodes: Seq<NodeView>, id: u128, k: int) -> Option<int>
    decreases k,
{
    if k <= 0 {
        None
    } else if nodes[k - 1].id == id {
        Some(k - 1)
    } else {
        last_with_id(nodes, id, k - 1)
    }
}

/// The parent id of the node that `c` denotes, if there is such a node and it
/// has a parent.
pub open spec fn parent_step(nodes: Seq<NodeView>, c: u128) -> Option<u128> {
    match last_with_id(nodes, c, nodes.len() as int) {
        Some(j) => nodes[j].parent_id,
        None => None,
    }
}

/// The `k`-th element of the chain of parents that starts at `start`.
pub open spec fn chain_at(nodes: Seq<NodeView>, start: u128, k: nat) -> Option<u128>
    decreases k,
{
    if k == 0 {
        Some(start)
    } else {
        match chain_at(nodes, start, (k - 1) as nat) {
            Some(c) => parent_step(nodes, c),
            None => None,
        }
    }
}

/// The chain of parents from `pid` does not end within one step more than
/// there are nodes; it then revisits an id and never ends.
pub open spec fn nesting_is_circular(nodes: Seq<NodeView>, pid: u128) -> bool {
    chain_at(nodes, pid, (nodes.len() + 1) as nat) is Some
}

/// The containment findings of one node: a parent that does not exist or is
/// not a group, and a circular chain of parents.
pub open spec fn containment_of(nodes: Seq<NodeView>, n: NodeView) -> Seq<FindingView> {
    match n.parent_id {
        None => Seq::empty(),
        Some(pid) => {
            let first = match last_with_id(nodes, pid, nodes.len() as int) {
                None => seq![finding_view(
                    Severity::Error,
                    "Node '"@ + n.label + "' references non-existent parent"@,
                    seq![n.id],
                    ValidationRule::InvalidContainment,
                )],
                Some(j) => if !is_group(nodes[j].node_type) {
                    seq![finding_view(
                        Severity::Error,
                        "Node '"@ + n.label + "' has parent '"@ + nodes[j].label
                            + "' which is not a Group node"@,
                        seq![n.id, pid],
                        ValidationRule::InvalidContainment,
                    )]
                } else {
                    Seq::empty()
                },
            };
            first + if nesting_is_circular(nodes, pid) {
                seq![finding_view(
                    Severity::Error,
                    "Node '"@ + n.label + "' is part of a circular nesting chain"@,
                    seq![n.id],
                    ValidationRule::InvalidContainment,
                )]
            } else {
                Seq::empty()
            }
        },
    }
}

pub open spec fn containment_findings(nodes: Seq<NodeView>, k: int) -> Seq<FindingView>
    decreases k,
{
    if k <= 0 {
        Seq::empty()
    } else {
        containment_findings(nodes, k - 1) + containment_of(nodes, nodes[k - 1])
    }
}

fn last_with_id_exec(d: &Diagram, id: u128) -> (r: Option<usize>)
    ensures
        match r {
            Some(j) => j < d@.nodes.len() && last_with_id(d@.nodes, id, d@.nodes.len() as int) == Some(j as int),
            None => last_with_id(d@.nodes, id, d@.nodes.len() as int) is None,
        },
{
    let ghost nodes = d@.nodes;
    let mut k: usize = d.nodes.len();
    while k > 0
        invariant
            k <= d.nodes@.len(),
            nodes == d@.nodes,
            last_with_id(nodes, id, nodes.len() as int) == last_with_id(nodes, id, k as int),
        decreases k,
    {
        assert(d@.nodes[k - 1] == d.nodes@[k - 1]@);
        if d.nodes[k - 1].id == id {
            return Some(k - 1);
        }
        k = k - 1;
    }
    None
}

fn parent_step_exec(d: &Diagram, c: u128) -> (r: Option<u128>)
    ensures
        r == parent_step(d@.nodes, c),
{
    match last_with_id_exec(d, c) {
        Some(j) => {
            assert(d@.nodes[j as int] == d.nodes@[j as int]@);
            d.nodes[j].parent_id
        }
        None => None,
    }
}

fn nesting_is_circular_exec(d: &Diagram, pid: u128) -> (b: bool)
    ensures
        b == nesting_is_circular(d@.nodes, pid),
{
    let mut cur: Option<u128> = parent_step_exec(d, pid);
    assert(chain_at(d@.nodes, pid, 0) == Some(pid));
    let mut k: usize = 0;
    while k < d.nodes.len()
        invariant
            k <= d.nodes@.len(),
            cur == chain_at(d@.nodes, pid, (k + 1) as nat),
        decreases d.nodes.len() - k,
    {
        cur = match cur {
            Some(c) => parent_step_exec(d, c),
            None => None,
        };
        k = k + 1;
    }
    cur.is_some()
}

// ---------------------------------------------------------------- single points of failure

/// The number of edges among the first `m` that end at `id`.
pub open spec fn incoming_count(edges: Seq<EdgeView>, id: u128, m: int) -> nat
    decreases m,
{
    if m <= 0 {
        0
    } else {
        incoming_count(edges, id, m - 1) + if edges[m - 1].target_id == id { 1nat } else { 0nat }
    }
}

/// No later node has the id of node `i` (it is the node its id denotes).
pub open spec fn is_last_with_id(nodes: Seq<NodeView>, i: int) -> bool {
    forall|j: int| i < j < nodes.len() ==> nodes[j].id != nodes[i].id
}

/// The number of distinct ids among the first `k` nodes whose node has the
/// given type and parent.
pub open spec fn type_parent_count(
    nodes: Seq<NodeView>,
    t: NodeType,
    p: Option<u128>,
    k: int,
) -> nat
    decreases k,
{
    if k <= 0 {
        0
    } else {
        type_parent_count(nodes, t, p, k - 1) + if is_last_with_id(nodes, k - 1) && nodes[k
            - 1].node_type == t && nodes[k - 1].parent_id == p {
            1nat
        } else {
            0nat
        }
    }
}

/// A node with at least 3 incoming edges and no other node of its type under
/// the same parent.
pub open spec fn spof_findings(nodes: Seq<NodeView>, edges: Seq<EdgeView>, k: int) -> Seq<FindingView>
    decreases k,
{
    if k <= 0 {
        Seq::empty()
    } else {
        let rest = spof_findings(nodes, edges, k - 1);
        let n = nodes[k - 1];
        let c = incoming_count(edges, n.id, edges.len() as int);
        if c >= 3 && type_parent_count(nodes, n.node_type, n.parent_id, nodes.len() as int) <= 1 {
            rest.push(finding_view(
                Severity::Warning,
                "Node '"@ + n.label + "' is a single point of failure with "@ + decimal(c)
                    + " incoming connections"@,
                seq![n.id],
                ValidationRule::SinglePointOfFailure,
            ))
        } else {
            rest
        }
    }
}

fn incoming_count_exec(d: &Diagram, id: u128) -> (c: usize)
    ensures
        c == incoming_count(d@.edges, id, d@.edges.len() as int),
{
    let mut c: usize = 0;
    let mut m: usize = 0;
    while m < d.edges.len()
        invariant
            m <= d.edges@.len(),
            c <= m,
            c == incoming_count(d@.edges, id, m as int),
        decreases d.edges.len() - m,
    {
        if d.edges[m].target_id == id {
            c = c + 1;
        }
        m = m + 1;
    }
    c
}

fn is_last_with_id_exec(d: &Diagram, i: usize) -> (b: bool)
    requires
        i < d@.nodes.len(),
    ensures
        b == is_last_with_id(d@.nodes, i as int),
{
    let n = d.nodes.len();
    assert(n == d@.nodes.len());
    let mut j: usize = i + 1;
    while j < d.nodes.len()
        invariant
            i < j <= d.nodes@.len(),
            forall|m: int| i < m < j ==> d@.nodes[m].id != d@.nodes[i as int].id,
        decreases d.nodes.len() - j,
    {
        assert(d@.nodes[j as int] == d.nodes@[j as int]@);
        assert(d@.nodes[i as int] == d.nodes@[i as int]@);
        if d.nodes[j].id == d.nodes[i].id {
            return false;
        }
        j = j + 1;
    }
    true
}

fn type_parent_count_exec(d: &Diagram, t: NodeType, p: Option<u128>) -> (c: usize)
    ensures
        c == type_parent_count(d@.nodes, t, p, d@.nodes.len() as int),
{
    let mut c: usize = 0;
    let mut k: usize = 0;
    while k < d.nodes.len()
        invariant
            k <= d.nodes@.len(),
            c <= k,
            c == type_parent_count(d@.nodes, t, p, k as int),
        decreases d.nodes.len() - k,
    {
        assert(d@.nodes[k as int] == d.nodes@[k as int]@);
        if d.nodes[k].node_type == t && d.nodes[k].parent_id == p && is_last_with_id_exec(d, k) {
            c = c + 1;
        }
        k = k + 1;
    }
    c
}

// ---------------------------------------------------------------- missing categories

pub open spec fn has_observability(nodes: Seq<NodeView>) -> bool {
    exists|i: int| 0 <= i < nodes.len() && nodes[i].node_type is Observability
}

pub open spec fn has_security(nodes: Seq<NodeView>) -> bool {
    exists|i: int| 0 <= i < nodes.len() && nodes[i].node_type is Security
}

pub open spec fn observability_findings(nodes: Seq<NodeView>) -> Seq<FindingView> {
    if has_observability(nodes) {
        Seq::empty()
    } else {
        seq![finding_view(
            Severity::Info,
            "No observability components found in the architecture"@,
            Seq::empty(),
            ValidationRule::MissingObservability,
        )]
    }
}

pub open spec fn security_findings(nodes: Seq<NodeView>) -> Seq<FindingView> {
    if has_security(nodes) {
        Seq::empty()
    } else {
        seq![finding_view(
            Severity::Info,
            "No security components found in the architecture"@,
            Seq::empty(),
            ValidationRule::MissingSecurity,
        )]
    }
}

// ---------------------------------------------------------------- backups

/// Some storage node has id `id`.
pub open spec fn is_storage_id(nodes: Seq<NodeView>, id: u128) -> bool {
    exists|i: int| 0 <= i < nodes.len() && nodes[i].node_type is Storage && nodes[i].id == id
}

/// A data-flow edge leads from `id` to a storage node.
pub open spec fn flows_to_storage(nodes: Seq<NodeView>, edges: Seq<EdgeView>, id: u128) -> bool {
    exists|e: int|
        0 <= e < edges.len() && edges[e].edge_type == EdgeType::DataFlow && is_storage_id(
            nodes,
            edges[e].target_id,
        ) && edges[e].source_id == id
}

/// The number of data nodes among the first `k` with type `t`.
pub open spec fn same_type_count(nodes: Seq<NodeView>, t: NodeType, k: int) -> nat
    decreases k,
{
    if k <= 0 {
        0
    } else {
        same_type_count(nodes, t, k - 1) + if nodes[k - 1].node_type is Data && nodes[k - 1].node_type
            == t {
            1nat
        } else {
            0nat
        }
    }
}

/// A data node that is the only one of its type and has no data flow to a
/// storage node.
pub open spec fn backup_findings(nodes: Seq<NodeView>, edges: Seq<EdgeView>, k: int) -> Seq<FindingView>
    decreases k,
{
    if k <= 0 {
        Seq::empty()
    } else {
        let rest = backup_findings(nodes, edges, k - 1);
        let n = nodes[k - 1];
        if n.node_type is Data && same_type_count(nodes, n.node_type, nodes.len() as int) <= 1
            && !flows_to_storage(nodes, edges, n.id) {
            rest.push(finding_view(
                Severity::Warning,
                "Database '"@ + n.label + "' has no backup or replication strategy"@,
                seq![n.id],
                ValidationRule::DatabaseWithoutBackup,
            ))
        } else {
            rest
        }
    }
}

fn is_storage_id_exec(d: &Diagram, id: u128) -> (b: bool)
    ensures
        b == is_storage_id(d@.nodes, id),
{
    let mut i: usize = 0;
    while i < d.nodes.len()
        invariant
            i <= d.nodes@.len(),
            forall|j: int| 0 <= j < i ==> !(d@.nodes[j].node_type is Storage && d@.nodes[j].id == id),
        decreases d.nodes.len() - i,
    {
        assert(d@.nodes[i as int] == d.nodes@[i as int]@);
        let is_storage = match d.nodes[i].node_type {
            NodeType::Storage(_) => true,
            _ => false,
        };
        if is_storage && d.nodes[i].id == id {
            return true;
        }
        i = i + 1;
    }
    false
}

fn flows_to_storage_exec(d: &Diagram, id: u128) -> (b: bool)
    ensures
        b == flows_to_storage(d@.nodes, d@.edges, id),
{
    let mut e: usize = 0;
    while e < d.edges.len()
        invariant
            e <= d.edges@.len(),
            forall|j: int|
                0 <= j < e ==> !(d@.edges[j].edge_type == EdgeType::DataFlow && is_storage_id(
                    d@.nodes,
                    d@.edges[j].target_id,
                ) && d@.edges[j].source_id == id),
        decreases d.edges.len() - e,
    {
        assert(d@.edges[e as int] == d.edges@[e as int]@);
        let edge = &d.edges[e];
        if edge.edge_type == EdgeType::DataFlow && edge.source_id == id && is_storage_id_exec(d, edge.target_id) {
            return true;
        }
        e = e + 1;
    }
    false
}

fn same_type_count_exec(d: &Diagram, t: NodeType) -> (c: usize)
    ensures
        c == same_type_count(d@.nodes, t, d@.nodes.len() as int),
{
    let mut c: usize = 0;
    let mut k: usize = 0;
    while k < d.nodes.len()
        invariant
            k <= d.nodes@.len(),
            c <= k,
            c == same_type_count(d@.nodes, t, k as int),
        decreases d.nodes.len() - k,
    {
        assert(d@.nodes[k as int] == d.nodes@[k as int]@);
        let is_data = match d.nodes[k].node_type {
            NodeType::Data(_) => true,
            _ => false,
        };
        if is_data && d.nodes[k].node_type == t {
            c = c + 1;
        }
        k = k + 1;
    }
    c
}

// ---------------------------------------------------------------- dead letter queues

pub open spec fn is_mq(t: NodeType) -> bool {
    t == NodeType::Messaging(MessagingComponent::MessageQueue)
}

/// A message queue, or a node whose lowercased label mentions `dlq` or
/// `dead letter`.
pub open spec fn is_dlq_like(n: NodeView) -> bool {
    is_mq(n.node_type) || has_substring(spec_lowercase(n.label), "dlq"@) || has_substring(
        spec_lowercase(n.label),
        "dead letter"@,
    )
}

pub open spec fn is_dlq_id(nodes: Seq<NodeView>, id: u128) -> bool {
    exists|i: int| 0 <= i < nodes.len() && is_dlq_like(nodes[i]) && nodes[i].id == id
}

/// An edge joins `id` to another queue or dead-letter node, in either direction.
pub open spec fn has_dlq_connection(nodes: Seq<NodeView>, edges: Seq<EdgeView>, id: u128) -> bool {
    exists|e: int|
        0 <= e < edges.len() && ((edges[e].source_id == id && is_dlq_id(nodes, edges[e].target_id)
            && edges[e].target_id != id) || (edges[e].target_id == id && is_dlq_id(
            nodes,
            edges[e].source_id,
        ) && edges[e].source_id != id))
}

/// A message queue joined to no other queue or dead-letter node.
pub open spec fn dlq_findings(nodes: Seq<NodeView>, edges: Seq<EdgeView>, k: int) -> Seq<FindingView>
    decreases k,
{
    if k <= 0 {
        Seq::empty()
    } else {
        let rest = dlq_findings(nodes, edges, k - 1);
        let n = nodes[k - 1];
        if is_mq(n.node_type) && !has_dlq_connection(nodes, edges, n.id) {
            rest.push(finding_view(
                Severity::Warning,
                "Message queue '"@ + n.label + "' has no dead letter queue configured"@,
                seq![n.id],
                ValidationRule::MessageQueueWithoutDlq,
            ))
        } else {
            rest
        }
    }
}

fn is_mq_exec(t: &NodeType) -> (b: bool)
    ensures
        b == is_mq(*t),
{
    *t == NodeType::Messaging(MessagingComponent::MessageQueue)
}

/// Whether each node is a queue or dead-letter node.
fn dlq_flags(d: &Diagram) -> (f: Vec<bool>)
    ensures
        f@.len() == d@.nodes.len(),
        forall|i: int| 0 <= i < f@.len() ==> f@[i] == is_dlq_like(d@.nodes[i]),
{
    let mut f: Vec<bool> = Vec::new();
    let mut i: usize = 0;
    while i < d.nodes.len()
        invariant
            i <= d.nodes@.len(),
            f@.len() == i,
            forall|j: int| 0 <= j < i ==> f@[j] == is_dlq_like(d@.nodes[j]),
        decreases d.nodes.len() - i,
    {
        assert(d@.nodes[i as int] == d.nodes@[i as int]@);
        let n = &d.nodes[i];
        let lower = lowercase(n.label.as_str());
        let like = is_mq_exec(&n.node_type) || contains_str(lower.as_str(), "dlq") || contains_str(
            lower.as_str(),
            "dead letter",
        );
        f.push(like);
        i = i + 1;
    }
    f
}

fn is_dlq_id_exec(d: &Diagram, flags: &Vec<bool>, id: u128) -> (b: bool)
    requires
        flags@.len() == d@.nodes.len(),
        forall|i: int| 0 <= i < flags@.len() ==> flags@[i] == is_dlq_like(d@.nodes[i]),
    ensures
        b == is_dlq_id(d@.nodes, id),
{
    let mut i: usize = 0;
    while i < d.nodes.len()
        invariant
            i <= d.nodes@.len(),
            flags@.len() == d@.nodes.len(),
            forall|j: int| 0 <= j < flags@.len() ==> flags@[j] == is_dlq_like(d@.nodes[j]),
            forall|j: int| 0 <= j < i ==> !(is_dlq_like(d@.nodes[j]) && d@.nodes[j].id == id),
        decreases d.nodes.len() - i,
    {
        assert(d@.nodes[i as int] == d.nodes@[i as int]@);
        if flags[i] && d.nodes[i].id == id {
            return true;
        }
        i = i + 1;
    }
    false
}

fn has_dlq_connection_exec(d: &Diagram, flags: &Vec<bool>, id: u128) -> (b: bool)
    requires
        flags@.len() == d@.nodes.len(),
        forall|i: int| 0 <= i < flags@.len() ==> flags@[i] == is_dlq_like(d@.nodes[i]),
    ensures
        b == has_dlq_connection(d@.nodes, d@.edges, id),
{
    let ghost nodes = d@.nodes;
    let ghost edges = d@.edges;
    let mut e: usize = 0;
    while e < d.edges.len()
        invariant
            e <= d.edges@.len(),
            nodes == d@.nodes,
            edges == d@.edges,
            flags@.len() == d@.nodes.len(),
            forall|i: int| 0 <= i < flags@.len() ==> flags@[i] == is_dlq_like(d@.nodes[i]),
            forall|j: int|
                0 <= j < e ==> !((edges[j].source_id == id && is_dlq_id(nodes, edges[j].target_id)
                    && edges[j].target_id != id) || (edges[j].target_id == id && is_dlq_id(
                    nodes,
                    edges[j].source_id,
                ) && edges[j].source_id != id)),
        decreases d.edges.len() - e,
    {
        assert(d@.edges[e as int] == d.edges@[e as int]@);
        let edge = &d.edges[e];
        let out_ok = edge.source_id == id && edge.target_id != id && is_dlq_id_exec(d, flags, edge.target_id);
        let in_ok = edge.target_id == id && edge.source_id != id && is_dlq_id_exec(d, flags, edge.source_id);
        if out_ok || in_ok {
            return true;
        }
        e = e + 1;
    }
    false
}

// ---------------------------------------------------------------- synchronous calls

/// One finding listing the ends of the back edges, when the search over
/// synchronous edges meets a cycle.
pub open spec fn circular_findings(nodes: Seq<NodeView>, edges: Seq<EdgeView>) -> Seq<FindingView> {
    let c = sync_cycle_nodes(nodes, edges);
    if c.len() == 0 {
        Seq::empty()
    } else {
        seq![finding_view(
            Severity::Warning,
            "Circular synchronous dependency detected"@,
            c,
            ValidationRule::CircularSyncDependency,
        )]
    }
}

/// One finding when the longest chain of synchronous calls exceeds 4 hops.
pub open spec fn chain_findings(nodes: Seq<NodeView>, edges: Seq<EdgeView>) -> Seq<FindingView> {
    let m = longest_sync_chain(nodes, edges);
    if m > 4 {
        seq![finding_view(
            Severity::Warning,
            "Synchronous call chain is "@ + decimal(m) + " hops deep (recommended max: 4)"@,
            Seq::empty(),
            ValidationRule::SyncChainTooDeep,
        )]
    } else {
        Seq::empty()
    }
}

/// All findings of the validator, rule by rule in a fixed order.
pub open spec fn all_findings(d: DiagramView) -> Seq<FindingView> {
    let n = d.nodes.len() as int;
    orphan_findings(d.nodes, d.edges, n) + lb_findings(d.nodes, d.edges, n) + containment_findings(
        d.nodes,
        n,
    ) + circular_findings(d.nodes, d.edges) + spof_findings(d.nodes, d.edges, n)
        + observability_findings(d.nodes) + security_findings(d.nodes) + backup_findings(
        d.nodes,
        d.edges,
        n,
    ) + chain_findings(d.nodes, d.edges) + dlq_findings(d.nodes, d.edges, n)
}

/// Some finding is an error.
pub open spec fn has_error(f: Seq<FindingView>) -> bool {
    exists|i: int| 0 <= i < f.len() && f[i].severity == Severity::Error
}

pub struct ValidationService;

impl ValidationService {
    /// All findings of the diagram; the diagram is valid unless one of them
    /// is an error.
    pub fn validate(diagram: &Diagram) -> (r: ValidationResult)
        ensures
            findings_view(r.warnings@) == all_findings(diagram@),
            r.valid == !has_error(all_findings(diagram@)),
            fresh_ids(r.warnings@),
    {
        let mut warnings: Vec<ValidationWarning> = Vec::new();
        append_findings(&mut warnings, Self::check_orphan_nodes(diagram));
        append_findings(&mut warnings, Self::check_single_target_lb(diagram));
        append_findings(&mut warnings, Self::check_invalid_containment(diagram));
        append_findings(&mut warnings, Self::check_circular_sync_dependencies(diagram));
        append_findings(&mut warnings, Self::check_single_point_of_failure(diagram));
        append_findings(&mut warnings, Self::check_missing_observability(diagram));
        append_findings(&mut warnings, Self::check_missing_security(diagram));
        append_findings(&mut warnings, Self::check_database_without_backup(diagram));
        append_findings(&mut warnings, Self::check_sync_chain_too_deep(diagram));
        append_findings(&mut warnings, Self::check_message_queue_without_dlq(diagram));
        let ghost all = findings_view(warnings@);
        assert(all =~= all_findings(diagram@));
        let mut valid = true;
        let mut i: usize = 0;
        while i < warnings.len()
            invariant
                i <= warnings@.len(),
                all == findings_view(warnings@),
                valid == !(exists|j: int| 0 <= j < i && all[j].severity == Severity::Error),
            decreases warnings.len() - i,
        {
            assert(all[i as int] == warnings@[i as int]@);
            if warnings[i].severity == Severity::Error {
                valid = false;
            }
            i = i + 1;
        }
        ValidationResult { valid, warnings }
    }

    fn check_circular_sync_dependencies(d: &Diagram) -> (r: Vec<ValidationWarning>)
        ensures
            fresh_ids(r@),
            findings_view(r@) == circular_findings(d@.nodes, d@.edges),
    {
        let cycles = sync_cycle_nodes_exec(d);
        let mut r: Vec<ValidationWarning> = Vec::new();
        if cycles.len() != 0 {
            push_finding(&mut r, finding(
                Severity::Warning,
                String::from_str("Circular synchronous dependency detected"),
                cycles,
                ValidationRule::CircularSyncDependency,
            ));
        } else {
            assert(findings_view(r@) =~= Seq::<FindingView>::empty());
        }
        r
    }

    fn check_sync_chain_too_deep(d: &Diagram) -> (r: Vec<ValidationWarning>)
        ensures
            fresh_ids(r@),
            findings_view(r@) == chain_findings(d@.nodes, d@.edges),
    {
        let m = longest_sync_chain_exec(d);
        let mut r: Vec<ValidationWarning> = Vec::new();
        if m > 4 {
            let mut msg = String::from_str("Synchronous call chain is ");
            push_decimal(&mut msg, m as u64);
            msg.append(" hops deep (recommended max: 4)");
            push_finding(&mut r, finding(Severity::Warning, msg, Vec::new(), ValidationRule::SyncChainTooDeep));
        } else {
            assert(findings_view(r@) =~= Seq::<FindingView>::empty());
        }
        r
    }

    fn check_orphan_nodes(d: &Diagram) -> (r: Vec<ValidationWarning>)
        ensures
            fresh_ids(r@),
            findings_view(r@) == orphan_findings(d@.nodes, d@.edges, d@.nodes.len() as int),
    {
        let mut out: Vec<ValidationWarning> = Vec::new();
        let mut k: usize = 0;
        while k < d.nodes.len()
            invariant
                k <= d.nodes@.len(),
                findings_view(out@) == orphan_findings(d@.nodes, d@.edges, k as int),
                fresh_ids(out@),
            decreases d.nodes.len() - k,
        {
            let n = &d.nodes[k];
            assert(d@.nodes[k as int] == n@);
            if !is_group_type(&n.node_type) && !touches_exec(d, n.id) {
                let w = node_finding(
                    Severity::Warning,
                    "Node '",
                    n.label.as_str(),
                    "' has no connections",
                    n.id,
                    ValidationRule::OrphanNode,
                );
                push_finding(&mut out, w);
            }
            k = k + 1;
        }
        out
    }

    fn check_single_target_lb(d: &Diagram) -> (r: Vec<ValidationWarning>)
        ensures
            fresh_ids(r@),
            findings_view(r@) == lb_findings(d@.nodes, d@.edges, d@.nodes.len() as int),
    {
        let mut out: Vec<ValidationWarning> = Vec::new();
        let mut k: usize = 0;
        while k < d.nodes.len()
            invariant
                k <= d.nodes@.len(),
                findings_view(out@) == lb_findings(d@.nodes, d@.edges, k as int),
                fresh_ids(out@),
            decreases d.nodes.len() - k,
        {
            let n = &d.nodes[k];
            assert(d@.nodes[k as int] == n@);
            if is_lb_exec(&n.node_type) && !earlier_lb_with_id_exec(d, k) && outgoing_count_exec(d, n.id) == 1 {
                assert(d@.nodes[k as int].id == n.id);
                let f = first_with_id_exec(d, n.id);
                assert(d@.nodes[f as int] == d.nodes@[f as int]@);
                let w = node_finding(
                    Severity::Warning,
                    "Load balancer '",
                    d.nodes[f].label.as_str(),
                    "' has only 1 target, defeating its purpose",
                    n.id,
                    ValidationRule::SingleTargetLb,
                );
                push_finding(&mut out, w);
            }
            k = k + 1;
        }
        out
    }

    fn check_invalid_containment(d: &Diagram) -> (r: Vec<ValidationWarning>)
        ensures
            fresh_ids(r@),
            findings_view(r@) == containment_findings(d@.nodes, d@.nodes.len() as int),
    {
        let mut out: Vec<ValidationWarning> = Vec::new();
        let mut k: usize = 0;
        while k < d.nodes.len()
            invariant
                k <= d.nodes@.len(),
                findings_view(out@) == containment_findings(d@.nodes, k as int),
                fresh_ids(out@),
            decreases d.nodes.len() - k,
        {
            let n = &d.nodes[k];
            assert(d@.nodes[k as int] == n@);
            let ghost before = findings_view(out@);
            match n.parent_id {
                Some(pid) => {
                    match last_with_id_exec(d, pid) {
                        None => {
                            let w = node_finding(
                                Severity::Error,
                                "Node '",
                                n.label.as_str(),
                                "' references non-existent parent",
                                n.id,
                                ValidationRule::InvalidContainment,
                            );
                            push_finding(&mut out, w);
                        }
                        Some(j) => {
                            assert(d@.nodes[j as int] == d.nodes@[j as int]@);
                            if !is_group_type(&d.nodes[j].node_type) {
                                let mut msg = quoted("Node '", n.label.as_str(), "' has parent '");
                                msg.append(d.nodes[j].label.as_str());
                                msg.append("' which is not a Group node");
                                let ids = vec![n.id, pid];
                                assert(ids@ =~= seq![n.id, pid]);
                                push_finding(&mut out, finding(Severity::Error, msg, ids, ValidationRule::InvalidContainment));
                            }
                        }
                    }
                    if nesting_is_circular_exec(d, pid) {
                        let w = node_finding(
                            Severity::Error,
                            "Node '",
                            n.label.as_str(),
                            "' is part of a circular nesting chain",
                            n.id,
                            ValidationRule::InvalidContainment,
                        );
                        push_finding(&mut out, w);
                    }
                }
                None => {}
            }
            assert(findings_view(out@) =~= before + containment_of(d@.nodes, d@.nodes[k as int]));
            k = k + 1;
        }
        out
    }

    fn check_single_point_of_failure(d: &Diagram) -> (r: Vec<ValidationWarning>)
        ensures
            fresh_ids(r@),
            findings_view(r@) == spof_findings(d@.nodes, d@.edges, d@.nodes.len() as int),
    {
        let mut out: Vec<ValidationWarning> = Vec::new();
        let mut k: usize = 0;
        while k < d.nodes.len()
            invariant
                k <= d.nodes@.len(),
                findings_view(out@) == spof_findings(d@.nodes, d@.edges, k as int),
                fresh_ids(out@),
            decreases d.nodes.len() - k,
        {
            let n = &d.nodes[k];
            assert(d@.nodes[k as int] == n@);
            let c = incoming_count_exec(d, n.id);
            if c >= 3 && type_parent_count_exec(d, n.node_type, n.parent_id) <= 1 {
                let mut msg = quoted("Node '", n.label.as_str(), "' is a single point of failure with ");
                push_decimal(&mut msg, c as u64);
                msg.append(" incoming connections");
                push_finding(&mut out, finding(Severity::Warning, msg, one_id(n.id), ValidationRule::SinglePointOfFailure));
            }
            k = k + 1;
        }
        out
    }

    fn check_missing_observability(d: &Diagram) -> (r: Vec<ValidationWarning>)
        ensures
            fresh_ids(r@),
            findings_view(r@) == observability_findings(d@.nodes),
    {
        let mut i: usize = 0;
        while i < d.nodes.len()
            invariant
                i <= d.nodes@.len(),
                forall|j: int| 0 <= j < i ==> !(d@.nodes[j].node_type is Observability),
            decreases d.nodes.len() - i,
        {
            assert(d@.nodes[i as int] == d.nodes@[i as int]@);
            match d.nodes[i].node_type {
                NodeType::Observability(_) => {
                    let r: Vec<ValidationWarning> = Vec::new();
                    assert(findings_view(r@) =~= Seq::<FindingView>::empty());
                    return r;
                }
                _ => {}
            }
            i = i + 1;
        }
        let mut r: Vec<ValidationWarning> = Vec::new();
        push_finding(&mut r, finding(
            Severity::Info,
            String::from_str("No observability components found in the architecture"),
            Vec::new(),
            ValidationRule::MissingObservability,
        ));
        r
    }

    fn check_missing_security(d: &Diagram) -> (r: Vec<ValidationWarning>)
        ensures
            fresh_ids(r@),
            findings_view(r@) == security_findings(d@.nodes),
    {
        let mut i: usize = 0;
        while i < d.nodes.len()
            invariant
                i <= d.nodes@.len(),
                forall|j: int| 0 <= j < i ==> !(d@.nodes[j].node_type is Security),
            decreases d.nodes.len() - i,
        {
            assert(d@.nodes[i as int] == d.nodes@[i as int]@);
            match d.nodes[i].node_type {
                NodeType::Security(_) => {
                    let r: Vec<ValidationWarning> = Vec::new();
                    assert(findings_view(r@) =~= Seq::<FindingView>::empty());
                    return r;
                }
                _ => {}
            }
            i = i + 1;
        }
        let mut r: Vec<ValidationWarning> = Vec::new();
        push_finding(&mut r, finding(
            Severity::Info,
            String::from_str("No security components found in the architecture"),
            Vec::new(),
            ValidationRule::MissingSecurity,
        ));
        r
    }

    fn check_database_without_backup(d: &Diagram) -> (r: Vec<ValidationWarning>)
        ensures
            fresh_ids(r@),
            findings_view(r@) == backup_findings(d@.nodes, d@.edges, d@.nodes.len() as int),
    {
        let mut out: Vec<ValidationWarning> = Vec::new();
        let mut k: usize = 0;
        while k < d.nodes.len()
            invariant
                k <= d.nodes@.len(),
                findings_view(out@) == backup_findings(d@.nodes, d@.edges, k as int),
                fresh_ids(out@),
            decreases d.nodes.len() - k,
        {
            let n = &d.nodes[k];
            assert(d@.nodes[k as int] == n@);
            let is_data = match n.node_type {
                NodeType::Data(_) => true,
                _ => false,
            };
            if is_data && same_type_count_exec(d, n.node_type) <= 1 && !flows_to_storage_exec(d, n.id) {
                let w = node_finding(
                    Severity::Warning,
                    "Database '",
                    n.label.as_str(),
                    "' has no backup or replication strategy",
                    n.id,
                    ValidationRule::DatabaseWithoutBackup,
                );
                push_finding(&mut out, w);
            }
            k = k + 1;
        }
        out
    }

    fn check_message_queue_without_dlq(d: &Diagram) -> (r: Vec<ValidationWarning>)
        ensures
            fresh_ids(r@),
            findings_view(r@) == dlq_findings(d@.nodes, d@.edges, d@.nodes.len() as int),
    {
        let flags = dlq_flags(d);
        let mut out: Vec<ValidationWarning> = Vec::new();
        let mut k: usize = 0;
        while k < d.nodes.len()
            invariant
                k <= d.nodes@.len(),
                flags@.len() == d@.nodes.len(),
                forall|i: int| 0 <= i < flags@.len() ==> flags@[i] == is_dlq_like(d@.nodes[i]),
                findings_view(out@) == dlq_findings(d@.nodes, d@.edges, k as int),
                fresh_ids(out@),
            decreases d.nodes.len() - k,
        {
            let n = &d.nodes[k];
            assert(d@.nodes[k as int] == n@);
            if is_mq_exec(&n.node_type) && !has_dlq_connection_exec(d, &flags, n.id) {
                let w = node_finding(
                    Severity::Warning,
                    "Message queue '",
                    n.label.as_str(),
                    "' has no dead letter queue configured",
                    n.id,
                    ValidationRule::MessageQueueWithoutDlq,
                );
                push_finding(&mut out, w);
            }
            k = k + 1;
        }
        out
    }
}

// ---------------------------------------------------------------- laws

/// Every error among the findings is a containment finding.
pub open spec fn errors_are_containment(f: Seq<FindingView>) -> bool {
    forall|i: int|
        0 <= i < f.len() && (#[trigger] f[i]).severity == Severity::Error ==> f[i].rule
            == ValidationRule::InvalidContainment
}

/// No finding is an error.
pub open spec fn no_errors(f: Seq<FindingView>) -> bool {
    forall|i: int| 0 <= i < f.len() ==> (#[trigger] f[i]).severity != Severity::Error
}

/// Every finding is a containment error.
pub open spec fn all_containment_errors(f: Seq<FindingView>) -> bool {
    forall|i: int|
        0 <= i < f.len() ==> (#[trigger] f[i]).severity == Severity::Error && f[i].rule
            == ValidationRule::InvalidContainment
}

proof fn lemma_concat_findings(a: Seq<FindingView>, b: Seq<FindingView>)
    ensures
        errors_are_containment(a) && errors_are_containment(b) ==> errors_are_containment(a + b),
        has_error(a + b) <==> has_error(a) || has_error(b),
        no_errors(a) && no_errors(b) ==> no_errors(a + b),
        no_errors(a) ==> errors_are_containment(a) && !has_error(a),
        all_containment_errors(a) ==> errors_are_containment(a) && (has_error(a) <==> a.len() > 0),
        all_containment_errors(a) && all_containment_errors(b) ==> all_containment_errors(a + b),
{
    let c = a + b;
    assert forall|i: int| 0 <= i < c.len() implies #[trigger] c[i] == (if i < a.len() {
        a[i]
    } else {
        b[i - a.len()]
    }) by {}
    if has_error(c) {
        let i = choose|i: int| 0 <= i < c.len() && c[i].severity == Severity::Error;
        if i < a.len() {
            assert(a[i] == c[i]);
        } else {
            assert(b[i - a.len()] == c[i]);
        }
    }
    if has_error(a) {
        let i = choose|i: int| 0 <= i < a.len() && a[i].severity == Severity::Error;
        assert(c[i] == a[i]);
    }
    if has_error(b) {
        let i = choose|i: int| 0 <= i < b.len() && b[i].severity == Severity::Error;
        assert(c[i + a.len()] == b[i]);
    }
    if all_containment_errors(a) && a.len() > 0 {
        assert(a[0].severity == Severity::Error);
    }
}

proof fn lemma_orphan_no_errors(nodes: Seq<NodeView>, edges: Seq<EdgeView>, k: int)
    ensures
        no_errors(orphan_findings(nodes, edges, k)),
    decreases k,
{
    if k > 0 {
        lemma_orphan_no_errors(nodes, edges, k - 1);
    }
}

proof fn lemma_lb_no_errors(nodes: Seq<NodeView>, edges: Seq<EdgeView>, k: int)
    ensures
        no_errors(lb_findings(nodes, edges, k)),
    decreases k,
{
    if k > 0 {
        lemma_lb_no_errors(nodes, edges, k - 1);
    }
}

proof fn lemma_spof_no_errors(nodes: Seq<NodeView>, edges: Seq<EdgeView>, k: int)
    ensures
        no_errors(spof_findings(nodes, edges, k)),
    decreases k,
{
    if k > 0 {
        lemma_spof_no_errors(nodes, edges, k - 1);
    }
}

proof fn lemma_backup_no_errors(nodes: Seq<NodeView>, edges: Seq<EdgeView>, k: int)
    ensures
        no_errors(backup_findings(nodes, edges, k)),
    decreases k,
{
    if k > 0 {
        lemma_backup_no_errors(nodes, edges, k - 1);
    }
}

proof fn lemma_dlq_no_errors(nodes: Seq<NodeView>, edges: Seq<EdgeView>, k: int)
    ensures
        no_errors(dlq_findings(nodes, edges, k)),
    decreases k,
{
    if k > 0 {
        lemma_dlq_no_errors(nodes, edges, k - 1);
    }
}

/// A node's parent is well placed: it has none, or the parent exists, is a
/// group, and the chain of parents from it ends.
pub open spec fn containment_ok(nodes: Seq<NodeView>, n: NodeView) -> bool {
    match n.parent_id {
        None => true,
        Some(pid) => match last_with_id(nodes, pid, nodes.len() as int) {
            Some(j) => is_group(nodes[j].node_type) && !nesting_is_circular(nodes, pid),
            None => false,
        },
    }
}

proof fn lemma_containment_findings(nodes: Seq<NodeView>, k: int)
    requires
        k <= nodes.len(),
    ensures
        all_containment_errors(containment_findings(nodes, k)),
        containment_findings(nodes, k).len() == 0 <==> forall|j: int|
            0 <= j < k ==> containment_ok(nodes, #[trigger] nodes[j]),
    decreases k,
{
    if k > 0 {
        lemma_containment_findings(nodes, k - 1);
        let one = containment_of(nodes, nodes[k - 1]);
        assert(all_containment_errors(one));
        assert(one.len() == 0 <==> containment_ok(nodes, nodes[k - 1]));
        lemma_concat_findings(containment_findings(nodes, k - 1), one);
        if containment_findings(nodes, k).len() == 0 {
            assert forall|j: int| 0 <= j < k implies containment_ok(nodes, #[trigger] nodes[j]) by {
                if j < k - 1 {
                }
            }
        }
    }
}

/// Only containment findings are errors. A diagram is therefore valid
/// exactly when every node's parent, if it has one, exists, is a group, and
/// starts a chain of parents that ends.
pub proof fn law_only_containment_errors(d: DiagramView)
    ensures
        errors_are_containment(all_findings(d)),
        has_error(all_findings(d)) <==> containment_findings(d.nodes, d.nodes.len() as int).len() > 0,
        !has_error(all_findings(d)) <==> forall|j: int|
            0 <= j < d.nodes.len() ==> containment_ok(d.nodes, #[trigger] d.nodes[j]),
{
    let nodes = d.nodes;
    let edges = d.edges;
    let n = nodes.len() as int;
    let o = orphan_findings(nodes, edges, n);
    let l = lb_findings(nodes, edges, n);
    let c = containment_findings(nodes, n);
    let ci = circular_findings(nodes, edges);
    let sp = spof_findings(nodes, edges, n);
    let ob = observability_findings(nodes);
    let se = security_findings(nodes);
    let b = backup_findings(nodes, edges, n);
    let ch = chain_findings(nodes, edges);
    let dl = dlq_findings(nodes, edges, n);
    lemma_orphan_no_errors(nodes, edges, n);
    lemma_lb_no_errors(nodes, edges, n);
    lemma_containment_findings(nodes, n);
    lemma_spof_no_errors(nodes, edges, n);
    lemma_backup_no_errors(nodes, edges, n);
    lemma_dlq_no_errors(nodes, edges, n);
    assert(no_errors(ci));
    assert(no_errors(ob));
    assert(no_errors(se));
    assert(no_errors(ch));
    lemma_concat_findings(o, l);
    lemma_concat_findings(o + l, c);
    lemma_concat_findings(c, c);
    lemma_concat_findings(ci, ci);
    lemma_concat_findings(o + l + c, ci);
    lemma_concat_findings(sp, sp);
    lemma_concat_findings(o + l + c + ci, sp);
    lemma_concat_findings(ob, ob);
    lemma_concat_findings(o + l + c + ci + sp, ob);
    lemma_concat_findings(se, se);
    lemma_concat_findings(o + l + c + ci + sp + ob, se);
    lemma_concat_findings(b, b);
    lemma_concat_findings(o + l + c + ci + sp + ob + se, b);
    lemma_concat_findings(ch, ch);
    lemma_concat_findings(o + l + c + ci + sp + ob + se + b, ch);
    lemma_concat_findings(dl, dl);
    lemma_concat_findings(o + l + c + ci + sp + ob + se + b + ch, dl);
    lemma_concat_findings(o, o);
    lemma_concat_findings(l, l);
    assert(all_findings(d) == o + l + c + ci + sp + ob + se + b + ch + dl);
}

/// A non-group node that no edge starts or ends at.
pub open spec fn is_orphan(edges: Seq<EdgeView>, n: NodeView) -> bool {
    !is_group(n.node_type) && !touches(edges, n.id)
}

/// The finding reported for an orphan node.
pub open spec fn orphan_finding(n: NodeView) -> FindingView {
    finding_view(
        Severity::Warning,
        "Node '"@ + n.label + "' has no connections"@,
        seq![n.id],
        ValidationRule::OrphanNode,
    )
}

/// The orphan findings are exactly one warning per orphan node among the
/// first `k`, naming that node and no edge.
pub proof fn law_orphan_findings(nodes: Seq<NodeView>, edges: Seq<EdgeView>, k: int)
    requires
        0 <= k <= nodes.len(),
    ensures
        forall|i: int|
            0 <= i < orphan_findings(nodes, edges, k).len() ==> exists|j: int|
                0 <= j < k && is_orphan(edges, nodes[j]) && #[trigger] orphan_findings(nodes, edges, k)[i]
                    == orphan_finding(nodes[j]),
        forall|j: int|
            0 <= j < k && is_orphan(edges, #[trigger] nodes[j]) ==> orphan_findings(nodes, edges, k).contains(
                orphan_finding(nodes[j]),
            ),
    decreases k,
{
    if k > 0 {
        law_orphan_findings(nodes, edges, k - 1);
        let rest = orphan_findings(nodes, edges, k - 1);
        let f = orphan_findings(nodes, edges, k);
        assert forall|i: int| 0 <= i < f.len() implies exists|j: int|
            0 <= j < k && is_orphan(edges, nodes[j]) && #[trigger] f[i] == orphan_finding(nodes[j]) by {
            if i < rest.len() {
                assert(f[i] == rest[i]);
            } else {
                assert(f[i] == orphan_finding(nodes[k - 1]));
            }
        }
        assert forall|j: int| 0 <= j < k && is_orphan(edges, #[trigger] nodes[j]) implies f.contains(
            orphan_finding(nodes[j]),
        ) by {
            if j < k - 1 {
                let i = choose|i: int| 0 <= i < rest.len() && rest[i] == orphan_finding(nodes[j]);
                assert(f[i] == rest[i]);
            } else {
                assert(f[f.len() - 1] == orphan_finding(nodes[j]));
            }
        }
    }
}

/// A load balancer node with exactly one outgoing edge.
pub open spec fn is_single_target_lb(nodes: Seq<NodeView>, edges: Seq<EdgeView>, j: int) -> bool {
    is_lb(nodes[j].node_type) && outgoing_count(edges, nodes[j].id, edges.len() as int) == 1
}

/// The finding `g` is a load-balancer warning naming the id of a single-target
/// load balancer among the first `k` nodes, at its first position.
pub open spec fn lb_finding_of(nodes: Seq<NodeView>, edges: Seq<EdgeView>, k: int, g: FindingView) -> bool {
    &&& g.severity == Severity::Warning
    &&& g.rule == ValidationRule::SingleTargetLb
    &&& g.edge_ids.len() == 0
    &&& exists|j: int|
        0 <= j < k && is_single_target_lb(nodes, edges, j) && !earlier_lb_with_id(nodes, j)
            && g.node_ids == seq![nodes[j].id]
}

proof fn lemma_lb_shape(nodes: Seq<NodeView>, edges: Seq<EdgeView>, k: int)
    requires
        0 <= k <= nodes.len(),
    ensures
        forall|i: int|
            0 <= i < lb_findings(nodes, edges, k).len() ==> lb_finding_of(
                nodes,
                edges,
                k,
                #[trigger] lb_findings(nodes, edges, k)[i],
            ),
    decreases k,
{
    if k > 0 {
        lemma_lb_shape(nodes, edges, k - 1);
        let rest = lb_findings(nodes, edges, k - 1);
        let f = lb_findings(nodes, edges, k);
        assert forall|i: int| 0 <= i < f.len() implies lb_finding_of(nodes, edges, k, #[trigger] f[i]) by {
            if i < rest.len() {
                assert(f[i] == rest[i]);
                assert(lb_finding_of(nodes, edges, k - 1, rest[i]));
                let j = choose|j: int|
                    0 <= j < k - 1 && is_single_target_lb(nodes, edges, j) && !earlier_lb_with_id(nodes, j)
                        && rest[i].node_ids == seq![nodes[j].id];
                assert(0 <= j < k);
            } else {
                assert(is_single_target_lb(nodes, edges, k - 1));
            }
        }
    }
}

proof fn lemma_lb_distinct(nodes: Seq<NodeView>, edges: Seq<EdgeView>, k: int)
    requires
        0 <= k <= nodes.len(),
    ensures
        forall|i1: int, i2: int|
            0 <= i1 < i2 < lb_findings(nodes, edges, k).len() ==> (#[trigger] lb_findings(nodes, edges, k)[i1]).node_ids
                != (#[trigger] lb_findings(nodes, edges, k)[i2]).node_ids,
    decreases k,
{
    if k > 0 {
        lemma_lb_distinct(nodes, edges, k - 1);
        lemma_lb_shape(nodes, edges, k - 1);
        let rest = lb_findings(nodes, edges, k - 1);
        let f = lb_findings(nodes, edges, k);
        let n = nodes[k - 1];
        assert forall|i1: int, i2: int| 0 <= i1 < i2 < f.len() implies (#[trigger] f[i1]).node_ids
            != (#[trigger] f[i2]).node_ids by {
            if i2 < rest.len() {
                assert(f[i1] == rest[i1] && f[i2] == rest[i2]);
            } else {
                assert(f[i1] == rest[i1]);
                let g = rest[i1];
                assert(lb_finding_of(nodes, edges, k - 1, g));
                let j = choose|j: int|
                    0 <= j < k - 1 && is_single_target_lb(nodes, edges, j) && !earlier_lb_with_id(nodes, j)
                        && g.node_ids == seq![nodes[j].id];
                assert(g.node_ids[0] == nodes[j].id);
                assert(f[i2].node_ids[0] == n.id);
                if nodes[j].id == n.id {
                    assert(earlier_lb_with_id(nodes, k - 1));
                }
            }
        }
    }
}

proof fn lemma_lb_complete(nodes: Seq<NodeView>, edges: Seq<EdgeView>, k: int)
    requires
        0 <= k <= nodes.len(),
    ensures
        forall|j: int|
            0 <= j < k && #[trigger] is_single_target_lb(nodes, edges, j) ==> exists|i: int|
                0 <= i < lb_findings(nodes, edges, k).len() && (#[trigger] lb_findings(nodes, edges, k)[i]).node_ids
                    == seq![nodes[j].id],
    decreases k,
{
    if k > 0 {
        lemma_lb_complete(nodes, edges, k - 1);
        let rest = lb_findings(nodes, edges, k - 1);
        let f = lb_findings(nodes, edges, k);
        assert forall|j: int| 0 <= j < k && #[trigger] is_single_target_lb(nodes, edges, j) implies exists|i: int|
            0 <= i < f.len() && (#[trigger] f[i]).node_ids == seq![nodes[j].id] by {
            if j < k - 1 {
                let i = choose|i: int| 0 <= i < rest.len() && (#[trigger] rest[i]).node_ids == seq![nodes[j].id];
                assert(f[i] == rest[i]);
            } else if earlier_lb_with_id(nodes, k - 1) {
                let j0 = choose|j0: int|
                    0 <= j0 < k - 1 && is_lb(nodes[j0].node_type) && nodes[j0].id == nodes[k - 1].id;
                assert(is_single_target_lb(nodes, edges, j0));
                let i = choose|i: int| 0 <= i < rest.len() && (#[trigger] rest[i]).node_ids == seq![nodes[j0].id];
                assert(f[i] == rest[i]);
            } else {
                assert(f[f.len() - 1].node_ids == seq![nodes[j].id]);
            }
        }
    }
}

/// The load-balancer findings are warnings, each naming the id of one load
/// balancer with exactly one outgoing edge, no id twice; every such load
/// balancer among the first `k` nodes is named.
pub proof fn law_lb_findings(nodes: Seq<NodeView>, edges: Seq<EdgeView>, k: int)
    requires
        0 <= k <= nodes.len(),
    ensures
        forall|i: int|
            0 <= i < lb_findings(nodes, edges, k).len() ==> lb_finding_of(
                nodes,
                edges,
                k,
                #[trigger] lb_findings(nodes, edges, k)[i],
            ),
        forall|i1: int, i2: int|
            0 <= i1 < i2 < lb_findings(nodes, edges, k).len() ==> (#[trigger] lb_findings(nodes, edges, k)[i1]).node_ids
                != (#[trigger] lb_findings(nodes, edges, k)[i2]).node_ids,
        forall|j: int|
            0 <= j < k && #[trigger] is_single_target_lb(nodes, edges, j) ==> exists|i: int|
                0 <= i < lb_findings(nodes, edges, k).len() && (#[trigger] lb_findings(nodes, edges, k)[i]).node_ids
                    == seq![nodes[j].id],
{
    lemma_lb_shape(nodes, edges, k);
    lemma_lb_distinct(nodes, edges, k);
    lemma_lb_complete(nodes, edges, k);
}

/// The containment findings of one node: none without a parent; for a
/// parent that does not exist, an error naming the node; for a parent that
/// is not a group, an error naming the node and the parent; none for a group
/// parent whose chain of parents ends; every one an error.
pub proof fn law_containment_cases(nodes: Seq<NodeView>, n: NodeView)
    ensures
        all_containment_errors(containment_of(nodes, n)),
        n.parent_id is None ==> containment_of(nodes, n).len() == 0,
        n.parent_id matches Some(p) && last_with_id(nodes, p, nodes.len() as int) is None ==> containment_of(
            nodes,
            n,
        ).len() >= 1 && containment_of(nodes, n)[0].node_ids == seq![n.id],
        n.parent_id matches Some(p) && last_with_id(nodes, p, nodes.len() as int) matches Some(j) && !is_group(
            nodes[j].node_type,
        ) ==> containment_of(nodes, n).len() >= 1 && containment_of(nodes, n)[0].node_ids == seq![n.id, n.parent_id.unwrap()],
        containment_ok(nodes, n) <==> containment_of(nodes, n).len() == 0,
{
}

/// A node with at least 3 incoming edges of any kind and no other node of
/// its type under the same parent.
pub open spec fn is_spof(nodes: Seq<NodeView>, edges: Seq<EdgeView>, n: NodeView) -> bool {
    incoming_count(edges, n.id, edges.len() as int) >= 3 && type_parent_count(
        nodes,
        n.node_type,
        n.parent_id,
        nodes.len() as int,
    ) <= 1
}

/// The finding reported for a single point of failure.
pub open spec fn spof_finding(edges: Seq<EdgeView>, n: NodeView) -> FindingView {
    finding_view(
        Severity::Warning,
        "Node '"@ + n.label + "' is a single point of failure with "@ + decimal(
            incoming_count(edges, n.id, edges.len() as int),
        ) + " incoming connections"@,
        seq![n.id],
        ValidationRule::SinglePointOfFailure,
    )
}

/// The single-point-of-failure findings are exactly one warning per such
/// node among the first `k`, naming it and giving its incoming count.
pub proof fn law_spof_findings(nodes: Seq<NodeView>, edges: Seq<EdgeView>, k: int)
    requires
        0 <= k <= nodes.len(),
    ensures
        forall|i: int|
            0 <= i < spof_findings(nodes, edges, k).len() ==> exists|j: int|
                0 <= j < k && is_spof(nodes, edges, nodes[j]) && #[trigger] spof_findings(nodes, edges, k)[i]
                    == spof_finding(edges, nodes[j]),
        forall|j: int|
            0 <= j < k && is_spof(nodes, edges, #[trigger] nodes[j]) ==> spof_findings(nodes, edges, k).contains(
                spof_finding(edges, nodes[j]),
            ),
    decreases k,
{
    if k > 0 {
        law_spof_findings(nodes, edges, k - 1);
        let rest = spof_findings(nodes, edges, k - 1);
        let f = spof_findings(nodes, edges, k);
        assert forall|i: int| 0 <= i < f.len() implies exists|j: int|
            0 <= j < k && is_spof(nodes, edges, nodes[j]) && #[trigger] f[i] == spof_finding(edges, nodes[j]) by {
            if i < rest.len() {
                assert(f[i] == rest[i]);
            } else {
                assert(f[i] == spof_finding(edges, nodes[k - 1]));
            }
        }
        assert forall|j: int| 0 <= j < k && is_spof(nodes, edges, #[trigger] nodes[j]) implies f.contains(
            spof_finding(edges, nodes[j]),
        ) by {
            if j < k - 1 {
                let i = choose|i: int| 0 <= i < rest.len() && rest[i] == spof_finding(edges, nodes[j]);
                assert(f[i] == rest[i]);
            } else {
                assert(f[f.len() - 1] == spof_finding(edges, nodes[j]));
            }
        }
    }
}

/// A data node that is the only one of its type and has no data flow to a
/// storage node.
pub open spec fn lacks_backup(nodes: Seq<NodeView>, edges: Seq<EdgeView>, n: NodeView) -> bool {
    n.node_type is Data && same_type_count(nodes, n.node_type, nodes.len() as int) <= 1
        && !flows_to_storage(nodes, edges, n.id)
}

/// The finding reported for a database without backup.
pub open spec fn backup_finding(n: NodeView) -> FindingView {
    finding_view(
        Severity::Warning,
        "Database '"@ + n.label + "' has no backup or replication strategy"@,
        seq![n.id],
        ValidationRule::DatabaseWithoutBackup,
    )
}

/// The backup findings are exactly one warning per data node among the first
/// `k` that is the only one of its type and flows to no storage node.
pub proof fn law_backup_findings(nodes: Seq<NodeView>, edges: Seq<EdgeView>, k: int)
    requires
        0 <= k <= nodes.len(),
    ensures
        forall|i: int|
            0 <= i < backup_findings(nodes, edges, k).len() ==> exists|j: int|
                0 <= j < k && lacks_backup(nodes, edges, nodes[j]) && #[trigger] backup_findings(nodes, edges, k)[i]
                    == backup_finding(nodes[j]),
        forall|j: int|
            0 <= j < k && lacks_backup(nodes, edges, #[trigger] nodes[j]) ==> backup_findings(nodes, edges, k).contains(
                backup_finding(nodes[j]),
            ),
    decreases k,
{
    if k > 0 {
        law_backup_findings(nodes, edges, k - 1);
        let rest = backup_findings(nodes, edges, k - 1);
        let f = backup_findings(nodes, edges, k);
        assert forall|i: int| 0 <= i < f.len() implies exists|j: int|
            0 <= j < k && lacks_backup(nodes, edges, nodes[j]) && #[trigger] f[i] == backup_finding(nodes[j]) by {
            if i < rest.len() {
                assert(f[i] == rest[i]);
            } else {
                assert(f[i] == backup_finding(nodes[k - 1]));
            }
        }
        assert forall|j: int| 0 <= j < k && lacks_backup(nodes, edges, #[trigger] nodes[j]) implies f.contains(
            backup_finding(nodes[j]),
        ) by {
            if j < k - 1 {
                let i = choose|i: int| 0 <= i < rest.len() && rest[i] == backup_finding(nodes[j]);
                assert(f[i] == rest[i]);
            } else {
                assert(f[f.len() - 1] == backup_finding(nodes[j]));
            }
        }
    }
}

/// Missing observability and security are each reported as at most one
/// information finding naming no node or edge, exactly when no node of that
/// kind exists; being information, they never make a diagram invalid.
pub proof fn law_missing_kind_findings(nodes: Seq<NodeView>)
    ensures
        observability_findings(nodes).len() == 0 <==> has_observability(nodes),
        security_findings(nodes).len() == 0 <==> has_security(nodes),
        observability_findings(nodes).len() <= 1,
        security_findings(nodes).len() <= 1,
        forall|i: int|
            0 <= i < observability_findings(nodes).len() ==> (#[trigger] observability_findings(nodes)[i]).severity
                == Severity::Info && observability_findings(nodes)[i].rule == ValidationRule::MissingObservability
                && observability_findings(nodes)[i].node_ids.len() == 0
                && observability_findings(nodes)[i].edge_ids.len() == 0,
        forall|i: int|
            0 <= i < security_findings(nodes).len() ==> (#[trigger] security_findings(nodes)[i]).severity
                == Severity::Info && security_findings(nodes)[i].rule == ValidationRule::MissingSecurity
                && security_findings(nodes)[i].node_ids.len() == 0 && security_findings(nodes)[i].edge_ids.len() == 0,
{
}

/// When every edge joins nodes of the diagram, the circular-dependency rule
/// gives at most one finding, exactly when the synchronous edges form a cycle
/// (self-loops included), and every node it names lies on such a cycle.
pub proof fn law_circular_findings(nodes: Seq<NodeView>, edges: Seq<EdgeView>)
    requires
        forall|k: int|
            0 <= k < edges.len() ==> exists|j: int| 0 <= j < nodes.len() && nodes[j].id == (#[trigger] edges[k]).source_id,
    ensures
        circular_findings(nodes, edges).len() <= 1,
        circular_findings(nodes, edges).len() == 1 <==> exists|x: u128| #[trigger] on_sync_cycle(edges, x),
        forall|i: int|
            0 <= i < circular_findings(nodes, edges).len() ==> {
                let f = #[trigger] circular_findings(nodes, edges)[i];
                &&& f.severity == Severity::Warning
                &&& f.rule == ValidationRule::CircularSyncDependency
                &&& forall|q: int| 0 <= q < f.node_ids.len() ==> on_sync_cycle(edges, #[trigger] f.node_ids[q])
            },
{
    law_reported_cycles_are_real(nodes, edges);
    let c = sync_cycle_nodes(nodes, edges);
    if c.len() > 0 {
        assert(c.contains(c[0]));
        assert(on_sync_cycle(edges, c[0]));
        assert forall|q: int| 0 <= q < c.len() implies on_sync_cycle(edges, #[trigger] c[q]) by {
            assert(c.contains(c[q]));
        }
    }
    if exists|x: u128| #[trigger] on_sync_cycle(edges, x) {
        let x = choose|x: u128| #[trigger] on_sync_cycle(edges, x);
        let w = choose|w: Seq<u128>| #[trigger] sync_path(edges, w) && w.len() >= 2 && w[0] == w.last() && w.contains(x);
        assert(sync_edge(edges, w[0], w[0int + 1]));
        let k = choose|k: int|
            0 <= k < edges.len() && (#[trigger] edges[k]).edge_type == EdgeType::Synchronous && edges[k].source_id
                == w[0] && edges[k].target_id == w[0int + 1];
        let j = choose|j: int| 0 <= j < nodes.len() && nodes[j].id == edges[k].source_id;
        law_cycle_is_reported(nodes, edges, j, w);
    }
}

/// Without cycles of synchronous edges, the chain rule gives at most one
/// finding, exactly when some path of synchronous edges from a node has more
/// than 4 edges; its message gives the length of the longest such path, which
/// is achieved from a node and bounds every path from a node.
pub proof fn law_chain_findings(nodes: Seq<NodeView>, edges: Seq<EdgeView>)
    requires
        sync_acyclic(edges),
    ensures
        chain_findings(nodes, edges).len() <= 1,
        chain_findings(nodes, edges).len() == 1 <==> exists|j: int, p: Seq<u128>|
            #![trigger sync_path(edges, p), nodes[j]]
            0 <= j < nodes.len() && sync_path(edges, p) && p.len() > 5 && p[0] == nodes[j].id,
        chain_findings(nodes, edges).len() == 1 ==> chain_findings(nodes, edges)[0] == finding_view(
            Severity::Warning,
            "Synchronous call chain is "@ + decimal(longest_sync_chain(nodes, edges))
                + " hops deep (recommended max: 4)"@,
            Seq::empty(),
            ValidationRule::SyncChainTooDeep,
        ),
        nodes.len() > 0 ==> exists|j: int|
            0 <= j < nodes.len() && #[trigger] chain_from(edges, nodes[j].id, longest_sync_chain(nodes, edges)),
        forall|j: int, p: Seq<u128>|
            #![trigger sync_path(edges, p), nodes[j]]
            0 <= j < nodes.len() && sync_path(edges, p) && p.len() > 0 && p[0] == nodes[j].id ==> p.len()
                <= longest_sync_chain(nodes, edges) + 1,
{
    law_reported_chain_exists(nodes, edges);
    let m = longest_sync_chain(nodes, edges);
    assert forall|j: int, p: Seq<u128>|
        #![trigger sync_path(edges, p), nodes[j]]
        0 <= j < nodes.len() && sync_path(edges, p) && p.len() > 0 && p[0] == nodes[j].id implies p.len()
            <= m + 1 by {
        law_reported_chain_is_longest(nodes, edges, j, p);
    }
    if m > 4 {
        let j = choose|j: int| 0 <= j < nodes.len() && #[trigger] chain_from(edges, nodes[j].id, m);
        let w = choose|w: Seq<u128>| #[trigger] sync_path(edges, w) && w.len() == m + 1 && w[0] == nodes[j].id;
        assert(sync_path(edges, w) && w.len() > 5 && w[0] == nodes[j].id);
    }
    if exists|j: int, p: Seq<u128>|
        #![trigger sync_path(edges, p), nodes[j]]
        0 <= j < nodes.len() && sync_path(edges, p) && p.len() > 5 && p[0] == nodes[j].id {
        let (j, p) = choose|j: int, p: Seq<u128>|
            #![trigger sync_path(edges, p), nodes[j]]
            0 <= j < nodes.len() && sync_path(edges, p) && p.len() > 5 && p[0] == nodes[j].id;
        law_reported_chain_is_longest(nodes, edges, j, p);
    }
}

/// A message queue joined by an edge, in either direction, to another node
/// of type message queue gets no dead-letter-queue finding, whatever the
/// labels.
pub proof fn law_queue_pairs_need_no_dlq(nodes: Seq<NodeView>, edges: Seq<EdgeView>, j: int, q: int, e: int)
    requires
        0 <= j < nodes.len(),
        0 <= q < nodes.len(),
        0 <= e < edges.len(),
        nodes[j].node_type == NodeType::Messaging(MessagingComponent::MessageQueue),
        nodes[q].node_type == NodeType::Messaging(MessagingComponent::MessageQueue),
        nodes[q].id != nodes[j].id,
        (edges[e].source_id == nodes[j].id && edges[e].target_id == nodes[q].id) || (edges[e].target_id
            == nodes[j].id && edges[e].source_id == nodes[q].id),
    ensures
        forall|i: int|
            0 <= i < dlq_findings(nodes, edges, nodes.len() as int).len() ==> (#[trigger] dlq_findings(
                nodes,
                edges,
                nodes.len() as int,
            )[i]).node_ids != seq![nodes[j].id],
{
    assert(is_dlq_id(nodes, nodes[q].id)) by {
        assert(is_dlq_like(nodes[q]));
    }
    assert(has_dlq_connection(nodes, edges, nodes[j].id));
    lemma_dlq_findings_unconnected(nodes, edges, nodes.len() as int);
    assert forall|i: int| 0 <= i < dlq_findings(nodes, edges, nodes.len() as int).len() implies (#[trigger] dlq_findings(
        nodes,
        edges,
        nodes.len() as int,
    )[i]).node_ids != seq![nodes[j].id] by {
        let f = dlq_findings(nodes, edges, nodes.len() as int)[i];
        if f.node_ids == seq![nodes[j].id] {
            assert(f.node_ids[0] == nodes[j].id);
        }
    }
}

proof fn lemma_dlq_findings_unconnected(nodes: Seq<NodeView>, edges: Seq<EdgeView>, k: int)
    requires
        k <= nodes.len(),
    ensures
        forall|i: int|
            0 <= i < dlq_findings(nodes, edges, k).len() ==> (#[trigger] dlq_findings(nodes, edges, k)[i]).node_ids.len()
                == 1 && !has_dlq_connection(nodes, edges, dlq_findings(nodes, edges, k)[i].node_ids[0]),
    decreases k,
{
    if k > 0 {
        lemma_dlq_findings_unconnected(nodes, edges, k - 1);
        let rest = dlq_findings(nodes, edges, k - 1);
        let f = dlq_findings(nodes, edges, k);
        assert forall|i: int| 0 <= i < f.len() implies (#[trigger] f[i]).node_ids.len() == 1 && !has_dlq_connection(
            nodes,
            edges,
            f[i].node_ids[0],
        ) by {
            if i < rest.len() {
                assert(f[i] == rest[i]);
            }
        }
    }
}

/// A message queue that no edge touches is reported, naming it, and every
/// dead-letter-queue finding names a message queue.
pub proof fn law_lonely_queue_is_reported(nodes: Seq<NodeView>, edges: Seq<EdgeView>, j: int)
    requires
        0 <= j < nodes.len(),
        nodes[j].node_type == NodeType::Messaging(MessagingComponent::MessageQueue),
        forall|e: int| 0 <= e < edges.len() ==> (#[trigger] edges[e]).source_id != nodes[j].id && edges[e].target_id != nodes[j].id,
    ensures
        dlq_findings(nodes, edges, nodes.len() as int).contains(
            finding_view(
                Severity::Warning,
                "Message queue '"@ + nodes[j].label + "' has no dead letter queue configured"@,
                seq![nodes[j].id],
                ValidationRule::MessageQueueWithoutDlq,
            ),
        ),
{
    lemma_dlq_contains(nodes, edges, nodes.len() as int, j);
}

proof fn lemma_dlq_contains(nodes: Seq<NodeView>, edges: Seq<EdgeView>, k: int, j: int)
    requires
        0 <= j < k <= nodes.len(),
        nodes[j].node_type == NodeType::Messaging(MessagingComponent::MessageQueue),
        forall|e: int| 0 <= e < edges.len() ==> (#[trigger] edges[e]).source_id != nodes[j].id && edges[e].target_id != nodes[j].id,
    ensures
        dlq_findings(nodes, edges, k).contains(
            finding_view(
                Severity::Warning,
                "Message queue '"@ + nodes[j].label + "' has no dead letter queue configured"@,
                seq![nodes[j].id],
                ValidationRule::MessageQueueWithoutDlq,
            ),
        ),
    decreases k,
{
    let x = finding_view(
        Severity::Warning,
        "Message queue '"@ + nodes[j].label + "' has no dead letter queue configured"@,
        seq![nodes[j].id],
        ValidationRule::MessageQueueWithoutDlq,
    );
    let rest = dlq_findings(nodes, edges, k - 1);
    let f = dlq_findings(nodes, edges, k);
    if j < k - 1 {
        lemma_dlq_contains(nodes, edges, k - 1, j);
        let i = choose|i: int| 0 <= i < rest.len() && rest[i] == x;
        if f != rest {
            assert(f[i] == rest[i]);
        }
    } else {
        assert(!has_dlq_connection(nodes, edges, nodes[j].id));
        assert(f[f.len() - 1] == x);
    }
}

} // verus!

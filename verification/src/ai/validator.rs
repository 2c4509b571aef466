//! The checks a generated diagram must pass before it is shown.
use vstd::prelude::*;
use vstd::string::*;
use vstd::utf8::encode_utf8;
use crate::entities::edge::{edges_view, Edge, EdgeView};
use crate::entities::errors::{DomainError, DomainErrorView};
use crate::entities::node::{
    find_node_index, first_with_id, is_group, is_group_type, nodes_view, Node, NodeView,
};
use crate::ids::{uuid_string, uuid_text};
use crate::text::{blank, decimal, decimal_string, is_blank, utf8_len_exceeds};

verus! {

/// Most nodes a generated diagram may have.
pub const MAX_NODES: usize = 50;

/// Most edges a generated diagram may have.
pub const MAX_EDGES: usize = 100;

/// Most bytes a node label may take.
pub const MAX_LABEL_BYTES: usize = 100;

/// Node `i` repeats the id of an earlier node.
pub open spec fn duplicate_node_error(nodes: Seq<NodeView>, i: int) -> Option<Seq<char>> {
    if exists|j: int| 0 <= j < i && nodes[j].id == nodes[i].id {
        Some("Duplicate node ID: "@ + uuid_text(nodes[i].id))
    } else {
        None
    }
}

/// The first duplicate among the first `k` nodes.
pub open spec fn first_duplicate_node(nodes: Seq<NodeView>, k: nat) -> Option<Seq<char>>
    decreases k,
{
    if k == 0 {
        None
    } else {
        match first_duplicate_node(nodes, (k - 1) as nat) {
            Some(e) => Some(e),
            None => duplicate_node_error(nodes, k - 1),
        }
    }
}

/// A blank label, or one longer than the byte limit.
pub open spec fn label_error(n: NodeView) -> Option<Seq<char>> {
    if is_blank(n.label) {
        Some("Node "@ + uuid_text(n.id) + " has an empty label"@)
    } else if encode_utf8(n.label).len() > MAX_LABEL_BYTES {
        Some("Node "@ + uuid_text(n.id) + " label exceeds 100 characters"@)
    } else {
        None
    }
}

pub open spec fn first_label_error(nodes: Seq<NodeView>, k: nat) -> Option<Seq<char>>
    decreases k,
{
    if k == 0 {
        None
    } else {
        match first_label_error(nodes, (k - 1) as nat) {
            Some(e) => Some(e),
            None => label_error(nodes[k - 1]),
        }
    }
}

/// A parent that is missing or is not a group.
pub open spec fn parent_error(nodes: Seq<NodeView>, n: NodeView) -> Option<Seq<char>> {
    match n.parent_id {
        None => None,
        Some(p) => match first_with_id(nodes, p, nodes.len() as int) {
            None => Some(
                "Node "@ + uuid_text(n.id) + " references non-existent parent "@ + uuid_text(p),
            ),
            Some(j) => if is_group(nodes[j].node_type) {
                None
            } else {
                Some("Node "@ + uuid_text(n.id) + " parent "@ + uuid_text(p) + " is not a Group type"@)
            },
        },
    }
}

pub open spec fn first_parent_error(nodes: Seq<NodeView>, k: nat) -> Option<Seq<char>>
    decreases k,
{
    if k == 0 {
        None
    } else {
        match first_parent_error(nodes, (k - 1) as nat) {
            Some(e) => Some(e),
            None => parent_error(nodes, nodes[k - 1]),
        }
    }
}

/// An endpoint that names no node.
pub open spec fn endpoint_error(nodes: Seq<NodeView>, e: EdgeView) -> Option<Seq<char>> {
    if first_with_id(nodes, e.source_id, nodes.len() as int) is None {
        Some("Edge references non-existent source node: "@ + uuid_text(e.source_id))
    } else if first_with_id(nodes, e.target_id, nodes.len() as int) is None {
        Some("Edge references non-existent target node: "@ + uuid_text(e.target_id))
    } else {
        None
    }
}

pub open spec fn first_endpoint_error(nodes: Seq<NodeView>, edges: Seq<EdgeView>, k: nat) -> Option<Seq<char>>
    decreases k,
{
    if k == 0 {
        None
    } else {
        match first_endpoint_error(nodes, edges, (k - 1) as nat) {
            Some(e) => Some(e),
            None => endpoint_error(nodes, edges[k - 1]),
        }
    }
}

/// An edge from a node to itself.
pub open spec fn self_loop_error(e: EdgeView) -> Option<Seq<char>> {
    if e.source_id == e.target_id {
        Some("Self-loop detected on node "@ + uuid_text(e.source_id))
    } else {
        None
    }
}

pub open spec fn first_self_loop(edges: Seq<EdgeView>, k: nat) -> Option<Seq<char>>
    decreases k,
{
    if k == 0 {
        None
    } else {
        match first_self_loop(edges, (k - 1) as nat) {
            Some(e) => Some(e),
            None => self_loop_error(edges[k - 1]),
        }
    }
}

/// Edge `i` joins the same two nodes, in the same direction, as an earlier edge.
pub open spec fn duplicate_edge_error(edges: Seq<EdgeView>, i: int) -> Option<Seq<char>> {
    if exists|j: int|
        0 <= j < i && edges[j].source_id == edges[i].source_id && edges[j].target_id
            == edges[i].target_id {
        Some(
            "Duplicate edge from "@ + uuid_text(edges[i].source_id) + " to "@ + uuid_text(
                edges[i].target_id,
            ),
        )
    } else {
        None
    }
}

pub open spec fn first_duplicate_edge(edges: Seq<EdgeView>, k: nat) -> Option<Seq<char>>
    decreases k,
{
    if k == 0 {
        None
    } else {
        match first_duplicate_edge(edges, (k - 1) as nat) {
            Some(e) => Some(e),
            None => duplicate_edge_error(edges, k - 1),
        }
    }
}

/// The first problem with a generated diagram, checked in this order: no
/// nodes, too many nodes, too many edges, a repeated node id, a bad label, a
/// bad parent, an edge to a missing node, a self-loop, a repeated edge.
pub open spec fn ai_output_error(nodes: Seq<NodeView>, edges: Seq<EdgeView>) -> Option<Seq<char>> {
    if nodes.len() == 0 {
        Some("Diagram must have at least 1 node"@)
    } else if nodes.len() > MAX_NODES {
        Some("Too many nodes: "@ + decimal(nodes.len()) + " (max 50)"@)
    } else if edges.len() > MAX_EDGES {
        Some("Too many edges: "@ + decimal(edges.len()) + " (max 100)"@)
    } else if first_duplicate_node(nodes, nodes.len()) is Some {
        first_duplicate_node(nodes, nodes.len())
    } else if first_label_error(nodes, nodes.len()) is Some {
        first_label_error(nodes, nodes.len())
    } else if first_parent_error(nodes, nodes.len()) is Some {
        first_parent_error(nodes, nodes.len())
    } else if first_endpoint_error(nodes, edges, edges.len()) is Some {
        first_endpoint_error(nodes, edges, edges.len())
    } else if first_self_loop(edges, edges.len()) is Some {
        first_self_loop(edges, edges.len())
    } else {
        first_duplicate_edge(edges, edges.len())
    }
}

proof fn lemma_duplicate_node_stays(nodes: Seq<NodeView>, k: nat, k2: nat)
    requires
        k <= k2,
        first_duplicate_node(nodes, k) is Some,
    ensures
        first_duplicate_node(nodes, k2) == first_duplicate_node(nodes, k),
    decreases k2,
{
    if k2 > k {
        lemma_duplicate_node_stays(nodes, k, (k2 - 1) as nat);
    }
}

proof fn lemma_label_stays(nodes: Seq<NodeView>, k: nat, k2: nat)
    requires
        k <= k2,
        first_label_error(nodes, k) is Some,
    ensures
        first_label_error(nodes, k2) == first_label_error(nodes, k),
    decreases k2,
{
    if k2 > k {
        lemma_label_stays(nodes, k, (k2 - 1) as nat);
    }
}

proof fn lemma_parent_stays(nodes: Seq<NodeView>, k: nat, k2: nat)
    requires
        k <= k2,
        first_parent_error(nodes, k) is Some,
    ensures
        first_parent_error(nodes, k2) == first_parent_error(nodes, k),
    decreases k2,
{
    if k2 > k {
        lemma_parent_stays(nodes, k, (k2 - 1) as nat);
    }
}

proof fn lemma_endpoint_stays(nodes: Seq<NodeView>, edges: Seq<EdgeView>, k: nat, k2: nat)
    requires
        k <= k2,
        first_endpoint_error(nodes, edges, k) is Some,
    ensures
        first_endpoint_error(nodes, edges, k2) == first_endpoint_error(nodes, edges, k),
    decreases k2,
{
    if k2 > k {
        lemma_endpoint_stays(nodes, edges, k, (k2 - 1) as nat);
    }
}

proof fn lemma_self_loop_stays(edges: Seq<EdgeView>, k: nat, k2: nat)
    requires
        k <= k2,
        first_self_loop(edges, k) is Some,
    ensures
        first_self_loop(edges, k2) == first_self_loop(edges, k),
    decreases k2,
{
    if k2 > k {
        lemma_self_loop_stays(edges, k, (k2 - 1) as nat);
    }
}

proof fn lemma_duplicate_edge_stays(edges: Seq<EdgeView>, k: nat, k2: nat)
    requires
        k <= k2,
        first_duplicate_edge(edges, k) is Some,
    ensures
        first_duplicate_edge(edges, k2) == first_duplicate_edge(edges, k),
    decreases k2,
{
    if k2 > k {
        lemma_duplicate_edge_stays(edges, k, (k2 - 1) as nat);
    }
}

/// `"Node " + id + rest`.
fn node_message(id: u128, rest: &str) -> (s: String)
    ensures
        s@ == "Node "@ + uuid_text(id) + rest@,
{
    let t = uuid_string(id);
    String::from_str("Node ").concat(t.as_str()).concat(rest)
}

fn repeats_earlier_id(nodes: &[Node], i: usize) -> (b: bool)
    requires
        i < nodes.len(),
    ensures
        b == exists|j: int| 0 <= j < i && nodes_view(nodes@)[j].id == nodes_view(nodes@)[i as int].id,
{
    let ghost nv = nodes_view(nodes@);
    let mut j: usize = 0;
    while j < i
        invariant
            i < nodes.len(),
            j <= i,
            nv == nodes_view(nodes@),
            forall|k: int| 0 <= k < j ==> nv[k].id != nv[i as int].id,
        decreases i - j,
    {
        if nodes[j].id == nodes[i].id {
            assert(nv[j as int].id == nv[i as int].id);
            return true;
        }
        j = j + 1;
    }
    false
}

fn repeats_earlier_edge(edges: &[Edge], i: usize) -> (b: bool)
    requires
        i < edges.len(),
    ensures
        b == exists|j: int|
            0 <= j < i && edges_view(edges@)[j].source_id == edges_view(edges@)[i as int].source_id
                && edges_view(edges@)[j].target_id == edges_view(edges@)[i as int].target_id,
{
    let ghost ev = edges_view(edges@);
    let mut j: usize = 0;
    while j < i
        invariant
            i < edges.len(),
            j <= i,
            ev == edges_view(edges@),
            forall|k: int|
                0 <= k < j ==> !(ev[k].source_id == ev[i as int].source_id && ev[k].target_id
                    == ev[i as int].target_id),
        decreases i - j,
    {
        if edges[j].source_id == edges[i].source_id && edges[j].target_id == edges[i].target_id {
            assert(ev[j as int].source_id == ev[i as int].source_id);
            return true;
        }
        j = j + 1;
    }
    false
}

fn node_id_index(nodes: &[Node], id: u128) -> (r: Option<usize>)
    ensures
        match r {
            Some(i) => i < nodes.len() && first_with_id(nodes_view(nodes@), id, nodes@.len() as int)
                == Some(i as int),
            None => first_with_id(nodes_view(nodes@), id, nodes@.len() as int) is None,
        },
{
    let ghost nv = nodes_view(nodes@);
    let mut i: usize = 0;
    while i < nodes.len()
        invariant
            i <= nodes.len(),
            nv == nodes_view(nodes@),
            forall|j: int| 0 <= j < i ==> nv[j].id != id,
        decreases nodes.len() - i,
    {
        assert(nv[i as int].id == nodes@[i as int].id);
        if nodes[i].id == id {
            proof {
                crate::entities::node::lemma_first_with_id_found(nv, id, nv.len() as int, i as int);
            }
            return Some(i);
        }
        i = i + 1;
    }
    proof {
        crate::entities::node::lemma_first_with_id_none(nv, id, nv.len() as int);
    }
    None
}

fn first_duplicate_node_exec(nodes: &[Node]) -> (r: Option<String>)
    ensures
        opt_view(r) == first_duplicate_node(nodes_view(nodes@), nodes.len() as nat),
{
    let ghost nv = nodes_view(nodes@);
    let mut i: usize = 0;
    while i < nodes.len()
        invariant
            i <= nodes.len(),
            nv == nodes_view(nodes@),
            first_duplicate_node(nv, i as nat) is None,
        decreases nodes.len() - i,
    {
        if repeats_earlier_id(nodes, i) {
            let m = String::from_str("Duplicate node ID: ").concat(uuid_string(nodes[i].id).as_str());
            proof {
                lemma_duplicate_node_stays(nv, (i + 1) as nat, nodes.len() as nat);
            }
            return Some(m);
        }
        i = i + 1;
    }
    None
}

fn first_label_error_exec(nodes: &[Node]) -> (r: Option<String>)
    ensures
        opt_view(r) == first_label_error(nodes_view(nodes@), nodes.len() as nat),
{
    let ghost nv = nodes_view(nodes@);
    let mut i: usize = 0;
    while i < nodes.len()
        invariant
            i <= nodes.len(),
            nv == nodes_view(nodes@),
            first_label_error(nv, i as nat) is None,
        decreases nodes.len() - i,
    {
        assert(nv[i as int] == nodes@[i as int]@);
        let label = nodes[i].label.as_str();
        if blank(label) {
            proof {
                lemma_label_stays(nv, (i + 1) as nat, nodes.len() as nat);
            }
            return Some(node_message(nodes[i].id, " has an empty label"));
        }
        if utf8_len_exceeds(label, MAX_LABEL_BYTES) {
            proof {
                lemma_label_stays(nv, (i + 1) as nat, nodes.len() as nat);
            }
            return Some(node_message(nodes[i].id, " label exceeds 100 characters"));
        }
        i = i + 1;
    }
    None
}

fn first_parent_error_exec(nodes: &[Node]) -> (r: Option<String>)
    ensures
        opt_view(r) == first_parent_error(nodes_view(nodes@), nodes.len() as nat),
{
    let ghost nv = nodes_view(nodes@);
    let mut i: usize = 0;
    while i < nodes.len()
        invariant
            i <= nodes.len(),
            nv == nodes_view(nodes@),
            first_parent_error(nv, i as nat) is None,
        decreases nodes.len() - i,
    {
        assert(nv[i as int] == nodes@[i as int]@);
        match nodes[i].parent_id {
            None => {},
            Some(p) => match node_id_index(nodes, p) {
                None => {
                    proof {
                        lemma_parent_stays(nv, (i + 1) as nat, nodes.len() as nat);
                    }
                    let m = node_message(nodes[i].id, " references non-existent parent ");
                    return Some(m.concat(uuid_string(p).as_str()));
                },
                Some(j) => {
                    assert(nv[j as int] == nodes@[j as int]@);
                    if !is_group_type(&nodes[j].node_type) {
                        proof {
                            lemma_parent_stays(nv, (i + 1) as nat, nodes.len() as nat);
                        }
                        let m = node_message(nodes[i].id, " parent ");
                        return Some(
                            m.concat(uuid_string(p).as_str()).concat(" is not a Group type"),
                        );
                    }
                },
            },
        }
        i = i + 1;
    }
    None
}

fn first_endpoint_error_exec(nodes: &[Node], edges: &[Edge]) -> (r: Option<String>)
    ensures
        opt_view(r) == first_endpoint_error(nodes_view(nodes@), edges_view(edges@), edges.len() as nat),
{
    let ghost nv = nodes_view(nodes@);
    let ghost ev = edges_view(edges@);
    let mut i: usize = 0;
    while i < edges.len()
        invariant
            i <= edges.len(),
            nv == nodes_view(nodes@),
            ev == edges_view(edges@),
            first_endpoint_error(nv, ev, i as nat) is None,
        decreases edges.len() - i,
    {
        assert(ev[i as int] == edges@[i as int]@);
        if node_id_index(nodes, edges[i].source_id).is_none() {
            proof {
                lemma_endpoint_stays(nv, ev, (i + 1) as nat, edges.len() as nat);
            }
            return Some(
                String::from_str("Edge references non-existent source node: ").concat(
                    uuid_string(edges[i].source_id).as_str(),
                ),
            );
        }
        if node_id_index(nodes, edges[i].target_id).is_none() {
            proof {
                lemma_endpoint_stays(nv, ev, (i + 1) as nat, edges.len() as nat);
            }
            return Some(
                String::from_str("Edge references non-existent target node: ").concat(
                    uuid_string(edges[i].target_id).as_str(),
                ),
            );
        }
        i = i + 1;
    }
    None
}

fn first_self_loop_exec(edges: &[Edge]) -> (r: Option<String>)
    ensures
        opt_view(r) == first_self_loop(edges_view(edges@), edges.len() as nat),
{
    let ghost ev = edges_view(edges@);
    let mut i: usize = 0;
    while i < edges.len()
        invariant
            i <= edges.len(),
            ev == edges_view(edges@),
            first_self_loop(ev, i as nat) is None,
        decreases edges.len() - i,
    {
        assert(ev[i as int] == edges@[i as int]@);
        if edges[i].source_id == edges[i].target_id {
            proof {
                lemma_self_loop_stays(ev, (i + 1) as nat, edges.len() as nat);
            }
            return Some(
                String::from_str("Self-loop detected on node ").concat(
                    uuid_string(edges[i].source_id).as_str(),
                ),
            );
        }
        i = i + 1;
    }
    None
}

fn first_duplicate_edge_exec(edges: &[Edge]) -> (r: Option<String>)
    ensures
        opt_view(r) == first_duplicate_edge(edges_view(edges@), edges.len() as nat),
{
    let ghost ev = edges_view(edges@);
    let mut i: usize = 0;
    while i < edges.len()
        invariant
            i <= edges.len(),
            ev == edges_view(edges@),
            first_duplicate_edge(ev, i as nat) is None,
        decreases edges.len() - i,
    {
        if repeats_earlier_edge(edges, i) {
            proof {
                lemma_duplicate_edge_stays(ev, (i + 1) as nat, edges.len() as nat);
            }
            let m = String::from_str("Duplicate edge from ").concat(
                uuid_string(edges[i].source_id).as_str(),
            ).concat(" to ").concat(uuid_string(edges[i].target_id).as_str());
            return Some(m);
        }
        i = i + 1;
    }
    None
}

pub open spec fn opt_view(o: Option<String>) -> Option<Seq<char>> {
    match o {
        Some(s) => Some(s@),
        None => None,
    }
}

/// Checks a generated diagram. It passes exactly when `ai_output_error` finds
/// nothing; otherwise the error is a validation error with that message.
pub fn validate_ai_output(nodes: &[Node], edges: &[Edge]) -> (r: Result<(), DomainError>)
    ensures
        r is Ok <==> ai_output_error(nodes_view(nodes@), edges_view(edges@)) is None,
        r matches Err(e) ==> e@ == DomainErrorView::Validation(
            ai_output_error(nodes_view(nodes@), edges_view(edges@)).unwrap(),
        ),
{
    if nodes.len() == 0 {
        return Err(DomainError::Validation(String::from_str("Diagram must have at least 1 node")));
    }
    if nodes.len() > MAX_NODES {
        let m = String::from_str("Too many nodes: ").concat(
            decimal_string(nodes.len() as u64).as_str(),
        ).concat(" (max 50)");
        return Err(DomainError::Validation(m));
    }
    if edges.len() > MAX_EDGES {
        let m = String::from_str("Too many edges: ").concat(
            decimal_string(edges.len() as u64).as_str(),
        ).concat(" (max 100)");
        return Err(DomainError::Validation(m));
    }
    match first_duplicate_node_exec(nodes) {
        Some(m) => {
            return Err(DomainError::Validation(m));
        },
        None => {},
    }
    match first_label_error_exec(nodes) {
        Some(m) => {
            return Err(DomainError::Validation(m));
        },
        None => {},
    }
    match first_parent_error_exec(nodes) {
        Some(m) => {
            return Err(DomainError::Validation(m));
        },
        None => {},
    }
    match first_endpoint_error_exec(nodes, edges) {
        Some(m) => {
            return Err(DomainError::Validation(m));
        },
        None => {},
    }
    match first_self_loop_exec(edges) {
        Some(m) => {
            return Err(DomainError::Validation(m));
        },
        None => {},
    }
    match first_duplicate_edge_exec(edges) {
        Some(m) => {
            return Err(DomainError::Validation(m));
        },
        None => {},
    }
    Ok(())
}

// ---------------------------------------------------------------------------
// What an accepted diagram is like.

proof fn lemma_no_duplicate_node(nodes: Seq<NodeView>, k: nat)
    requires
        first_duplicate_node(nodes, k) is None,
    ensures
        forall|i: int| 0 <= i < k ==> (#[trigger] duplicate_node_error(nodes, i)) is None,
    decreases k,
{
    if k > 0 {
        lemma_no_duplicate_node(nodes, (k - 1) as nat);
    }
}

proof fn lemma_no_label_error(nodes: Seq<NodeView>, k: nat)
    requires
        first_label_error(nodes, k) is None,
    ensures
        forall|i: int| 0 <= i < k ==> (#[trigger] label_error(nodes[i])) is None,
    decreases k,
{
    if k > 0 {
        lemma_no_label_error(nodes, (k - 1) as nat);
    }
}

proof fn lemma_no_parent_error(nodes: Seq<NodeView>, k: nat)
    requires
        first_parent_error(nodes, k) is None,
    ensures
        forall|i: int| 0 <= i < k ==> (#[trigger] parent_error(nodes, nodes[i])) is None,
    decreases k,
{
    if k > 0 {
        lemma_no_parent_error(nodes, (k - 1) as nat);
    }
}

proof fn lemma_no_endpoint_error(nodes: Seq<NodeView>, edges: Seq<EdgeView>, k: nat)
    requires
        first_endpoint_error(nodes, edges, k) is None,
    ensures
        forall|i: int| 0 <= i < k ==> (#[trigger] endpoint_error(nodes, edges[i])) is None,
    decreases k,
{
    if k > 0 {
        lemma_no_endpoint_error(nodes, edges, (k - 1) as nat);
    }
}

proof fn lemma_no_self_loop(edges: Seq<EdgeView>, k: nat)
    requires
        first_self_loop(edges, k) is None,
    ensures
        forall|i: int| 0 <= i < k ==> (#[trigger] self_loop_error(edges[i])) is None,
    decreases k,
{
    if k > 0 {
        lemma_no_self_loop(edges, (k - 1) as nat);
    }
}

proof fn lemma_no_duplicate_edge(edges: Seq<EdgeView>, k: nat)
    requires
        first_duplicate_edge(edges, k) is None,
    ensures
        forall|i: int| 0 <= i < k ==> (#[trigger] duplicate_edge_error(edges, i)) is None,
    decreases k,
{
    if k > 0 {
        lemma_no_duplicate_edge(edges, (k - 1) as nat);
    }
}

/// A diagram that passes the checks has between 1 and 50 nodes with
/// distinct ids and non-blank labels of at most 100 bytes, each parent an
/// existing group, at most 100 edges, each between two existing distinct
/// nodes, and no two edges joining the same nodes in the same direction.
pub proof fn law_accepted_output_is_well_formed(nodes: Seq<NodeView>, edges: Seq<EdgeView>)
    requires
        ai_output_error(nodes, edges) is None,
    ensures
        1 <= nodes.len() <= MAX_NODES,
        edges.len() <= MAX_EDGES,
        forall|i: int, j: int| 0 <= i < j < nodes.len() ==> nodes[i].id != nodes[j].id,
        forall|i: int|
            0 <= i < nodes.len() ==> !is_blank(#[trigger] nodes[i].label) && encode_utf8(nodes[i].label).len()
                <= MAX_LABEL_BYTES,
        forall|i: int|
            0 <= i < nodes.len() && (#[trigger] nodes[i].parent_id) is Some ==> match first_with_id(
                nodes,
                nodes[i].parent_id.unwrap(),
                nodes.len() as int,
            ) {
                Some(p) => is_group(nodes[p].node_type),
                None => false,
            },
        forall|k: int|
            0 <= k < edges.len() ==> first_with_id(nodes, (#[trigger] edges[k]).source_id, nodes.len() as int) is Some
                && first_with_id(nodes, edges[k].target_id, nodes.len() as int) is Some
                && edges[k].source_id != edges[k].target_id,
        forall|i: int, j: int|
            0 <= i < j < edges.len() ==> !(edges[i].source_id == edges[j].source_id
                && edges[i].target_id == edges[j].target_id),
{
    lemma_no_duplicate_node(nodes, nodes.len());
    lemma_no_label_error(nodes, nodes.len());
    lemma_no_parent_error(nodes, nodes.len());
    lemma_no_endpoint_error(nodes, edges, edges.len());
    lemma_no_self_loop(edges, edges.len());
    lemma_no_duplicate_edge(edges, edges.len());
    assert forall|i: int, j: int| 0 <= i < j < nodes.len() implies nodes[i].id != nodes[j].id by {
        assert(duplicate_node_error(nodes, j) is None);
    }
    assert forall|i: int| 0 <= i < nodes.len() implies !is_blank(#[trigger] nodes[i].label)
        && encode_utf8(nodes[i].label).len() <= MAX_LABEL_BYTES by {
        assert(label_error(nodes[i]) is None);
    }
    assert forall|i: int| 0 <= i < nodes.len() && (#[trigger] nodes[i].parent_id) is Some implies match first_with_id(
        nodes,
        nodes[i].parent_id.unwrap(),
        nodes.len() as int,
    ) {
        Some(p) => is_group(nodes[p].node_type),
        None => false,
    } by {
        assert(parent_error(nodes, nodes[i]) is None);
    }
    assert forall|k: int| 0 <= k < edges.len() implies first_with_id(nodes, (#[trigger] edges[k]).source_id, nodes.len() as int) is Some
        && first_with_id(nodes, edges[k].target_id, nodes.len() as int) is Some
        && edges[k].source_id != edges[k].target_id by {
        assert(endpoint_error(nodes, edges[k]) is None);
        assert(self_loop_error(edges[k]) is None);
    }
    assert forall|i: int, j: int| 0 <= i < j < edges.len() implies !(edges[i].source_id == edges[j].source_id
        && edges[i].target_id == edges[j].target_id) by {
        assert(duplicate_edge_error(edges, j) is None);
    }
}

/// The well-formedness that the checks of a generated diagram stand for.
pub open spec fn well_formed_output(nodes: Seq<NodeView>, edges: Seq<EdgeView>) -> bool {
    &&& 1 <= nodes.len() <= MAX_NODES
    &&& edges.len() <= MAX_EDGES
    &&& forall|i: int, j: int| 0 <= i < j < nodes.len() ==> nodes[i].id != nodes[j].id
    &&& forall|i: int|
        0 <= i < nodes.len() ==> !is_blank(#[trigger] nodes[i].label) && encode_utf8(nodes[i].label).len()
            <= MAX_LABEL_BYTES
    &&& forall|i: int|
        0 <= i < nodes.len() && (#[trigger] nodes[i].parent_id) is Some ==> match first_with_id(
            nodes,
            nodes[i].parent_id.unwrap(),
            nodes.len() as int,
        ) {
            Some(p) => is_group(nodes[p].node_type),
            None => false,
        }
    &&& forall|k: int|
        0 <= k < edges.len() ==> first_with_id(nodes, (#[trigger] edges[k]).source_id, nodes.len() as int) is Some
            && first_with_id(nodes, edges[k].target_id, nodes.len() as int) is Some && edges[k].source_id
            != edges[k].target_id
    &&& forall|i: int, j: int|
        0 <= i < j < edges.len() ==> !(edges[i].source_id == edges[j].source_id && edges[i].target_id
            == edges[j].target_id)
}

proof fn lemma_all_nodes_fine(nodes: Seq<NodeView>, k: nat)
    requires
        k <= nodes.len(),
        forall|i: int| 0 <= i < k ==> (#[trigger] duplicate_node_error(nodes, i)) is None,
        forall|i: int| 0 <= i < k ==> (#[trigger] label_error(nodes[i])) is None,
        forall|i: int| 0 <= i < k ==> (#[trigger] parent_error(nodes, nodes[i])) is None,
    ensures
        first_duplicate_node(nodes, k) is None,
        first_label_error(nodes, k) is None,
        first_parent_error(nodes, k) is None,
    decreases k,
{
    if k > 0 {
        lemma_all_nodes_fine(nodes, (k - 1) as nat);
        assert(duplicate_node_error(nodes, k - 1) is None);
        assert(label_error(nodes[k - 1]) is None);
        assert(parent_error(nodes, nodes[k - 1]) is None);
    }
}

proof fn lemma_all_edges_fine(nodes: Seq<NodeView>, edges: Seq<EdgeView>, k: nat)
    requires
        k <= edges.len(),
        forall|i: int| 0 <= i < k ==> (#[trigger] endpoint_error(nodes, edges[i])) is None,
        forall|i: int| 0 <= i < k ==> (#[trigger] self_loop_error(edges[i])) is None,
        forall|i: int| 0 <= i < k ==> (#[trigger] duplicate_edge_error(edges, i)) is None,
    ensures
        first_endpoint_error(nodes, edges, k) is None,
        first_self_loop(edges, k) is None,
        first_duplicate_edge(edges, k) is None,
    decreases k,
{
    if k > 0 {
        lemma_all_edges_fine(nodes, edges, (k - 1) as nat);
        assert(endpoint_error(nodes, edges[k - 1]) is None);
        assert(self_loop_error(edges[k - 1]) is None);
        assert(duplicate_edge_error(edges, k - 1) is None);
    }
}

/// A well-formed generated diagram passes the checks; with the law above, a
/// generated diagram is accepted exactly when it is well formed.
pub proof fn law_well_formed_output_is_accepted(nodes: Seq<NodeView>, edges: Seq<EdgeView>)
    ensures
        ai_output_error(nodes, edges) is None <==> well_formed_output(nodes, edges),
{
    if ai_output_error(nodes, edges) is None {
        law_accepted_output_is_well_formed(nodes, edges);
    }
    if well_formed_output(nodes, edges) {
        assert forall|i: int| 0 <= i < nodes.len() implies (#[trigger] duplicate_node_error(nodes, i)) is None by {
            if exists|j: int| 0 <= j < i && nodes[j].id == nodes[i].id {
                let j = choose|j: int| 0 <= j < i && nodes[j].id == nodes[i].id;
                assert(nodes[j].id != nodes[i].id);
            }
        }
        assert forall|i: int| 0 <= i < nodes.len() implies (#[trigger] label_error(nodes[i])) is None by {
            assert(!is_blank(nodes[i].label));
        }
        assert forall|i: int| 0 <= i < nodes.len() implies (#[trigger] parent_error(nodes, nodes[i])) is None by {
            if nodes[i].parent_id is Some {
                assert(nodes[i].parent_id is Some);
            }
        }
        lemma_all_nodes_fine(nodes, nodes.len());
        assert forall|i: int| 0 <= i < edges.len() implies (#[trigger] endpoint_error(nodes, edges[i])) is None by {
            assert(first_with_id(nodes, edges[i].source_id, nodes.len() as int) is Some);
        }
        assert forall|i: int| 0 <= i < edges.len() implies (#[trigger] self_loop_error(edges[i])) is None by {
            assert(first_with_id(nodes, edges[i].source_id, nodes.len() as int) is Some);
        }
        assert forall|i: int| 0 <= i < edges.len() implies (#[trigger] duplicate_edge_error(edges, i)) is None by {
            if exists|j: int|
                0 <= j < i && edges[j].source_id == edges[i].source_id && edges[j].target_id
                    == edges[i].target_id {
                let j = choose|j: int|
                    0 <= j < i && edges[j].source_id == edges[i].source_id && edges[j].target_id
                        == edges[i].target_id;
                assert(!(edges[j].source_id == edges[i].source_id && edges[j].target_id == edges[i].target_id));
            }
        }
        lemma_all_edges_fine(nodes, edges, edges.len());
    }
}

} // verus!

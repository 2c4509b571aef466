//! The structured answers of the model, and their translation into nodes and
//! edges. The model names new nodes by temporary ids; each gets a fresh UUID.
use vstd::prelude::*;
use vstd::string::*;
use crate::ai::node_types::{edge_type_named, node_type_error, node_type_named, node_type_or_message};
use crate::entities::diagram::Diagram;
use crate::entities::docker_catalog::strings_view;
use crate::entities::edge::{
    edges_view, plain_edge_properties, Edge, EdgeProperties, EdgeView,
};
use crate::entities::errors::{DomainError, DomainErrorView};
use crate::entities::node::{
    clone_opt_string, nodes_view, opt_str_view, Node, NodeProperties, NodePropertiesView,
    NodeView, Position, Size,
};
use crate::ai::node_types::parse_edge_type;
use crate::ids::{is_v4_id, new_id, parse_uuid, spec_parse_uuid, uuid_string, uuid_text};
use crate::entities::node::{find_node_index, first_with_id};

verus! {

/// A node as the model proposes it.
pub struct AiNode {
    pub id: String,
    pub category: String,
    pub component: String,
    pub label: String,
    pub parent_id: Option<String>,
}

pub struct AiNodeView {
    pub id: Seq<char>,
    pub category: Seq<char>,
    pub component: Seq<char>,
    pub label: Seq<char>,
    pub parent_id: Option<Seq<char>>,
}

impl View for AiNode {
    type V = AiNodeView;

    open spec fn view(&self) -> AiNodeView {
        AiNodeView {
            id: self.id@,
            category: self.category@,
            component: self.component@,
            label: self.label@,
            parent_id: opt_str_view(self.parent_id),
        }
    }
}

/// An edge as the model proposes it, between temporary or existing ids.
pub struct AiEdge {
    pub source_id: String,
    pub target_id: String,
    pub edge_type: String,
    pub label: Option<String>,
    pub protocol: Option<String>,
}

pub struct AiEdgeView {
    pub source_id: Seq<char>,
    pub target_id: Seq<char>,
    pub edge_type: Seq<char>,
    pub label: Option<Seq<char>>,
    pub protocol: Option<Seq<char>>,
}

impl View for AiEdge {
    type V = AiEdgeView;

    open spec fn view(&self) -> AiEdgeView {
        AiEdgeView {
            source_id: self.source_id@,
            target_id: self.target_id@,
            edge_type: self.edge_type@,
            label: opt_str_view(self.label),
            protocol: opt_str_view(self.protocol),
        }
    }
}

/// A whole diagram as the model proposes it.
pub struct AiDiagramResponse {
    pub name: String,
    pub description: Option<String>,
    pub nodes: Vec<AiNode>,
    pub edges: Vec<AiEdge>,
}

pub struct AiDiagramResponseView {
    pub name: Seq<char>,
    pub description: Option<Seq<char>>,
    pub nodes: Seq<AiNodeView>,
    pub edges: Seq<AiEdgeView>,
}

pub open spec fn ai_nodes_view(s: Seq<AiNode>) -> Seq<AiNodeView> {
    s.map_values(|n: AiNode| n@)
}

pub open spec fn ai_edges_view(s: Seq<AiEdge>) -> Seq<AiEdgeView> {
    s.map_values(|e: AiEdge| e@)
}

impl View for AiDiagramResponse {
    type V = AiDiagramResponseView;

    open spec fn view(&self) -> AiDiagramResponseView {
        AiDiagramResponseView {
            name: self.name@,
            description: opt_str_view(self.description),
            nodes: ai_nodes_view(self.nodes@),
            edges: ai_edges_view(self.edges@),
        }
    }
}

/// A change to an existing node: a new label, and a new type when both
/// its category and its component are given.
pub struct AiNodeUpdate {
    pub id: String,
    pub label: Option<String>,
    pub category: Option<String>,
    pub component: Option<String>,
}

pub struct AiNodeUpdateView {
    pub id: Seq<char>,
    pub label: Option<Seq<char>>,
    pub category: Option<Seq<char>>,
    pub component: Option<Seq<char>>,
}

impl View for AiNodeUpdate {
    type V = AiNodeUpdateView;

    open spec fn view(&self) -> AiNodeUpdateView {
        AiNodeUpdateView {
            id: self.id@,
            label: opt_str_view(self.label),
            category: opt_str_view(self.category),
            component: opt_str_view(self.component),
        }
    }
}

/// The changes to a diagram that the model proposes.
pub struct AiModifyResponse {
    pub nodes_to_add: Vec<AiNode>,
    pub nodes_to_remove: Vec<String>,
    pub nodes_to_update: Vec<AiNodeUpdate>,
    pub edges_to_add: Vec<AiEdge>,
    pub edges_to_remove: Vec<String>,
}

pub struct AiModifyResponseView {
    pub nodes_to_add: Seq<AiNodeView>,
    pub nodes_to_remove: Seq<Seq<char>>,
    pub nodes_to_update: Seq<AiNodeUpdateView>,
    pub edges_to_add: Seq<AiEdgeView>,
    pub edges_to_remove: Seq<Seq<char>>,
}

pub open spec fn ai_updates_view(s: Seq<AiNodeUpdate>) -> Seq<AiNodeUpdateView> {
    s.map_values(|u: AiNodeUpdate| u@)
}

impl View for AiModifyResponse {
    type V = AiModifyResponseView;

    open spec fn view(&self) -> AiModifyResponseView {
        AiModifyResponseView {
            nodes_to_add: ai_nodes_view(self.nodes_to_add@),
            nodes_to_remove: strings_view(self.nodes_to_remove@),
            nodes_to_update: ai_updates_view(self.nodes_to_update@),
            edges_to_add: ai_edges_view(self.edges_to_add@),
            edges_to_remove: strings_view(self.edges_to_remove@),
        }
    }
}

// ---------------------------------------------------------------------------
// The id map: textual ids and the UUIDs they stand for; a later entry for the
// same text replaces an earlier one.

/// The UUID that `key` stands for: the value of the last entry with that key.
pub open spec fn lookup_id(keys: Seq<Seq<char>>, vals: Seq<u128>, key: Seq<char>) -> Option<u128>
    decreases keys.len(),
{
    if keys.len() == 0 {
        None
    } else if keys.last() == key {
        Some(vals[keys.len() - 1])
    } else {
        lookup_id(keys.drop_last(), vals, key)
    }
}

proof fn lemma_lookup_present(keys: Seq<Seq<char>>, vals: Seq<u128>, i: int)
    requires
        0 <= i < keys.len(),
    ensures
        lookup_id(keys, vals, keys[i]) is Some,
    decreases keys.len(),
{
    if keys.last() != keys[i] {
        lemma_lookup_present(keys.drop_last(), vals, i);
    }
}

fn lookup_id_exec(keys: &Vec<String>, vals: &Vec<u128>, key: &str) -> (r: Option<u128>)
    requires
        keys.len() <= vals.len(),
    ensures
        r == lookup_id(strings_view(keys@), vals@, key@),
{
    let ghost ks = strings_view(keys@);
    let mut i = keys.len();
    assert(ks.subrange(0, i as int) =~= ks);
    while i > 0
        invariant
            i <= keys.len() <= vals.len(),
            ks == strings_view(keys@),
            lookup_id(ks, vals@, key@) == lookup_id(ks.subrange(0, i as int), vals@, key@),
        decreases i,
    {
        let ghost pre = ks.subrange(0, i as int);
        assert(pre.drop_last() =~= ks.subrange(0, i - 1));
        if crate::text::str_eq(keys[i - 1].as_str(), key) {
            return Some(vals[i - 1]);
        }
        i = i - 1;
    }
    assert(ks.subrange(0, 0) =~= Seq::<Seq<char>>::empty());
    None
}

// ---------------------------------------------------------------------------
// Nodes and edges built from the proposals.

/// Bit pattern of `180.0`, the width of a new node.
pub open spec fn new_node_width_bits() -> u64 {
    0x4066800000000000
}

/// Bit pattern of `80.0`, the height of a new node.
pub open spec fn new_node_height_bits() -> u64 {
    0x4054000000000000
}

/// The node made from a proposal: at the origin, 180 by 80, with an empty
/// configuration object and no style or provider mappings.
pub open spec fn proposed_node(n: AiNodeView, id: u128, t: crate::entities::node::NodeType, parent: Option<u128>) -> NodeView {
    NodeView {
        id: id,
        node_type: t,
        label: n.label,
        position: Position { x_bits: 0, y_bits: 0 },
        size: Size { width_bits: new_node_width_bits(), height_bits: new_node_height_bits() },
        properties: NodePropertiesView { config: "{}"@, style: None },
        parent_id: parent,
        provider_mappings: None,
    }
}

/// One proposed node, or the message of the first thing wrong with it.
pub open spec fn node_step(n: AiNodeView, keys: Seq<Seq<char>>, vals: Seq<u128>) -> Result<NodeView, Seq<char>> {
    match node_type_named(n.category, n.component) {
        None => Err(node_type_error(n.category, n.component)),
        Some(t) => match n.parent_id {
            None => Ok(proposed_node(n, lookup_id(keys, vals, n.id).unwrap(), t, None)),
            Some(p) => match lookup_id(keys, vals, p) {
                None => Err("Unknown parent_id: "@ + p),
                Some(pid) => Ok(proposed_node(n, lookup_id(keys, vals, n.id).unwrap(), t, Some(pid))),
            },
        },
    }
}

/// The first `k` proposed nodes, or the message of the first error among them.
pub open spec fn parse_nodes(ns: Seq<AiNodeView>, keys: Seq<Seq<char>>, vals: Seq<u128>, k: nat) -> Result<Seq<NodeView>, Seq<char>>
    decreases k,
{
    if k == 0 {
        Ok(Seq::empty())
    } else {
        match parse_nodes(ns, keys, vals, (k - 1) as nat) {
            Err(e) => Err(e),
            Ok(done) => match node_step(ns[k - 1], keys, vals) {
                Err(e) => Err(e),
                Ok(n) => Ok(done.push(n)),
            },
        }
    }
}

/// One proposed edge with the UUID `id`, or the message of the first thing
/// wrong with it.
pub open spec fn edge_step(e: AiEdgeView, keys: Seq<Seq<char>>, vals: Seq<u128>, id: u128) -> Result<EdgeView, Seq<char>> {
    match lookup_id(keys, vals, e.source_id) {
        None => Err("Unknown edge source_id: "@ + e.source_id),
        Some(s) => match lookup_id(keys, vals, e.target_id) {
            None => Err("Unknown edge target_id: "@ + e.target_id),
            Some(t) => match edge_type_named(e.edge_type) {
                None => Err("Unknown edge type: "@ + e.edge_type),
                Some(et) => Ok(EdgeView {
                    id: id,
                    source_id: s,
                    target_id: t,
                    edge_type: et,
                    label: e.label,
                    properties: plain_edge_properties(e.protocol),
                }),
            },
        },
    }
}

/// The first `k` proposed edges, edge `i` taking the UUID `ids[i]`, or the
/// message of the first error among them.
pub open spec fn parse_edges(es: Seq<AiEdgeView>, keys: Seq<Seq<char>>, vals: Seq<u128>, ids: Seq<u128>, k: nat) -> Result<Seq<EdgeView>, Seq<char>>
    decreases k,
{
    if k == 0 {
        Ok(Seq::empty())
    } else {
        match parse_edges(es, keys, vals, ids, (k - 1) as nat) {
            Err(e) => Err(e),
            Ok(done) => match edge_step(es[k - 1], keys, vals, ids[k - 1]) {
                Err(e) => Err(e),
                Ok(x) => Ok(done.push(x)),
            },
        }
    }
}

pub open spec fn nodes_result_view(r: Result<Vec<Node>, String>) -> Result<Seq<NodeView>, Seq<char>> {
    match r {
        Ok(v) => Ok(nodes_view(v@)),
        Err(m) => Err(m@),
    }
}

pub open spec fn edges_result_view(r: Result<Vec<Edge>, String>) -> Result<Seq<EdgeView>, Seq<char>> {
    match r {
        Ok(v) => Ok(edges_view(v@)),
        Err(m) => Err(m@),
    }
}

fn parse_node(n: &AiNode, keys: &Vec<String>, vals: &Vec<u128>) -> (r: Result<Node, String>)
    requires
        keys.len() <= vals.len(),
        lookup_id(strings_view(keys@), vals@, n@.id) is Some,
    ensures
        node_step(n@, strings_view(keys@), vals@) == match r {
            Ok(x) => Ok(x@),
            Err(m) => Err(m@),
        },
{
    let node_type = match node_type_or_message(n.category.as_str(), n.component.as_str()) {
        Ok(t) => t,
        Err(m) => {
            return Err(m);
        },
    };
    let parent_id = match &n.parent_id {
        None => None,
        Some(p) => match lookup_id_exec(keys, vals, p.as_str()) {
            None => {
                return Err(String::from_str("Unknown parent_id: ").concat(p.as_str()));
            },
            Some(pid) => Some(pid),
        },
    };
    let id = lookup_id_exec(keys, vals, n.id.as_str()).unwrap();
    Ok(Node {
        id: id,
        node_type: node_type,
        label: n.label.clone(),
        position: Position { x_bits: 0, y_bits: 0 },
        size: Size { width_bits: 0x4066800000000000, height_bits: 0x4054000000000000 },
        properties: NodeProperties { config: String::from_str("{}"), style: None },
        parent_id: parent_id,
        provider_mappings: None,
    })
}

proof fn lemma_nodes_error_stays(ns: Seq<AiNodeView>, keys: Seq<Seq<char>>, vals: Seq<u128>, k: nat, k2: nat)
    requires
        k <= k2,
        parse_nodes(ns, keys, vals, k) is Err,
    ensures
        parse_nodes(ns, keys, vals, k2) == parse_nodes(ns, keys, vals, k),
    decreases k2,
{
    if k2 > k {
        lemma_nodes_error_stays(ns, keys, vals, k, (k2 - 1) as nat);
    }
}

proof fn lemma_edges_error_stays(es: Seq<AiEdgeView>, keys: Seq<Seq<char>>, vals: Seq<u128>, ids: Seq<u128>, k: nat, k2: nat)
    requires
        k <= k2,
        parse_edges(es, keys, vals, ids, k) is Err,
    ensures
        parse_edges(es, keys, vals, ids, k2) == parse_edges(es, keys, vals, ids, k),
    decreases k2,
{
    if k2 > k {
        lemma_edges_error_stays(es, keys, vals, ids, k, (k2 - 1) as nat);
    }
}

fn parse_nodes_exec(ns: &Vec<AiNode>, keys: &Vec<String>, vals: &Vec<u128>) -> (r: Result<Vec<Node>, String>)
    requires
        keys.len() <= vals.len(),
        forall|k: int| 0 <= k < ns.len() ==> lookup_id(strings_view(keys@), vals@, #[trigger] ns@[k]@.id) is Some,
    ensures
        nodes_result_view(r) == parse_nodes(ai_nodes_view(ns@), strings_view(keys@), vals@, ns.len() as nat),
{
    let ghost nsv = ai_nodes_view(ns@);
    let mut out: Vec<Node> = Vec::new();
    let mut i: usize = 0;
    assert(nodes_view(out@) =~= Seq::<NodeView>::empty());
    while i < ns.len()
        invariant
            i <= ns.len(),
            out.len() == i,
            keys.len() <= vals.len(),
            nsv == ai_nodes_view(ns@),
            forall|k: int| 0 <= k < ns.len() ==> lookup_id(strings_view(keys@), vals@, #[trigger] ns@[k]@.id) is Some,
            parse_nodes(nsv, strings_view(keys@), vals@, i as nat) == Ok::<Seq<NodeView>, Seq<char>>(nodes_view(out@)),
        decreases ns.len() - i,
    {
        assert(nsv[i as int] == ns@[i as int]@);
        match parse_node(&ns[i], keys, vals) {
            Err(m) => {
                proof {
                    lemma_nodes_error_stays(nsv, strings_view(keys@), vals@, (i + 1) as nat, ns.len() as nat);
                }
                return Err(m);
            },
            Ok(n) => {
                let ghost before = out@;
                out.push(n);
                assert(nodes_view(out@) =~= nodes_view(before).push(out@[i as int]@));
            },
        }
        i = i + 1;
    }
    Ok(out)
}

fn parse_edge(e: &AiEdge, keys: &Vec<String>, vals: &Vec<u128>, id: u128) -> (r: Result<Edge, String>)
    requires
        keys.len() <= vals.len(),
    ensures
        edge_step(e@, strings_view(keys@), vals@, id) == match r {
            Ok(x) => Ok(x@),
            Err(m) => Err(m@),
        },
{
    let source_id = match lookup_id_exec(keys, vals, e.source_id.as_str()) {
        None => {
            return Err(String::from_str("Unknown edge source_id: ").concat(e.source_id.as_str()));
        },
        Some(s) => s,
    };
    let target_id = match lookup_id_exec(keys, vals, e.target_id.as_str()) {
        None => {
            return Err(String::from_str("Unknown edge target_id: ").concat(e.target_id.as_str()));
        },
        Some(t) => t,
    };
    let edge_type = match parse_edge_type(e.edge_type.as_str()) {
        Err(_) => {
            return Err(String::from_str("Unknown edge type: ").concat(e.edge_type.as_str()));
        },
        Ok(t) => t,
    };
    Ok(Edge {
        id: id,
        source_id: source_id,
        target_id: target_id,
        edge_type: edge_type,
        label: clone_opt_string(&e.label),
        properties: EdgeProperties {
            protocol: clone_opt_string(&e.protocol),
            port: None,
            bidirectional: false,
            communication_pattern: None,
            style: None,
        },
    })
}

fn parse_edges_exec(es: &Vec<AiEdge>, keys: &Vec<String>, vals: &Vec<u128>, ids: &Vec<u128>) -> (r: Result<Vec<Edge>, String>)
    requires
        keys.len() <= vals.len(),
        ids.len() == es.len(),
    ensures
        edges_result_view(r) == parse_edges(ai_edges_view(es@), strings_view(keys@), vals@, ids@, es.len() as nat),
{
    let ghost esv = ai_edges_view(es@);
    let mut out: Vec<Edge> = Vec::new();
    let mut i: usize = 0;
    assert(edges_view(out@) =~= Seq::<EdgeView>::empty());
    while i < es.len()
        invariant
            i <= es.len(),
            out.len() == i,
            keys.len() <= vals.len(),
            ids.len() == es.len(),
            esv == ai_edges_view(es@),
            parse_edges(esv, strings_view(keys@), vals@, ids@, i as nat) == Ok::<Seq<EdgeView>, Seq<char>>(edges_view(out@)),
        decreases es.len() - i,
    {
        assert(esv[i as int] == es@[i as int]@);
        match parse_edge(&es[i], keys, vals, ids[i]) {
            Err(m) => {
                proof {
                    lemma_edges_error_stays(esv, strings_view(keys@), vals@, ids@, (i + 1) as nat, es.len() as nat);
                }
                return Err(m);
            },
            Ok(x) => {
                let ghost before = out@;
                out.push(x);
                assert(edges_view(out@) =~= edges_view(before).push(out@[i as int]@));
            },
        }
        i = i + 1;
    }
    Ok(out)
}

/// The temporary ids of proposed nodes, in order.
pub open spec fn temp_ids(ns: Seq<AiNodeView>) -> Seq<Seq<char>> {
    ns.map_values(|n: AiNodeView| n.id)
}

/// What a proposed diagram becomes when node `i` takes the UUID
/// `node_ids[i]` (a later node with the same temporary id wins) and edge `i`
/// takes `edge_ids[i]`: its name, description, nodes and edges, or the first
/// error among the nodes, then among the edges.
pub open spec fn parsed_response(r: AiDiagramResponseView, node_ids: Seq<u128>, edge_ids: Seq<u128>) -> Result<(Seq<char>, Option<Seq<char>>, Seq<NodeView>, Seq<EdgeView>), DomainErrorView> {
    let keys = temp_ids(r.nodes);
    match parse_nodes(r.nodes, keys, node_ids, r.nodes.len()) {
        Err(m) => Err(DomainErrorView::AiError(m)),
        Ok(ns) => match parse_edges(r.edges, keys, node_ids, edge_ids, r.edges.len()) {
            Err(m) => Err(DomainErrorView::AiError(m)),
            Ok(es) => Ok((r.name, r.description, ns, es)),
        },
    }
}

pub open spec fn parse_result_view(r: Result<(String, Option<String>, Vec<Node>, Vec<Edge>), DomainError>) -> Result<(Seq<char>, Option<Seq<char>>, Seq<NodeView>, Seq<EdgeView>), DomainErrorView> {
    match r {
        Ok((name, description, ns, es)) => Ok((name@, opt_str_view(description), nodes_view(ns@), edges_view(es@))),
        Err(e) => Err(e@),
    }
}

fn temp_id_keys(ns: &Vec<AiNode>) -> (keys: Vec<String>)
    ensures
        strings_view(keys@) == temp_ids(ai_nodes_view(ns@)),
{
    let mut keys: Vec<String> = Vec::new();
    let mut i: usize = 0;
    while i < ns.len()
        invariant
            i <= ns.len(),
            keys.len() == i,
            forall|k: int| 0 <= k < i ==> keys@[k]@ == ns@[k].id@,
        decreases ns.len() - i,
    {
        keys.push(ns[i].id.clone());
        i = i + 1;
    }
    assert(strings_view(keys@) =~= temp_ids(ai_nodes_view(ns@)));
    keys
}

/// Builds the parts of a proposed diagram, node `i` taking the UUID
/// `node_ids[i]` and edge `i` the UUID `edge_ids[i]`.
pub fn parse_ai_response_with_ids(response: &AiDiagramResponse, node_ids: &Vec<u128>, edge_ids: &Vec<u128>) -> (r: Result<(String, Option<String>, Vec<Node>, Vec<Edge>), DomainError>)
    requires
        node_ids.len() == response.nodes.len(),
        edge_ids.len() == response.edges.len(),
    ensures
        parse_result_view(r) == parsed_response(response@, node_ids@, edge_ids@),
{
    let keys = temp_id_keys(&response.nodes);
    proof {
        assert forall|k: int| 0 <= k < response.nodes.len() implies lookup_id(strings_view(keys@), node_ids@, #[trigger] response.nodes@[k]@.id) is Some by {
            assert(strings_view(keys@)[k] == response.nodes@[k]@.id);
            lemma_lookup_present(strings_view(keys@), node_ids@, k);
        }
    }
    let nodes = match parse_nodes_exec(&response.nodes, &keys, node_ids) {
        Err(m) => {
            return Err(DomainError::AiError(m));
        },
        Ok(v) => v,
    };
    let edges = match parse_edges_exec(&response.edges, &keys, node_ids, edge_ids) {
        Err(m) => {
            return Err(DomainError::AiError(m));
        },
        Ok(v) => v,
    };
    Ok((response.name.clone(), clone_opt_string(&response.description), nodes, edges))
}

/// Every value is a version-4 (random) UUID.
pub open spec fn all_v4(ids: Seq<u128>) -> bool {
    forall|i: int| 0 <= i < ids.len() ==> is_v4_id(#[trigger] ids[i])
}

/// `n` fresh random UUIDs.
fn fresh_ids(n: usize) -> (ids: Vec<u128>)
    ensures
        ids.len() == n,
        all_v4(ids@),
{
    let mut ids: Vec<u128> = Vec::new();
    let mut i: usize = 0;
    while i < n
        invariant
            i <= n,
            ids.len() == i,
            all_v4(ids@),
        decreases n - i,
    {
        ids.push(new_id());
        i = i + 1;
    }
    ids
}

/// Turns a proposed diagram into its name, description, nodes and edges,
/// giving every new node and edge a fresh random UUID. Whatever UUIDs come,
/// the result is that of `parse_ai_response_with_ids` for them.
pub fn parse_ai_response(response: &AiDiagramResponse) -> (r: Result<(String, Option<String>, Vec<Node>, Vec<Edge>), DomainError>)
    ensures
        exists|node_ids: Seq<u128>, edge_ids: Seq<u128>|
            node_ids.len() == response@.nodes.len() && edge_ids.len() == response@.edges.len() && all_v4(node_ids)
                && all_v4(edge_ids) && parse_result_view(r) == #[trigger] parsed_response(response@, node_ids, edge_ids),
{
    let node_ids = fresh_ids(response.nodes.len());
    let edge_ids = fresh_ids(response.edges.len());
    let r = parse_ai_response_with_ids(response, &node_ids, &edge_ids);
    assert(parse_result_view(r) == parsed_response(response@, node_ids@, edge_ids@));
    r
}

// ---------------------------------------------------------------------------
// Changes to an existing diagram.

/// The ids a change can name: the temporary ids of the added nodes, then the
/// UUID texts of the existing nodes.
pub open spec fn modify_keys(added: Seq<AiNodeView>, existing: Seq<NodeView>) -> Seq<Seq<char>> {
    temp_ids(added) + existing.map_values(|n: NodeView| uuid_text(n.id))
}

/// The UUIDs those ids stand for.
pub open spec fn modify_vals(node_ids: Seq<u128>, existing: Seq<NodeView>) -> Seq<u128> {
    node_ids + existing.map_values(|n: NodeView| n.id)
}

/// The UUIDs among the texts, in order; texts that are no UUID are skipped.
pub open spec fn parsed_uuids(s: Seq<Seq<char>>) -> Seq<u128>
    decreases s.len(),
{
    if s.len() == 0 {
        Seq::empty()
    } else {
        let rest = parsed_uuids(s.drop_last());
        match spec_parse_uuid(s.last()) {
            Some(u) => rest.push(u),
            None => rest,
        }
    }
}

/// An existing node after an update: relabelled if a label is given, and
/// retyped if both a category and a component are given.
pub open spec fn updated_node(n: NodeView, u: AiNodeUpdateView) -> Result<NodeView, Seq<char>> {
    let relabeled = match u.label {
        Some(l) => NodeView { label: l, ..n },
        None => n,
    };
    match u.category {
        Some(c) => match u.component {
            Some(k) => match node_type_named(c, k) {
                None => Err(node_type_error(c, k)),
                Some(t) => Ok(NodeView { node_type: t, ..relabeled }),
            },
            None => Ok(relabeled),
        },
        None => Ok(relabeled),
    }
}

/// The first `k` updates applied to the existing nodes they name (updates of
/// unknown nodes are skipped), or the message of the first error.
pub open spec fn update_steps(us: Seq<AiNodeUpdateView>, existing: Seq<NodeView>, k: nat) -> Result<Seq<NodeView>, Seq<char>>
    decreases k,
{
    if k == 0 {
        Ok(Seq::empty())
    } else {
        match update_steps(us, existing, (k - 1) as nat) {
            Err(e) => Err(e),
            Ok(done) => {
                let u = us[k - 1];
                match spec_parse_uuid(u.id) {
                    None => Err("Invalid UUID in update: "@ + u.id),
                    Some(id) => match first_with_id(existing, id, existing.len() as int) {
                        None => Ok(done),
                        Some(j) => match updated_node(existing[j], u) {
                            Err(e) => Err(e),
                            Ok(n) => Ok(done.push(n)),
                        },
                    },
                }
            },
        }
    }
}

/// What a proposed change of `d` becomes when added node `i` takes the UUID
/// `node_ids[i]` and added edge `i` the UUID `edge_ids[i]`: the added nodes,
/// the ids of the nodes to remove, the updated nodes, the added edges and
/// the ids of the edges to remove; or the first error among the added nodes,
/// then the updates, then the added edges.
pub open spec fn modify_result(r: AiModifyResponseView, d: Seq<NodeView>, node_ids: Seq<u128>, edge_ids: Seq<u128>) -> Result<(Seq<NodeView>, Seq<u128>, Seq<NodeView>, Seq<EdgeView>, Seq<u128>), DomainErrorView> {
    let keys = modify_keys(r.nodes_to_add, d);
    let vals = modify_vals(node_ids, d);
    match parse_nodes(r.nodes_to_add, keys, vals, r.nodes_to_add.len()) {
        Err(m) => Err(DomainErrorView::AiError(m)),
        Ok(added) => match update_steps(r.nodes_to_update, d, r.nodes_to_update.len()) {
            Err(m) => Err(DomainErrorView::AiError(m)),
            Ok(updated) => match parse_edges(r.edges_to_add, keys, vals, edge_ids, r.edges_to_add.len()) {
                Err(m) => Err(DomainErrorView::AiError(m)),
                Ok(es) => Ok((added, parsed_uuids(r.nodes_to_remove), updated, es, parsed_uuids(r.edges_to_remove))),
            },
        },
    }
}

pub open spec fn modify_result_view(r: Result<(Vec<Node>, Vec<u128>, Vec<Node>, Vec<Edge>, Vec<u128>), DomainError>) -> Result<(Seq<NodeView>, Seq<u128>, Seq<NodeView>, Seq<EdgeView>, Seq<u128>), DomainErrorView> {
    match r {
        Ok((a, rn, u, ae, re)) => Ok((nodes_view(a@), rn@, nodes_view(u@), edges_view(ae@), re@)),
        Err(e) => Err(e@),
    }
}

fn modify_id_map(added: &Vec<AiNode>, existing: &Vec<Node>, node_ids: &Vec<u128>) -> (r: (Vec<String>, Vec<u128>))
    requires
        node_ids.len() == added.len(),
    ensures
        strings_view(r.0@) == modify_keys(ai_nodes_view(added@), nodes_view(existing@)),
        r.1@ == modify_vals(node_ids@, nodes_view(existing@)),
{
    let mut keys = temp_id_keys(added);
    let mut vals: Vec<u128> = Vec::new();
    let mut i: usize = 0;
    while i < node_ids.len()
        invariant
            i <= node_ids.len(),
            vals@ == node_ids@.subrange(0, i as int),
        decreases node_ids.len() - i,
    {
        vals.push(node_ids[i]);
        i = i + 1;
    }
    let ghost k0 = keys@;
    let mut j: usize = 0;
    while j < existing.len()
        invariant
            j <= existing.len(),
            i == node_ids.len(),
            keys@.len() == k0.len() + j,
            vals@.len() == node_ids@.len() + j,
            strings_view(k0) == temp_ids(ai_nodes_view(added@)),
            forall|k: int| 0 <= k < k0.len() ==> keys@[k] == k0[k],
            forall|k: int| 0 <= k < node_ids.len() ==> vals@[k] == node_ids@[k],
            forall|k: int| 0 <= k < j ==> keys@[k0.len() + k]@ == uuid_text(existing@[k].id),
            forall|k: int| 0 <= k < j ==> vals@[node_ids.len() + k] == existing@[k].id,
        decreases existing.len() - j,
    {
        keys.push(uuid_string(existing[j].id));
        vals.push(existing[j].id);
        j = j + 1;
    }
    assert(strings_view(keys@) =~= modify_keys(ai_nodes_view(added@), nodes_view(existing@)));
    assert(vals@ =~= modify_vals(node_ids@, nodes_view(existing@)));
    (keys, vals)
}

fn parsed_uuids_exec(strs: &Vec<String>) -> (r: Vec<u128>)
    ensures
        r@ == parsed_uuids(strings_view(strs@)),
{
    let ghost sv = strings_view(strs@);
    let mut out: Vec<u128> = Vec::new();
    let mut i: usize = 0;
    assert(sv.subrange(0, 0) =~= Seq::<Seq<char>>::empty());
    while i < strs.len()
        invariant
            i <= strs.len(),
            sv == strings_view(strs@),
            out@ == parsed_uuids(sv.subrange(0, i as int)),
        decreases strs.len() - i,
    {
        assert(sv.subrange(0, i + 1).drop_last() =~= sv.subrange(0, i as int));
        match parse_uuid(strs[i].as_str()) {
            Some(u) => out.push(u),
            None => {},
        }
        i = i + 1;
    }
    assert(sv.subrange(0, strs.len() as int) =~= sv);
    out
}

proof fn lemma_updates_error_stays(us: Seq<AiNodeUpdateView>, existing: Seq<NodeView>, k: nat, k2: nat)
    requires
        k <= k2,
        update_steps(us, existing, k) is Err,
    ensures
        update_steps(us, existing, k2) == update_steps(us, existing, k),
    decreases k2,
{
    if k2 > k {
        lemma_updates_error_stays(us, existing, k, (k2 - 1) as nat);
    }
}

fn update_node(n: &Node, u: &AiNodeUpdate) -> (r: Result<Node, String>)
    ensures
        updated_node(n@, u@) == match r {
            Ok(x) => Ok(x@),
            Err(m) => Err(m@),
        },
{
    let mut node = n.clone();
    match &u.label {
        Some(l) => {
            node.label = l.clone();
        },
        None => {},
    }
    match &u.category {
        Some(c) => match &u.component {
            Some(k) => match node_type_or_message(c.as_str(), k.as_str()) {
                Err(m) => {
                    return Err(m);
                },
                Ok(t) => {
                    node.node_type = t;
                },
            },
            None => {},
        },
        None => {},
    }
    Ok(node)
}

fn update_steps_exec(us: &Vec<AiNodeUpdate>, existing: &Vec<Node>) -> (r: Result<Vec<Node>, String>)
    ensures
        nodes_result_view(r) == update_steps(ai_updates_view(us@), nodes_view(existing@), us.len() as nat),
{
    let ghost usv = ai_updates_view(us@);
    let ghost ev = nodes_view(existing@);
    let mut out: Vec<Node> = Vec::new();
    let mut i: usize = 0;
    assert(nodes_view(out@) =~= Seq::<NodeView>::empty());
    while i < us.len()
        invariant
            i <= us.len(),
            usv == ai_updates_view(us@),
            ev == nodes_view(existing@),
            update_steps(usv, ev, i as nat) == Ok::<Seq<NodeView>, Seq<char>>(nodes_view(out@)),
        decreases us.len() - i,
    {
        assert(usv[i as int] == us@[i as int]@);
        match parse_uuid(us[i].id.as_str()) {
            None => {
                proof {
                    lemma_updates_error_stays(usv, ev, (i + 1) as nat, us.len() as nat);
                }
                return Err(String::from_str("Invalid UUID in update: ").concat(us[i].id.as_str()));
            },
            Some(id) => match find_node_index(existing, id) {
                None => {},
                Some(j) => {
                    assert(ev[j as int] == existing@[j as int]@);
                    match update_node(&existing[j], &us[i]) {
                        Err(m) => {
                            proof {
                                lemma_updates_error_stays(usv, ev, (i + 1) as nat, us.len() as nat);
                            }
                            return Err(m);
                        },
                        Ok(n) => {
                            let ghost before = out@;
                            out.push(n);
                            assert(nodes_view(out@) =~= nodes_view(before).push(n@));
                        },
                    }
                },
            },
        }
        i = i + 1;
    }
    Ok(out)
}

/// Builds the parts of a proposed change of `existing`, added node `i`
/// taking the UUID `node_ids[i]` and added edge `i` the UUID `edge_ids[i]`.
pub fn apply_modify_response_with_ids(
    response: &AiModifyResponse,
    existing: &Diagram,
    node_ids: &Vec<u128>,
    edge_ids: &Vec<u128>,
) -> (r: Result<(Vec<Node>, Vec<u128>, Vec<Node>, Vec<Edge>, Vec<u128>), DomainError>)
    requires
        node_ids.len() == response.nodes_to_add.len(),
        edge_ids.len() == response.edges_to_add.len(),
    ensures
        modify_result_view(r) == modify_result(response@, existing@.nodes, node_ids@, edge_ids@),
{
    let (keys, vals) = modify_id_map(&response.nodes_to_add, &existing.nodes, node_ids);
    proof {
        assert forall|k: int| 0 <= k < response.nodes_to_add.len() implies lookup_id(strings_view(keys@), vals@, #[trigger] response.nodes_to_add@[k]@.id) is Some by {
            assert(strings_view(keys@)[k] == response.nodes_to_add@[k]@.id);
            lemma_lookup_present(strings_view(keys@), vals@, k);
        }
    }
    let added = match parse_nodes_exec(&response.nodes_to_add, &keys, &vals) {
        Err(m) => {
            return Err(DomainError::AiError(m));
        },
        Ok(v) => v,
    };
    let removed_nodes = parsed_uuids_exec(&response.nodes_to_remove);
    let updated = match update_steps_exec(&response.nodes_to_update, &existing.nodes) {
        Err(m) => {
            return Err(DomainError::AiError(m));
        },
        Ok(v) => v,
    };
    let added_edges = match parse_edges_exec(&response.edges_to_add, &keys, &vals, edge_ids) {
        Err(m) => {
            return Err(DomainError::AiError(m));
        },
        Ok(v) => v,
    };
    let removed_edges = parsed_uuids_exec(&response.edges_to_remove);
    Ok((added, removed_nodes, updated, added_edges, removed_edges))
}

/// Turns a proposed change of `existing` into the added nodes, the ids of
/// removed nodes, the updated nodes, the added edges and the ids of removed
/// edges, giving every added node and edge a fresh random UUID. Whatever
/// UUIDs come, the result is that of `apply_modify_response_with_ids` for them.
pub fn apply_modify_response(response: &AiModifyResponse, existing: &Diagram) -> (r: Result<(Vec<Node>, Vec<u128>, Vec<Node>, Vec<Edge>, Vec<u128>), DomainError>)
    ensures
        exists|node_ids: Seq<u128>, edge_ids: Seq<u128>|
            node_ids.len() == response@.nodes_to_add.len() && edge_ids.len() == response@.edges_to_add.len()
                && all_v4(node_ids) && all_v4(edge_ids) && modify_result_view(r) == #[trigger] modify_result(
                response@,
                existing@.nodes,
                node_ids,
                edge_ids,
            ),
{
    let node_ids = fresh_ids(response.nodes_to_add.len());
    let edge_ids = fresh_ids(response.edges_to_add.len());
    let r = apply_modify_response_with_ids(response, existing, &node_ids, &edge_ids);
    assert(modify_result_view(r) == modify_result(response@, existing@.nodes, node_ids@, edge_ids@));
    r
}

// ---------------------------------------------------------------------------
// Laws of parsing.

proof fn lemma_lookup_found_ignores_vals(keys: Seq<Seq<char>>, v1: Seq<u128>, v2: Seq<u128>, key: Seq<char>)
    ensures
        lookup_id(keys, v1, key) is Some <==> lookup_id(keys, v2, key) is Some,
    decreases keys.len(),
{
    if keys.len() > 0 && keys.last() != key {
        lemma_lookup_found_ignores_vals(keys.drop_last(), v1, v2, key);
    }
}

proof fn lemma_node_step_error_ignores_vals(n: AiNodeView, keys: Seq<Seq<char>>, v1: Seq<u128>, v2: Seq<u128>)
    ensures
        node_step(n, keys, v1) is Err <==> node_step(n, keys, v2) is Err,
        node_step(n, keys, v1) is Err ==> node_step(n, keys, v1) == node_step(n, keys, v2),
{
    match n.parent_id {
        Some(p) => lemma_lookup_found_ignores_vals(keys, v1, v2, p),
        None => {},
    }
}

proof fn lemma_edge_step_error_ignores_ids(e: AiEdgeView, keys: Seq<Seq<char>>, v1: Seq<u128>, v2: Seq<u128>, i1: u128, i2: u128)
    ensures
        edge_step(e, keys, v1, i1) is Err <==> edge_step(e, keys, v2, i2) is Err,
        edge_step(e, keys, v1, i1) is Err ==> edge_step(e, keys, v1, i1) == edge_step(e, keys, v2, i2),
{
    lemma_lookup_found_ignores_vals(keys, v1, v2, e.source_id);
    lemma_lookup_found_ignores_vals(keys, v1, v2, e.target_id);
}

proof fn lemma_parse_nodes_error_ignores_vals(ns: Seq<AiNodeView>, keys: Seq<Seq<char>>, v1: Seq<u128>, v2: Seq<u128>, k: nat)
    requires
        k <= ns.len(),
    ensures
        parse_nodes(ns, keys, v1, k) is Err <==> parse_nodes(ns, keys, v2, k) is Err,
        parse_nodes(ns, keys, v1, k) is Err ==> parse_nodes(ns, keys, v1, k) == parse_nodes(ns, keys, v2, k),
        parse_nodes(ns, keys, v1, k) matches Ok(s) ==> s.len() == k,
    decreases k,
{
    if k > 0 {
        lemma_parse_nodes_error_ignores_vals(ns, keys, v1, v2, (k - 1) as nat);
        lemma_node_step_error_ignores_vals(ns[k - 1], keys, v1, v2);
    }
}

proof fn lemma_parse_edges_error_ignores_ids(es: Seq<AiEdgeView>, keys: Seq<Seq<char>>, v1: Seq<u128>, v2: Seq<u128>, i1: Seq<u128>, i2: Seq<u128>, k: nat)
    requires
        k <= es.len(),
    ensures
        parse_edges(es, keys, v1, i1, k) is Err <==> parse_edges(es, keys, v2, i2, k) is Err,
        parse_edges(es, keys, v1, i1, k) is Err ==> parse_edges(es, keys, v1, i1, k) == parse_edges(es, keys, v2, i2, k),
        parse_edges(es, keys, v1, i1, k) matches Ok(s) ==> s.len() == k,
    decreases k,
{
    if k > 0 {
        lemma_parse_edges_error_ignores_ids(es, keys, v1, v2, i1, i2, (k - 1) as nat);
        lemma_edge_step_error_ignores_ids(es[k - 1], keys, v1, v2, i1[k - 1], i2[k - 1]);
    }
}

/// Whether a proposed diagram is accepted, and with which error it is
/// refused, depends on its text alone and not on the UUIDs drawn for it;
/// when it is accepted, every proposed node and edge appears once.
pub proof fn law_parse_outcome_ignores_ids(r: AiDiagramResponseView, n1: Seq<u128>, e1: Seq<u128>, n2: Seq<u128>, e2: Seq<u128>)
    ensures
        parsed_response(r, n1, e1) is Ok <==> parsed_response(r, n2, e2) is Ok,
        parsed_response(r, n1, e1) is Err ==> parsed_response(r, n1, e1) == parsed_response(r, n2, e2),
        parsed_response(r, n1, e1) matches Ok(t) ==> t.2.len() == r.nodes.len() && t.3.len() == r.edges.len(),
{
    let keys = temp_ids(r.nodes);
    lemma_parse_nodes_error_ignores_vals(r.nodes, keys, n1, n2, r.nodes.len());
    lemma_parse_edges_error_ignores_ids(r.edges, keys, n1, n2, e1, e2, r.edges.len());
}

/// Each node made from a proposal carries the UUID drawn for the last
/// proposal with its temporary id, so proposals that share a temporary id
/// become nodes that share a UUID, and distinct temporary ids with distinct
/// UUIDs drawn become distinct nodes.
pub proof fn law_node_takes_its_drawn_id(ns: Seq<AiNodeView>, vals: Seq<u128>, i: int)
    requires
        0 <= i < ns.len(),
        vals.len() == ns.len(),
        parse_nodes(ns, temp_ids(ns), vals, ns.len()) is Ok,
    ensures
        exists|j: int|
            0 <= j < ns.len() && ns[j].id == ns[i].id && (forall|k: int| j < k < ns.len() ==> ns[k].id != ns[i].id)
                && #[trigger] parse_nodes(ns, temp_ids(ns), vals, ns.len())->Ok_0[i].id == vals[j],
{
    let keys = temp_ids(ns);
    assert(keys[i] == ns[i].id);
    lemma_lookup_present(keys, vals, i);
    lemma_parse_nodes_entry(ns, keys, vals, ns.len(), i);
    lemma_lookup_last(keys, vals, ns[i].id);
    let j = choose|j: int|
        0 <= j < keys.len() && keys[j] == ns[i].id && (forall|k: int| j < k < keys.len() ==> keys[k] != ns[i].id)
            && lookup_id(keys, vals, ns[i].id) == Some(vals[j]);
    assert(keys[j] == ns[j].id);
    assert forall|k: int| j < k < ns.len() implies ns[k].id != ns[i].id by {
        assert(keys[k] == ns[k].id);
    }
    assert(parse_nodes(ns, keys, vals, ns.len())->Ok_0[i].id == vals[j]);
}

proof fn lemma_parse_nodes_entry(ns: Seq<AiNodeView>, keys: Seq<Seq<char>>, vals: Seq<u128>, k: nat, i: int)
    requires
        0 <= i < k <= ns.len(),
        parse_nodes(ns, keys, vals, k) is Ok,
    ensures
        parse_nodes(ns, keys, vals, k)->Ok_0.len() == k,
        parse_nodes(ns, keys, vals, k)->Ok_0[i].id == lookup_id(keys, vals, ns[i].id).unwrap(),
    decreases k,
{
    lemma_parse_nodes_error_ignores_vals(ns, keys, vals, vals, k);
    if i < k - 1 {
        lemma_parse_nodes_entry(ns, keys, vals, (k - 1) as nat, i);
    } else {
        lemma_parse_nodes_error_ignores_vals(ns, keys, vals, vals, (k - 1) as nat);
    }
}

proof fn lemma_lookup_last(keys: Seq<Seq<char>>, vals: Seq<u128>, key: Seq<char>)
    requires
        lookup_id(keys, vals, key) is Some,
    ensures
        exists|j: int|
            0 <= j < keys.len() && keys[j] == key && (forall|k: int| j < k < keys.len() ==> keys[k] != key)
                && lookup_id(keys, vals, key) == Some(vals[j]),
    decreases keys.len(),
{
    if keys.last() != key {
        lemma_lookup_last(keys.drop_last(), vals, key);
        let j = choose|j: int|
            0 <= j < keys.drop_last().len() && keys.drop_last()[j] == key && (forall|k: int|
                j < k < keys.drop_last().len() ==> keys.drop_last()[k] != key)
                && lookup_id(keys.drop_last(), vals, key) == Some(vals[j]);
        assert(keys[j] == key);
        assert forall|k: int| j < k < keys.len() implies keys[k] != key by {
            if k < keys.len() - 1 {
                assert(keys.drop_last()[k] == keys[k]);
            }
        }
    } else {
        let j = keys.len() - 1;
        assert(keys[j] == key);
    }
}

} // verus!

//! The edits a user makes to a stored diagram: adding, patching and deleting
//! nodes and edges, and renaming or replacing the diagram's parts.
use vstd::prelude::*;
use vstd::string::*;
use crate::entities::diagram::{Diagram, DiagramView, Viewport};
use crate::entities::edge::{edges_view, Edge, EdgeProperties, EdgePropertiesView, EdgeType, EdgeView};
use crate::entities::errors::{DomainError, DomainErrorView};
use crate::entities::node::{
    find_node_index, first_with_id, nodes_view, opt_str_view, Node, NodeProperties,
    NodePropertiesView, NodeType, NodeView, Position, Size,
};
use crate::ids::{uuid_string, uuid_text};
use crate::text::{blank, is_blank};

verus! {

/// Some node has id `id`.
pub open spec fn has_node(nodes: Seq<NodeView>, id: u128) -> bool {
    first_with_id(nodes, id, nodes.len() as int) is Some
}

/// The first of the first `k` edges with id `id`.
pub open spec fn first_edge_with_id(edges: Seq<EdgeView>, id: u128, k: int) -> Option<int>
    decreases k,
{
    if k <= 0 {
        None
    } else {
        match first_edge_with_id(edges, id, k - 1) {
            Some(j) => Some(j),
            None => if edges[k - 1].id == id {
                Some(k - 1)
            } else {
                None
            },
        }
    }
}

/// Some edge has id `id`.
pub open spec fn has_edge(edges: Seq<EdgeView>, id: u128) -> bool {
    first_edge_with_id(edges, id, edges.len() as int) is Some
}

/// The first `k` nodes, less those with id `id`.
pub open spec fn nodes_without(nodes: Seq<NodeView>, id: u128, k: nat) -> Seq<NodeView>
    decreases k,
{
    if k == 0 {
        Seq::empty()
    } else {
        let rest = nodes_without(nodes, id, (k - 1) as nat);
        if nodes[k - 1].id == id {
            rest
        } else {
            rest.push(nodes[k - 1])
        }
    }
}

/// The first `k` edges, less those that start or end at node `id`.
pub open spec fn edges_off_node(edges: Seq<EdgeView>, id: u128, k: nat) -> Seq<EdgeView>
    decreases k,
{
    if k == 0 {
        Seq::empty()
    } else {
        let rest = edges_off_node(edges, id, (k - 1) as nat);
        if edges[k - 1].source_id == id || edges[k - 1].target_id == id {
            rest
        } else {
            rest.push(edges[k - 1])
        }
    }
}

/// The first `k` edges, less those with id `id`.
pub open spec fn edges_without(edges: Seq<EdgeView>, id: u128, k: nat) -> Seq<EdgeView>
    decreases k,
{
    if k == 0 {
        Seq::empty()
    } else {
        let rest = edges_without(edges, id, (k - 1) as nat);
        if edges[k - 1].id == id {
            rest
        } else {
            rest.push(edges[k - 1])
        }
    }
}

fn edge_index(edges: &Vec<Edge>, id: u128) -> (r: Option<usize>)
    ensures
        match r {
            Some(i) => i < edges.len() && edges@[i as int].id == id && first_edge_with_id(
                edges_view(edges@),
                id,
                edges@.len() as int,
            ) == Some(i as int),
            None => first_edge_with_id(edges_view(edges@), id, edges@.len() as int) is None,
        },
{
    let ghost ev = edges_view(edges@);
    let mut i: usize = 0;
    while i < edges.len()
        invariant
            i <= edges.len(),
            ev == edges_view(edges@),
            first_edge_with_id(ev, id, i as int) is None,
            forall|j: int| 0 <= j < i ==> ev[j].id != id,
        decreases edges.len() - i,
    {
        assert(ev[i as int].id == edges@[i as int].id);
        if edges[i].id == id {
            proof {
                lemma_first_edge_found(ev, id, ev.len() as int, i as int);
            }
            return Some(i);
        }
        i = i + 1;
    }
    None
}

proof fn lemma_first_edge_found(edges: Seq<EdgeView>, id: u128, k: int, i: int)
    requires
        0 <= i < k <= edges.len(),
        edges[i].id == id,
        first_edge_with_id(edges, id, i) is None,
    ensures
        first_edge_with_id(edges, id, k) == Some(i),
    decreases k,
{
    if k - 1 > i {
        lemma_first_edge_found(edges, id, k - 1, i);
    }
}

/// `pre + id + post`, the id in its hyphenated form.
fn id_message(pre: &str, id: u128, post: &str) -> (s: String)
    ensures
        s@ == pre@ + uuid_text(id) + post@,
{
    let t = uuid_string(id);
    String::from_str(pre).concat(t.as_str()).concat(post)
}

/// Adds a node to a diagram, unless a node with its id is already there.
pub fn add_node(diagram: &mut Diagram, node: Node) -> (r: Result<Node, DomainError>)
    ensures
        match r {
            Ok(n) => !has_node(old(diagram)@.nodes, node@.id) && n@ == node@ && final(diagram)@
                == (DiagramView { nodes: old(diagram)@.nodes.push(node@), ..old(diagram)@ }),
            Err(e) => has_node(old(diagram)@.nodes, node@.id) && final(diagram)@ == old(diagram)@
                && e@ == DomainErrorView::Validation(
                "Node with id "@ + uuid_text(node@.id) + " already exists"@,
            ),
        },
{
    if find_node_index(&diagram.nodes, node.id).is_some() {
        return Err(DomainError::Validation(id_message("Node with id ", node.id, " already exists")));
    }
    let added = node.clone();
    let ghost before = diagram.nodes@;
    diagram.nodes.push(node);
    assert(nodes_view(diagram.nodes@) =~= nodes_view(before).push(added@));
    Ok(added)
}

/// Adds an edge to a diagram, unless its id is taken or an endpoint is
/// missing.
pub fn add_edge(diagram: &mut Diagram, edge: Edge) -> (r: Result<Edge, DomainError>)
    ensures
        match r {
            Ok(x) => !has_edge(old(diagram)@.edges, edge@.id) && has_node(
                old(diagram)@.nodes,
                edge@.source_id,
            ) && has_node(old(diagram)@.nodes, edge@.target_id) && x@ == edge@ && final(diagram)@
                == (DiagramView { edges: old(diagram)@.edges.push(edge@), ..old(diagram)@ }),
            Err(e) => final(diagram)@ == old(diagram)@ && if has_edge(
                old(diagram)@.edges,
                edge@.id,
            ) {
                e@ == DomainErrorView::Validation(
                    "Edge with id "@ + uuid_text(edge@.id) + " already exists"@,
                )
            } else if !has_node(old(diagram)@.nodes, edge@.source_id) {
                e@ == DomainErrorView::Validation(
                    "Source node "@ + uuid_text(edge@.source_id) + " not found"@,
                )
            } else {
                !has_node(old(diagram)@.nodes, edge@.target_id) && e@ == DomainErrorView::Validation(
                    "Target node "@ + uuid_text(edge@.target_id) + " not found"@,
                )
            },
        },
{
    if edge_index(&diagram.edges, edge.id).is_some() {
        return Err(DomainError::Validation(id_message("Edge with id ", edge.id, " already exists")));
    }
    if find_node_index(&diagram.nodes, edge.source_id).is_none() {
        return Err(DomainError::Validation(id_message("Source node ", edge.source_id, " not found")));
    }
    if find_node_index(&diagram.nodes, edge.target_id).is_none() {
        return Err(DomainError::Validation(id_message("Target node ", edge.target_id, " not found")));
    }
    let added = edge.clone();
    let ghost before = diagram.edges@;
    diagram.edges.push(edge);
    assert(edges_view(diagram.edges@) =~= edges_view(before).push(added@));
    Ok(added)
}

/// Deletes every node with the given id and every edge that starts or ends
/// there; fails if there is no such node.
pub fn delete_node(diagram: &mut Diagram, node_id: u128) -> (r: Result<(), DomainError>)
    ensures
        match r {
            Ok(()) => has_node(old(diagram)@.nodes, node_id) && final(diagram)@ == (DiagramView {
                nodes: nodes_without(old(diagram)@.nodes, node_id, old(diagram)@.nodes.len()),
                edges: edges_off_node(old(diagram)@.edges, node_id, old(diagram)@.edges.len()),
                ..old(diagram)@
            }),
            Err(e) => !has_node(old(diagram)@.nodes, node_id) && final(diagram)@ == old(diagram)@
                && e@ == DomainErrorView::NotFound("Node "@ + uuid_text(node_id) + " not found"@),
        },
{
    if find_node_index(&diagram.nodes, node_id).is_none() {
        return Err(DomainError::NotFound(id_message("Node ", node_id, " not found")));
    }
    let ghost dn = diagram@.nodes;
    let ghost de = diagram@.edges;
    let mut nodes: Vec<Node> = Vec::new();
    let mut i: usize = 0;
    assert(nodes_view(nodes@) =~= Seq::<NodeView>::empty());
    while i < diagram.nodes.len()
        invariant
            i <= diagram.nodes.len(),
            dn == nodes_view(diagram.nodes@),
            nodes_view(nodes@) == nodes_without(dn, node_id, i as nat),
        decreases diagram.nodes.len() - i,
    {
        assert(dn[i as int] == diagram.nodes@[i as int]@);
        if diagram.nodes[i].id != node_id {
            let ghost before = nodes@;
            nodes.push(diagram.nodes[i].clone());
            assert(nodes_view(nodes@) =~= nodes_view(before).push(dn[i as int]));
        }
        i = i + 1;
    }
    let mut edges: Vec<Edge> = Vec::new();
    let mut k: usize = 0;
    assert(edges_view(edges@) =~= Seq::<EdgeView>::empty());
    while k < diagram.edges.len()
        invariant
            k <= diagram.edges.len(),
            de == edges_view(diagram.edges@),
            edges_view(edges@) == edges_off_node(de, node_id, k as nat),
        decreases diagram.edges.len() - k,
    {
        assert(de[k as int] == diagram.edges@[k as int]@);
        if diagram.edges[k].source_id != node_id && diagram.edges[k].target_id != node_id {
            let ghost before = edges@;
            edges.push(diagram.edges[k].clone());
            assert(edges_view(edges@) =~= edges_view(before).push(de[k as int]));
        }
        k = k + 1;
    }
    diagram.nodes = nodes;
    diagram.edges = edges;
    Ok(())
}

/// Deletes every edge with the given id; fails if there is none.
pub fn delete_edge(diagram: &mut Diagram, edge_id: u128) -> (r: Result<(), DomainError>)
    ensures
        match r {
            Ok(()) => has_edge(old(diagram)@.edges, edge_id) && final(diagram)@ == (DiagramView {
                edges: edges_without(old(diagram)@.edges, edge_id, old(diagram)@.edges.len()),
                ..old(diagram)@
            }),
            Err(e) => !has_edge(old(diagram)@.edges, edge_id) && final(diagram)@ == old(diagram)@
                && e@ == DomainErrorView::NotFound("Edge "@ + uuid_text(edge_id) + " not found"@),
        },
{
    if edge_index(&diagram.edges, edge_id).is_none() {
        return Err(DomainError::NotFound(id_message("Edge ", edge_id, " not found")));
    }
    let ghost de = diagram@.edges;
    let mut edges: Vec<Edge> = Vec::new();
    let mut k: usize = 0;
    assert(edges_view(edges@) =~= Seq::<EdgeView>::empty());
    while k < diagram.edges.len()
        invariant
            k <= diagram.edges.len(),
            de == edges_view(diagram.edges@),
            edges_view(edges@) == edges_without(de, edge_id, k as nat),
        decreases diagram.edges.len() - k,
    {
        assert(de[k as int] == diagram.edges@[k as int]@);
        if diagram.edges[k].id != edge_id {
            let ghost before = edges@;
            edges.push(diagram.edges[k].clone());
            assert(edges_view(edges@) =~= edges_view(before).push(de[k as int]));
        }
        k = k + 1;
    }
    diagram.edges = edges;
    Ok(())
}

/// The fields of a node to replace; `parent_id: Some(None)` clears the parent.
pub struct PatchNodeInput {
    pub label: Option<String>,
    pub node_type: Option<NodeType>,
    pub position: Option<Position>,
    pub size: Option<Size>,
    pub properties: Option<NodeProperties>,
    pub parent_id: Option<Option<u128>>,
}

pub struct PatchNodeInputView {
    pub label: Option<Seq<char>>,
    pub node_type: Option<NodeType>,
    pub position: Option<Position>,
    pub size: Option<Size>,
    pub properties: Option<NodePropertiesView>,
    pub parent_id: Option<Option<u128>>,
}

impl View for PatchNodeInput {
    type V = PatchNodeInputView;

    open spec fn view(&self) -> PatchNodeInputView {
        PatchNodeInputView {
            label: opt_str_view(self.label),
            node_type: self.node_type,
            position: self.position,
            size: self.size,
            properties: match self.properties {
                Some(p) => Some(p@),
                None => None,
            },
            parent_id: self.parent_id,
        }
    }
}

/// A node with the given fields replaced.
pub open spec fn patched_node(n: NodeView, p: PatchNodeInputView) -> NodeView {
    NodeView {
        label: match p.label {
            Some(l) => l,
            None => n.label,
        },
        node_type: match p.node_type {
            Some(t) => t,
            None => n.node_type,
        },
        position: match p.position {
            Some(x) => x,
            None => n.position,
        },
        size: match p.size {
            Some(x) => x,
            None => n.size,
        },
        properties: match p.properties {
            Some(x) => x,
            None => n.properties,
        },
        parent_id: match p.parent_id {
            Some(x) => x,
            None => n.parent_id,
        },
        ..n
    }
}

/// Replaces the given fields of the first node with id `node_id` and
/// returns it; fails if there is no such node.
pub fn patch_node(diagram: &mut Diagram, node_id: u128, input: PatchNodeInput) -> (r: Result<Node, DomainError>)
    ensures
        match first_with_id(old(diagram)@.nodes, node_id, old(diagram)@.nodes.len() as int) {
            Some(j) => r matches Ok(n) && n@ == patched_node(old(diagram)@.nodes[j], input@)
                && final(diagram)@ == (DiagramView {
                nodes: old(diagram)@.nodes.update(j, n@),
                ..old(diagram)@
            }),
            None => r matches Err(e) && final(diagram)@ == old(diagram)@ && e@
                == DomainErrorView::NotFound("Node "@ + uuid_text(node_id) + " not found"@),
        },
{
    let j = match find_node_index(&diagram.nodes, node_id) {
        None => {
            return Err(DomainError::NotFound(id_message("Node ", node_id, " not found")));
        },
        Some(j) => j,
    };
    let mut node = diagram.nodes[j].clone();
    let ghost input_view = input@;
    match input.label {
        Some(l) => {
            node.label = l;
        },
        None => {},
    }
    match input.node_type {
        Some(t) => {
            node.node_type = t;
        },
        None => {},
    }
    match input.position {
        Some(p) => {
            node.position = p;
        },
        None => {},
    }
    match input.size {
        Some(s) => {
            node.size = s;
        },
        None => {},
    }
    match input.properties {
        Some(p) => {
            node.properties = p;
        },
        None => {},
    }
    match input.parent_id {
        Some(p) => {
            node.parent_id = p;
        },
        None => {},
    }
    let patched = node.clone();
    let ghost before = diagram.nodes@;
    diagram.nodes.set(j, node);
    assert(nodes_view(diagram.nodes@) =~= nodes_view(before).update(j as int, patched@));
    Ok(patched)
}

/// The fields of an edge to replace; `label: Some(None)` clears the label.
pub struct PatchEdgeInput {
    pub edge_type: Option<EdgeType>,
    pub label: Option<Option<String>>,
    pub properties: Option<EdgeProperties>,
}

pub struct PatchEdgeInputView {
    pub edge_type: Option<EdgeType>,
    pub label: Option<Option<Seq<char>>>,
    pub properties: Option<EdgePropertiesView>,
}

impl View for PatchEdgeInput {
    type V = PatchEdgeInputView;

    open spec fn view(&self) -> PatchEdgeInputView {
        PatchEdgeInputView {
            edge_type: self.edge_type,
            label: match self.label {
                Some(l) => Some(opt_str_view(l)),
                None => None,
            },
            properties: match self.properties {
                Some(p) => Some(p@),
                None => None,
            },
        }
    }
}

/// An edge with the given fields replaced.
pub open spec fn patched_edge(e: EdgeView, p: PatchEdgeInputView) -> EdgeView {
    EdgeView {
        edge_type: match p.edge_type {
            Some(t) => t,
            None => e.edge_type,
        },
        label: match p.label {
            Some(l) => l,
            None => e.label,
        },
        properties: match p.properties {
            Some(x) => x,
            None => e.properties,
        },
        ..e
    }
}

/// Replaces the given fields of the first edge with id `edge_id` and
/// returns it; fails if there is no such edge.
pub fn patch_edge(diagram: &mut Diagram, edge_id: u128, input: PatchEdgeInput) -> (r: Result<Edge, DomainError>)
    ensures
        match first_edge_with_id(old(diagram)@.edges, edge_id, old(diagram)@.edges.len() as int) {
            Some(j) => r matches Ok(x) && x@ == patched_edge(old(diagram)@.edges[j], input@)
                && final(diagram)@ == (DiagramView {
                edges: old(diagram)@.edges.update(j, x@),
                ..old(diagram)@
            }),
            None => r matches Err(e) && final(diagram)@ == old(diagram)@ && e@
                == DomainErrorView::NotFound("Edge "@ + uuid_text(edge_id) + " not found"@),
        },
{
    let j = match edge_index(&diagram.edges, edge_id) {
        None => {
            return Err(DomainError::NotFound(id_message("Edge ", edge_id, " not found")));
        },
        Some(j) => j,
    };
    let mut edge = diagram.edges[j].clone();
    match input.edge_type {
        Some(t) => {
            edge.edge_type = t;
        },
        None => {},
    }
    match input.label {
        Some(l) => {
            edge.label = l;
        },
        None => {},
    }
    match input.properties {
        Some(p) => {
            edge.properties = p;
        },
        None => {},
    }
    let patched = edge.clone();
    let ghost before = diagram.edges@;
    diagram.edges.set(j, edge);
    assert(edges_view(diagram.edges@) =~= edges_view(before).update(j as int, patched@));
    Ok(patched)
}

/// The parts of a diagram to replace.
pub struct UpdateDiagramInput {
    pub name: Option<String>,
    pub description: Option<String>,
    pub nodes: Option<Vec<Node>>,
    pub edges: Option<Vec<Edge>>,
    pub viewport: Option<Viewport>,
}

pub struct UpdateDiagramInputView {
    pub name: Option<Seq<char>>,
    pub description: Option<Seq<char>>,
    pub nodes: Option<Seq<NodeView>>,
    pub edges: Option<Seq<EdgeView>>,
    pub viewport: Option<Viewport>,
}

impl View for UpdateDiagramInput {
    type V = UpdateDiagramInputView;

    open spec fn view(&self) -> UpdateDiagramInputView {
        UpdateDiagramInputView {
            name: opt_str_view(self.name),
            description: opt_str_view(self.description),
            nodes: match self.nodes {
                Some(v) => Some(nodes_view(v@)),
                None => None,
            },
            edges: match self.edges {
                Some(v) => Some(edges_view(v@)),
                None => None,
            },
            viewport: self.viewport,
        }
    }
}

/// A diagram with the given parts replaced.
pub open spec fn updated_diagram(d: DiagramView, u: UpdateDiagramInputView) -> DiagramView {
    DiagramView {
        name: match u.name {
            Some(n) => n,
            None => d.name,
        },
        description: match u.description {
            Some(x) => Some(x),
            None => d.description,
        },
        nodes: match u.nodes {
            Some(x) => x,
            None => d.nodes,
        },
        edges: match u.edges {
            Some(x) => x,
            None => d.edges,
        },
        viewport: match u.viewport {
            Some(x) => x,
            None => d.viewport,
        },
        ..d
    }
}

/// The update gives a new name, and it is blank.
pub open spec fn blank_new_name(u: UpdateDiagramInputView) -> bool {
    match u.name {
        Some(n) => is_blank(n),
        None => false,
    }
}

/// A diagram name must not be blank.
pub fn check_diagram_name(name: &str) -> (r: Result<(), DomainError>)
    ensures
        r is Ok <==> !is_blank(name@),
        r matches Err(e) ==> e@ == DomainErrorView::Validation("Diagram name cannot be empty"@),
{
    if blank(name) {
        Err(DomainError::Validation(String::from_str("Diagram name cannot be empty")))
    } else {
        Ok(())
    }
}

/// Replaces the given parts of a diagram; a blank new name is refused and
/// leaves the diagram as it was.
pub fn update_diagram(diagram: &mut Diagram, input: UpdateDiagramInput) -> (r: Result<(), DomainError>)
    ensures
        blank_new_name(input@) ==> (r matches Err(e) && final(diagram)@ == old(diagram)@ && e@
            == DomainErrorView::Validation("Diagram name cannot be empty"@)),
        !blank_new_name(input@) ==> (r is Ok && final(diagram)@ == updated_diagram(old(diagram)@, input@)),
{
    let ghost u = input@;
    match &input.name {
        Some(n) => {
            if blank(n.as_str()) {
                return Err(DomainError::Validation(String::from_str("Diagram name cannot be empty")));
            }
        },
        None => {},
    }
    match input.name {
        Some(n) => {
            diagram.name = n;
        },
        None => {},
    }
    match input.description {
        Some(d) => {
            diagram.description = Some(d);
        },
        None => {},
    }
    match input.nodes {
        Some(v) => {
            diagram.nodes = v;
        },
        None => {},
    }
    match input.edges {
        Some(v) => {
            diagram.edges = v;
        },
        None => {},
    }
    match input.viewport {
        Some(v) => {
            diagram.viewport = v;
        },
        None => {},
    }
    Ok(())
}

// ---------------------------------------------------------------------------
// Laws of the edits.

proof fn lemma_absent_node(nodes: Seq<NodeView>, id: u128, k: int)
    requires
        0 <= k <= nodes.len(),
        first_with_id(nodes, id, k) is None,
    ensures
        forall|j: int| 0 <= j < k ==> nodes[j].id != id,
    decreases k,
{
    if k > 0 {
        lemma_absent_node(nodes, id, k - 1);
    }
}

proof fn lemma_absent_edge(edges: Seq<EdgeView>, id: u128, k: int)
    requires
        0 <= k <= edges.len(),
        first_edge_with_id(edges, id, k) is None,
    ensures
        forall|j: int| 0 <= j < k ==> edges[j].id != id,
    decreases k,
{
    if k > 0 {
        lemma_absent_edge(edges, id, k - 1);
    }
}

proof fn lemma_nodes_without_untouched(nodes: Seq<NodeView>, id: u128, k: nat)
    requires
        k <= nodes.len(),
        forall|j: int| 0 <= j < k ==> nodes[j].id != id,
    ensures
        nodes_without(nodes, id, k) == nodes.subrange(0, k as int),
    decreases k,
{
    if k > 0 {
        lemma_nodes_without_untouched(nodes, id, (k - 1) as nat);
        assert(nodes.subrange(0, k as int) =~= nodes.subrange(0, k - 1).push(nodes[k - 1]));
    } else {
        assert(nodes.subrange(0, 0) =~= Seq::<NodeView>::empty());
    }
}

proof fn lemma_nodes_without_prefix(nodes: Seq<NodeView>, x: NodeView, id: u128, k: nat)
    requires
        k <= nodes.len(),
    ensures
        nodes_without(nodes.push(x), id, k) == nodes_without(nodes, id, k),
    decreases k,
{
    if k > 0 {
        lemma_nodes_without_prefix(nodes, x, id, (k - 1) as nat);
        assert(nodes.push(x)[k - 1] == nodes[k - 1]);
    }
}

proof fn lemma_edges_off_untouched(edges: Seq<EdgeView>, id: u128, k: nat)
    requires
        k <= edges.len(),
        forall|j: int| 0 <= j < k ==> edges[j].source_id != id && edges[j].target_id != id,
    ensures
        edges_off_node(edges, id, k) == edges.subrange(0, k as int),
    decreases k,
{
    if k > 0 {
        lemma_edges_off_untouched(edges, id, (k - 1) as nat);
        assert(edges.subrange(0, k as int) =~= edges.subrange(0, k - 1).push(edges[k - 1]));
    } else {
        assert(edges.subrange(0, 0) =~= Seq::<EdgeView>::empty());
    }
}

proof fn lemma_edges_without_untouched(edges: Seq<EdgeView>, id: u128, k: nat)
    requires
        k <= edges.len(),
        forall|j: int| 0 <= j < k ==> edges[j].id != id,
    ensures
        edges_without(edges, id, k) == edges.subrange(0, k as int),
    decreases k,
{
    if k > 0 {
        lemma_edges_without_untouched(edges, id, (k - 1) as nat);
        assert(edges.subrange(0, k as int) =~= edges.subrange(0, k - 1).push(edges[k - 1]));
    } else {
        assert(edges.subrange(0, 0) =~= Seq::<EdgeView>::empty());
    }
}

proof fn lemma_edges_without_prefix(edges: Seq<EdgeView>, x: EdgeView, id: u128, k: nat)
    requires
        k <= edges.len(),
    ensures
        edges_without(edges.push(x), id, k) == edges_without(edges, id, k),
    decreases k,
{
    if k > 0 {
        lemma_edges_without_prefix(edges, x, id, (k - 1) as nat);
        assert(edges.push(x)[k - 1] == edges[k - 1]);
    }
}

/// Deleting a node that was just added gives the nodes back as they were,
/// and the edges too when none of them touched the new node's id.
pub proof fn law_delete_node_undoes_add_node(d: DiagramView, n: NodeView)
    requires
        !has_node(d.nodes, n.id),
    ensures
        nodes_without(d.nodes.push(n), n.id, d.nodes.len() + 1) == d.nodes,
        (forall|k: int| 0 <= k < d.edges.len() ==> d.edges[k].source_id != n.id && d.edges[k].target_id != n.id)
            ==> edges_off_node(d.edges, n.id, d.edges.len()) == d.edges,
{
    lemma_absent_node(d.nodes, n.id, d.nodes.len() as int);
    lemma_nodes_without_prefix(d.nodes, n, n.id, d.nodes.len());
    lemma_nodes_without_untouched(d.nodes, n.id, d.nodes.len());
    assert(d.nodes.subrange(0, d.nodes.len() as int) =~= d.nodes);
    if forall|k: int| 0 <= k < d.edges.len() ==> d.edges[k].source_id != n.id && d.edges[k].target_id != n.id {
        lemma_edges_off_untouched(d.edges, n.id, d.edges.len());
        assert(d.edges.subrange(0, d.edges.len() as int) =~= d.edges);
    }
}

/// Deleting an edge that was just added gives the edges back as they were.
pub proof fn law_delete_edge_undoes_add_edge(d: DiagramView, e: EdgeView)
    requires
        !has_edge(d.edges, e.id),
    ensures
        edges_without(d.edges.push(e), e.id, d.edges.len() + 1) == d.edges,
{
    lemma_absent_edge(d.edges, e.id, d.edges.len() as int);
    lemma_edges_without_prefix(d.edges, e, e.id, d.edges.len());
    lemma_edges_without_untouched(d.edges, e.id, d.edges.len());
    assert(d.edges.subrange(0, d.edges.len() as int) =~= d.edges);
}

proof fn lemma_nodes_without_drops(nodes: Seq<NodeView>, id: u128, k: nat)
    requires
        k <= nodes.len(),
    ensures
        forall|j: int| 0 <= j < nodes_without(nodes, id, k).len() ==> #[trigger] nodes_without(nodes, id, k)[j].id != id,
    decreases k,
{
    if k > 0 {
        lemma_nodes_without_drops(nodes, id, (k - 1) as nat);
    }
}

proof fn lemma_edges_off_drops(edges: Seq<EdgeView>, id: u128, k: nat)
    requires
        k <= edges.len(),
    ensures
        forall|j: int| 0 <= j < edges_off_node(edges, id, k).len() ==> #[trigger] edges_off_node(edges, id, k)[j].source_id != id
            && edges_off_node(edges, id, k)[j].target_id != id,
    decreases k,
{
    if k > 0 {
        lemma_edges_off_drops(edges, id, (k - 1) as nat);
    }
}

/// After a node is deleted no node has its id and no edge starts or ends
/// at it.
pub proof fn law_deleted_node_is_gone(d: DiagramView, id: u128)
    ensures
        forall|j: int| 0 <= j < nodes_without(d.nodes, id, d.nodes.len()).len()
            ==> #[trigger] nodes_without(d.nodes, id, d.nodes.len())[j].id != id,
        forall|j: int| 0 <= j < edges_off_node(d.edges, id, d.edges.len()).len()
            ==> #[trigger] edges_off_node(d.edges, id, d.edges.len())[j].source_id != id
            && edges_off_node(d.edges, id, d.edges.len())[j].target_id != id,
{
    lemma_nodes_without_drops(d.nodes, id, d.nodes.len());
    lemma_edges_off_drops(d.edges, id, d.edges.len());
}

/// Applying the same patch twice is the same as applying it once.
pub proof fn law_patch_node_idempotent(n: NodeView, p: PatchNodeInputView)
    ensures
        patched_node(patched_node(n, p), p) == patched_node(n, p),
{
}

/// Applying the same edge patch twice is the same as applying it once.
pub proof fn law_patch_edge_idempotent(e: EdgeView, p: PatchEdgeInputView)
    ensures
        patched_edge(patched_edge(e, p), p) == patched_edge(e, p),
{
}

/// A node just added is found by its id, so adding it again is refused.
pub proof fn law_added_node_is_found(d: DiagramView, n: NodeView)
    ensures
        has_node(d.nodes.push(n), n.id),
{
    let s = d.nodes.push(n);
    if first_with_id(s, n.id, d.nodes.len() as int) is None {
        assert(first_with_id(s, n.id, s.len() as int) == Some(d.nodes.len() as int));
    }
}

} // verus!

//! Request bodies of the diagram service.
use vstd::prelude::*;
use crate::entities::diagram::{CloudProvider, Viewport};
use crate::entities::edge::{Edge, EdgeProperties, EdgeType};
use crate::entities::node::{Node, NodeProperties, NodeType, Position, Size};

verus! {

/// Body of a request to create a diagram.
pub struct CreateDiagramRequest {
    pub name: String,
    pub description: Option<String>,
}

/// Body of a request to generate a diagram from a description.
pub struct GenerateDiagramRequest {
    pub prompt: String,
    pub existing_diagram_id: Option<u128>,
}

/// Body of a request to change a diagram by a description, with the nodes
/// the user selected (none when absent from the body).
pub struct ModifyDiagramRequest {
    pub prompt: String,
    pub selected_node_ids: Vec<u128>,
}

/// Body of a request to update a diagram; absent fields stay.
pub struct UpdateDiagramRequest {
    pub name: Option<String>,
    pub description: Option<String>,
    pub nodes: Option<Vec<Node>>,
    pub edges: Option<Vec<Edge>>,
    pub viewport: Option<Viewport>,
}

/// Body of a request to add a node.
pub struct AddNodeRequest {
    pub node: Node,
}

/// Body of a request to patch a node; `parent_id: Some(None)` detaches it.
pub struct PatchNodeRequest {
    pub label: Option<String>,
    pub node_type: Option<NodeType>,
    pub position: Option<Position>,
    pub size: Option<Size>,
    pub properties: Option<NodeProperties>,
    pub parent_id: Option<Option<u128>>,
}

/// Body of a request to add an edge.
pub struct AddEdgeRequest {
    pub edge: Edge,
}

/// Body of a request to fix one validation warning.
pub struct FixDiagramRequest {
    pub warning_id: String,
    pub rule: String,
    pub message: String,
}

/// Body of a request to patch an edge; `label: Some(None)` clears the label.
pub struct PatchEdgeRequest {
    pub edge_type: Option<EdgeType>,
    pub label: Option<Option<String>>,
    pub properties: Option<EdgeProperties>,
}

/// Body of a request to translate a diagram to a provider.
pub struct TranslateRequest {
    pub provider: CloudProvider,
}

} // verus!

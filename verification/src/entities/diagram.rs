use vstd::prelude::*;
use crate::entities::edge::{clone_edges, edges_view, Edge, EdgeView};
use crate::entities::node::{clone_nodes, clone_opt_string, nodes_view, opt_str_view, Node, NodeView};

verus! {

/// An architecture diagram. Timestamps are microseconds since the Unix epoch
/// (UTC).
pub struct Diagram {
    pub id: u128,
    pub name: String,
    pub description: Option<String>,
    pub nodes: Vec<Node>,
    pub edges: Vec<Edge>,
    pub viewport: Viewport,
    pub active_provider: Option<CloudProvider>,
    pub created_at_micros: i64,
    pub updated_at_micros: i64,
}

/// Bit patterns of the `f64` position and zoom of the canvas.
#[derive(Clone, Copy, Debug, PartialEq, Eq, Structural)]
pub struct Viewport {
    pub x_bits: u64,
    pub y_bits: u64,
    pub zoom_bits: u64,
}

#[derive(Clone, Copy, Debug, PartialEq, Eq, Structural)]
pub enum CloudProvider {
    Aws,
    Gcp,
    Azure,
}

/// A summary row of the diagram list.
pub struct DiagramListItem {
    pub id: u128,
    pub name: String,
    pub description: Option<String>,
    pub node_count: i64,
    pub active_provider: Option<CloudProvider>,
    pub updated_at_micros: i64,
}

pub struct DiagramView {
    pub id: u128,
    pub name: Seq<char>,
    pub description: Option<Seq<char>>,
    pub nodes: Seq<NodeView>,
    pub edges: Seq<EdgeView>,
    pub viewport: Viewport,
    pub active_provider: Option<CloudProvider>,
    pub created_at_micros: i64,
    pub updated_at_micros: i64,
}

impl View for Diagram {
    type V = DiagramView;

    open spec fn view(&self) -> DiagramView {
        DiagramView {
            id: self.id,
            name: self.name@,
            description: opt_str_view(self.description),
            nodes: nodes_view(self.nodes@),
            edges: edges_view(self.edges@),
            viewport: self.viewport,
            active_provider: self.active_provider,
            created_at_micros: self.created_at_micros,
            updated_at_micros: self.updated_at_micros,
        }
    }
}

impl Clone for Diagram {
    fn clone(&self) -> (r: Self)
        ensures
            r@ == self@,
    {
        Diagram {
            id: self.id,
            name: self.name.clone(),
            description: clone_opt_string(&self.description),
            nodes: clone_nodes(&self.nodes),
            edges: clone_edges(&self.edges),
            viewport: self.viewport,
            active_provider: self.active_provider,
            created_at_micros: self.created_at_micros,
            updated_at_micros: self.updated_at_micros,
        }
    }
}

} // verus!

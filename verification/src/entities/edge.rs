use vstd::prelude::*;
use crate::entities::node::{clone_opt_string, opt_str_view};

verus! {

/// A directed connection between two nodes.
pub struct Edge {
    pub id: u128,
    pub source_id: u128,
    pub target_id: u128,
    pub edge_type: EdgeType,
    pub label: Option<String>,
    pub properties: EdgeProperties,
}

#[derive(Clone, Copy, Debug, PartialEq, Eq, Structural)]
pub enum EdgeType {
    Synchronous,
    Asynchronous,
    DataFlow,
    Dependency,
}

pub struct EdgeProperties {
    pub protocol: Option<String>,
    pub port: Option<u16>,
    pub bidirectional: bool,
    pub communication_pattern: Option<CommunicationPattern>,
    pub style: Option<EdgeStyle>,
}

#[derive(Clone, Copy, Debug, PartialEq, Eq, Structural)]
pub enum CommunicationPattern {
    RequestResponse,
    FireAndForget,
    PublishSubscribe,
    Streaming,
}

/// Style of an edge; dash lengths and thickness are `f64` bit patterns.
pub struct EdgeStyle {
    pub color: Option<String>,
    pub dash_pattern_bits: Option<Vec<u64>>,
    pub thickness_bits: Option<u64>,
}

pub struct EdgeStyleView {
    pub color: Option<Seq<char>>,
    pub dash_pattern_bits: Option<Seq<u64>>,
    pub thickness_bits: Option<u64>,
}

impl View for EdgeStyle {
    type V = EdgeStyleView;

    open spec fn view(&self) -> EdgeStyleView {
        EdgeStyleView {
            color: opt_str_view(self.color),
            dash_pattern_bits: match self.dash_pattern_bits {
                Some(v) => Some(v@),
                None => None,
            },
            thickness_bits: self.thickness_bits,
        }
    }
}

pub fn copy_u64s(v: &Vec<u64>) -> (r: Vec<u64>)
    ensures
        r@ == v@,
{
    let mut r: Vec<u64> = Vec::new();
    let mut i: usize = 0;
    while i < v.len()
        invariant
            i <= v.len(),
            r@ == v@.subrange(0, i as int),
        decreases v.len() - i,
    {
        r.push(v[i]);
        i = i + 1;
        assert(r@ =~= v@.subrange(0, i as int));
    }
    assert(r@ =~= v@);
    r
}

impl Clone for EdgeStyle {
    fn clone(&self) -> (r: Self)
        ensures
            r@ == self@,
    {
        EdgeStyle {
            color: clone_opt_string(&self.color),
            dash_pattern_bits: match &self.dash_pattern_bits {
                Some(v) => Some(copy_u64s(v)),
                None => None,
            },
            thickness_bits: self.thickness_bits,
        }
    }
}

pub struct EdgePropertiesView {
    pub protocol: Option<Seq<char>>,
    pub port: Option<u16>,
    pub bidirectional: bool,
    pub communication_pattern: Option<CommunicationPattern>,
    pub style: Option<EdgeStyleView>,
}

impl View for EdgeProperties {
    type V = EdgePropertiesView;

    open spec fn view(&self) -> EdgePropertiesView {
        EdgePropertiesView {
            protocol: opt_str_view(self.protocol),
            port: self.port,
            bidirectional: self.bidirectional,
            communication_pattern: self.communication_pattern,
            style: match self.style {
                Some(s) => Some(s@),
                None => None,
            },
        }
    }
}

impl Clone for EdgeProperties {
    fn clone(&self) -> (r: Self)
        ensures
            r@ == self@,
    {
        EdgeProperties {
            protocol: clone_opt_string(&self.protocol),
            port: self.port,
            bidirectional: self.bidirectional,
            communication_pattern: self.communication_pattern,
            style: match &self.style {
                Some(s) => Some(s.clone()),
                None => None,
            },
        }
    }
}

/// Properties of an edge that carries nothing but its endpoints and kind.
pub open spec fn plain_edge_properties(protocol: Option<Seq<char>>) -> EdgePropertiesView {
    EdgePropertiesView {
        protocol: protocol,
        port: None,
        bidirectional: false,
        communication_pattern: None,
        style: None,
    }
}

pub struct EdgeView {
    pub id: u128,
    pub source_id: u128,
    pub target_id: u128,
    pub edge_type: EdgeType,
    pub label: Option<Seq<char>>,
    pub properties: EdgePropertiesView,
}

impl View for Edge {
    type V = EdgeView;

    open spec fn view(&self) -> EdgeView {
        EdgeView {
            id: self.id,
            source_id: self.source_id,
            target_id: self.target_id,
            edge_type: self.edge_type,
            label: opt_str_view(self.label),
            properties: self.properties@,
        }
    }
}

impl Clone for Edge {
    fn clone(&self) -> (r: Self)
        ensures
            r@ == self@,
    {
        Edge {
            id: self.id,
            source_id: self.source_id,
            target_id: self.target_id,
            edge_type: self.edge_type,
            label: clone_opt_string(&self.label),
            properties: self.properties.clone(),
        }
    }
}

pub open spec fn edges_view(s: Seq<Edge>) -> Seq<EdgeView> {
    s.map_values(|e: Edge| e@)
}

pub fn clone_edges(v: &Vec<Edge>) -> (r: Vec<Edge>)
    ensures
        edges_view(r@) == edges_view(v@),
{
    let mut r: Vec<Edge> = Vec::new();
    let mut i: usize = 0;
    while i < v.len()
        invariant
            i <= v.len(),
            r@.len() == i,
            forall|j: int| 0 <= j < i ==> r@[j]@ == v@[j]@,
        decreases v.len() - i,
    {
        r.push(v[i].clone());
        i = i + 1;
    }
    assert(edges_view(r@) =~= edges_view(v@));
    r
}

} // verus!

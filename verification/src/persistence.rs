//! How diagrams are stored: the names under which providers and edge kinds
//! are written to the database and read back, and the shape of a diagram
//! just created.
use vstd::prelude::*;
use vstd::string::*;
use crate::entities::diagram::{CloudProvider, Diagram, DiagramView, Viewport};
use crate::entities::edge::EdgeType;
use crate::entities::node::{clone_opt_string, opt_str_view};
use crate::text::str_eq;

verus! {

/// The stored name of a cloud provider.
pub open spec fn provider_name(p: CloudProvider) -> Seq<char> {
    match p {
        CloudProvider::Aws => "Aws"@,
        CloudProvider::Gcp => "Gcp"@,
        CloudProvider::Azure => "Azure"@,
    }
}

/// The provider a stored name stands for, if any.
pub open spec fn provider_named(s: Seq<char>) -> Option<CloudProvider> {
    if s == "Aws"@ {
        Some(CloudProvider::Aws)
    } else if s == "Gcp"@ {
        Some(CloudProvider::Gcp)
    } else if s == "Azure"@ {
        Some(CloudProvider::Azure)
    } else {
        None
    }
}

/// The stored name of an edge kind.
pub open spec fn edge_type_name(t: EdgeType) -> Seq<char> {
    match t {
        EdgeType::Synchronous => "Synchronous"@,
        EdgeType::Asynchronous => "Asynchronous"@,
        EdgeType::DataFlow => "DataFlow"@,
        EdgeType::Dependency => "Dependency"@,
    }
}

/// The edge kind a stored name stands for; an unknown name reads as
/// synchronous.
pub open spec fn stored_edge_type(s: Seq<char>) -> EdgeType {
    if s == "Asynchronous"@ {
        EdgeType::Asynchronous
    } else if s == "DataFlow"@ {
        EdgeType::DataFlow
    } else if s == "Dependency"@ {
        EdgeType::Dependency
    } else {
        EdgeType::Synchronous
    }
}

pub fn cloud_provider_str(p: CloudProvider) -> (s: &'static str)
    ensures
        s@ == provider_name(p),
{
    match p {
        CloudProvider::Aws => "Aws",
        CloudProvider::Gcp => "Gcp",
        CloudProvider::Azure => "Azure",
    }
}

/// Reads a stored provider name.
pub fn parse_cloud_provider(s: &str) -> (r: Option<CloudProvider>)
    ensures
        r == provider_named(s@),
{
    if str_eq(s, "Aws") {
        Some(CloudProvider::Aws)
    } else if str_eq(s, "Gcp") {
        Some(CloudProvider::Gcp)
    } else if str_eq(s, "Azure") {
        Some(CloudProvider::Azure)
    } else {
        None
    }
}

pub fn edge_type_str(t: EdgeType) -> (s: &'static str)
    ensures
        s@ == edge_type_name(t),
{
    match t {
        EdgeType::Synchronous => "Synchronous",
        EdgeType::Asynchronous => "Asynchronous",
        EdgeType::DataFlow => "DataFlow",
        EdgeType::Dependency => "Dependency",
    }
}

/// Reads a stored edge kind.
pub fn parse_edge_type(s: &str) -> (r: EdgeType)
    ensures
        r == stored_edge_type(s@),
{
    if str_eq(s, "Asynchronous") {
        EdgeType::Asynchronous
    } else if str_eq(s, "DataFlow") {
        EdgeType::DataFlow
    } else if str_eq(s, "Dependency") {
        EdgeType::Dependency
    } else {
        EdgeType::Synchronous
    }
}

/// Bit pattern of `1.0`, the zoom of a new or unreadable viewport.
pub open spec fn unit_zoom_bits() -> u64 {
    0x3ff0000000000000
}

/// The viewport of a diagram just created: at the origin, zoom 1.
pub fn default_viewport() -> (v: Viewport)
    ensures
        v == (Viewport { x_bits: 0, y_bits: 0, zoom_bits: unit_zoom_bits() }),
{
    Viewport { x_bits: 0, y_bits: 0, zoom_bits: 0x3ff0000000000000 }
}

/// A diagram just created under the given id and timestamps: named, with
/// no nodes, edges or provider and the default viewport.
pub fn new_diagram(id: u128, name: &str, description: &Option<String>, created_at_micros: i64, updated_at_micros: i64) -> (d: Diagram)
    ensures
        d@ == (DiagramView {
            id: id,
            name: name@,
            description: opt_str_view(*description),
            nodes: Seq::empty(),
            edges: Seq::empty(),
            viewport: Viewport { x_bits: 0, y_bits: 0, zoom_bits: unit_zoom_bits() },
            active_provider: None,
            created_at_micros: created_at_micros,
            updated_at_micros: updated_at_micros,
        }),
{
    let d = Diagram {
        id: id,
        name: name.to_owned(),
        description: clone_opt_string(description),
        nodes: Vec::new(),
        edges: Vec::new(),
        viewport: default_viewport(),
        active_provider: None,
        created_at_micros: created_at_micros,
        updated_at_micros: updated_at_micros,
    };
    assert(d@.nodes =~= Seq::empty());
    assert(d@.edges =~= Seq::empty());
    d
}

/// A provider written to the database reads back as itself.
pub proof fn law_provider_round_trip(p: CloudProvider)
    ensures
        provider_named(provider_name(p)) == Some(p),
{
    reveal_strlit("Aws");
    reveal_strlit("Gcp");
    reveal_strlit("Azure");
    assert("Gcp"@[0] != "Aws"@[0]);
    assert("Azure"@[0] == "Aws"@[0] && "Azure"@[1] != "Aws"@[1]);
    assert("Azure"@[0] != "Gcp"@[0]);
}

/// An edge kind written to the database reads back as itself.
pub proof fn law_edge_type_round_trip(t: EdgeType)
    ensures
        stored_edge_type(edge_type_name(t)) == t,
{
    reveal_strlit("Synchronous");
    reveal_strlit("Asynchronous");
    reveal_strlit("DataFlow");
    reveal_strlit("Dependency");
    assert("Synchronous"@[0] != "Asynchronous"@[0]);
    assert("Synchronous"@[0] != "DataFlow"@[0]);
    assert("Synchronous"@[0] != "Dependency"@[0]);
    assert("DataFlow"@[0] != "Asynchronous"@[0]);
    assert("Dependency"@[0] != "Asynchronous"@[0]);
    assert("Dependency"@[1] != "DataFlow"@[1]);
}

} // verus!

use vibes::entities::diagram::{Diagram, Viewport};
use vibes::entities::edge::{Edge, EdgeProperties, EdgeType};
use vibes::entities::errors::DomainError;
use vibes::entities::node::{ComputeComponent, DataComponent, Node, NodeProperties, NodeType, Position, Size};
use vibes::persistence::new_diagram;
use vibes::services::diagram_edits::{
    add_edge, add_node, check_diagram_name, delete_edge, delete_node, patch_edge, patch_node,
    update_diagram, PatchEdgeInput, PatchNodeInput, UpdateDiagramInput,
};

fn new_id() -> u128 {
    uuid::Uuid::new_v4().as_u128()
}

fn uuid_string(id: u128) -> String {
    uuid::Uuid::from_u128(id).to_string()
}

fn make_node(node_type: NodeType, label: &str) -> Node {
    Node {
        id: new_id(),
        node_type,
        label: label.to_string(),
        position: Position { x_bits: 0f64.to_bits(), y_bits: 0f64.to_bits() },
        size: Size { width_bits: 180f64.to_bits(), height_bits: 48f64.to_bits() },
        properties: NodeProperties { config: "{}".to_string(), style: None },
        parent_id: None,
        provider_mappings: None,
    }
}

fn make_edge(source: u128, target: u128, edge_type: EdgeType) -> Edge {
    Edge {
        id: new_id(),
        source_id: source,
        target_id: target,
        edge_type,
        label: None,
        properties: EdgeProperties {
            protocol: None,
            port: None,
            bidirectional: false,
            communication_pattern: None,
            style: None,
        },
    }
}

fn empty() -> Diagram {
    new_diagram(new_id(), "Edits", &None, 0, 0)
}

fn validation_message(e: &DomainError) -> String {
    match e {
        DomainError::Validation(m) => m.clone(),
        _ => panic!("not a validation error"),
    }
}

#[test]
fn add_node_then_duplicate_is_refused() {
    let mut d = empty();
    let n = make_node(NodeType::Compute(ComputeComponent::Worker), "W");
    let id = n.id;
    let added = add_node(&mut d, n.clone()).ok().unwrap();
    assert_eq!(added.id, id);
    assert_eq!(d.nodes.len(), 1);
    let err = add_node(&mut d, n).err().unwrap();
    assert_eq!(validation_message(&err), format!("Node with id {} already exists", uuid_string(id)));
    assert_eq!(d.nodes.len(), 1);
}

#[test]
fn add_edge_checks_endpoints() {
    let mut d = empty();
    let a = make_node(NodeType::Compute(ComputeComponent::Worker), "A");
    let b = make_node(NodeType::Data(DataComponent::RelationalDb), "B");
    let (ia, ib) = (a.id, b.id);
    add_node(&mut d, a).ok().unwrap();
    let missing = make_edge(ia, ib, EdgeType::Synchronous);
    let err = add_edge(&mut d, missing).err().unwrap();
    assert_eq!(validation_message(&err), format!("Target node {} not found", uuid_string(ib)));
    let from_missing = make_edge(ib, ia, EdgeType::Synchronous);
    let err = add_edge(&mut d, from_missing).err().unwrap();
    assert_eq!(validation_message(&err), format!("Source node {} not found", uuid_string(ib)));
    add_node(&mut d, b).ok().unwrap();
    let e = make_edge(ia, ib, EdgeType::Synchronous);
    let eid = e.id;
    add_edge(&mut d, e.clone()).ok().unwrap();
    assert_eq!(d.edges.len(), 1);
    let err = add_edge(&mut d, e).err().unwrap();
    assert_eq!(validation_message(&err), format!("Edge with id {} already exists", uuid_string(eid)));
}

#[test]
fn delete_node_removes_its_edges() {
    let mut d = empty();
    let a = make_node(NodeType::Compute(ComputeComponent::Worker), "A");
    let b = make_node(NodeType::Compute(ComputeComponent::Worker), "B");
    let c = make_node(NodeType::Compute(ComputeComponent::Worker), "C");
    let (ia, ib, ic) = (a.id, b.id, c.id);
    add_node(&mut d, a).ok().unwrap();
    add_node(&mut d, b).ok().unwrap();
    add_node(&mut d, c).ok().unwrap();
    add_edge(&mut d, make_edge(ia, ib, EdgeType::Synchronous)).ok().unwrap();
    add_edge(&mut d, make_edge(ib, ic, EdgeType::Synchronous)).ok().unwrap();
    add_edge(&mut d, make_edge(ia, ic, EdgeType::Asynchronous)).ok().unwrap();
    delete_node(&mut d, ib).ok().unwrap();
    assert_eq!(d.nodes.len(), 2);
    assert_eq!(d.edges.len(), 1);
    assert_eq!(d.edges[0].source_id, ia);
    assert_eq!(d.edges[0].target_id, ic);
    match delete_node(&mut d, ib) {
        Err(DomainError::NotFound(m)) => assert_eq!(m, format!("Node {} not found", uuid_string(ib))),
        _ => panic!("expected not found"),
    }
}

#[test]
fn delete_edge_after_add_restores_edges() {
    let mut d = empty();
    let a = make_node(NodeType::Compute(ComputeComponent::Worker), "A");
    let b = make_node(NodeType::Compute(ComputeComponent::Worker), "B");
    let (ia, ib) = (a.id, b.id);
    add_node(&mut d, a).ok().unwrap();
    add_node(&mut d, b).ok().unwrap();
    let e = make_edge(ia, ib, EdgeType::DataFlow);
    let eid = e.id;
    add_edge(&mut d, e).ok().unwrap();
    delete_edge(&mut d, eid).ok().unwrap();
    assert!(d.edges.is_empty());
    match delete_edge(&mut d, eid) {
        Err(DomainError::NotFound(m)) => assert_eq!(m, format!("Edge {} not found", uuid_string(eid))),
        _ => panic!("expected not found"),
    }
}

#[test]
fn patch_node_replaces_given_fields() {
    let mut d = empty();
    let a = make_node(NodeType::Compute(ComputeComponent::Worker), "A");
    let ia = a.id;
    add_node(&mut d, a).ok().unwrap();
    let input = PatchNodeInput {
        label: Some("Renamed".to_string()),
        node_type: None,
        position: Some(Position { x_bits: 5f64.to_bits(), y_bits: 6f64.to_bits() }),
        size: None,
        properties: None,
        parent_id: None,
    };
    let patched = patch_node(&mut d, ia, input).ok().unwrap();
    assert_eq!(patched.label, "Renamed");
    assert_eq!(patched.node_type, NodeType::Compute(ComputeComponent::Worker));
    assert_eq!(d.nodes[0].label, "Renamed");
    assert_eq!(d.nodes[0].position.x_bits, 5f64.to_bits());
    let missing = new_id();
    let empty_input = PatchNodeInput { label: None, node_type: None, position: None, size: None, properties: None, parent_id: None };
    assert!(patch_node(&mut d, missing, empty_input).is_err());
}

#[test]
fn patch_edge_can_clear_label() {
    let mut d = empty();
    let a = make_node(NodeType::Compute(ComputeComponent::Worker), "A");
    let b = make_node(NodeType::Compute(ComputeComponent::Worker), "B");
    let (ia, ib) = (a.id, b.id);
    add_node(&mut d, a).ok().unwrap();
    add_node(&mut d, b).ok().unwrap();
    let mut e = make_edge(ia, ib, EdgeType::Synchronous);
    e.label = Some("calls".to_string());
    let eid = e.id;
    add_edge(&mut d, e).ok().unwrap();
    let patched = patch_edge(&mut d, eid, PatchEdgeInput { edge_type: Some(EdgeType::Dependency), label: Some(None), properties: None }).ok().unwrap();
    assert_eq!(patched.label, None);
    assert_eq!(d.edges[0].edge_type, EdgeType::Dependency);
}

#[test]
fn update_refuses_blank_name() {
    let mut d = empty();
    let input = UpdateDiagramInput { name: Some("   ".to_string()), description: Some("x".to_string()), nodes: None, edges: None, viewport: None };
    let err = update_diagram(&mut d, input).err().unwrap();
    assert_eq!(validation_message(&err), "Diagram name cannot be empty");
    assert_eq!(d.name, "Edits");
    assert_eq!(d.description, None);
    let input = UpdateDiagramInput { name: Some("New".to_string()), description: Some("desc".to_string()), nodes: None, edges: None, viewport: None };
    update_diagram(&mut d, input).ok().unwrap();
    assert_eq!(d.name, "New");
    assert_eq!(d.description, Some("desc".to_string()));
}

#[test]
fn diagram_name_must_not_be_blank() {
    assert!(check_diagram_name("").is_err());
    assert!(check_diagram_name(" \t\n").is_err());
    assert!(check_diagram_name(" x ").is_ok());
}

#[test]
fn new_diagram_is_empty_with_unit_zoom() {
    let d = new_diagram(7, "Name", &Some("D".to_string()), 1, 2);
    assert_eq!(d.id, 7);
    assert!(d.nodes.is_empty() && d.edges.is_empty());
    assert_eq!(f64::from_bits(d.viewport.zoom_bits), 1.0);
    assert_eq!(d.active_provider, None);
}

use vibes::entities::diagram::{CloudProvider, Diagram, Viewport};
use vibes::entities::edge::{Edge, EdgeProperties, EdgeType};
use vibes::entities::node::{
    ComputeComponent, DataComponent, GroupType, Node, NodeProperties, NodeType, Position, Size,
};
use vibes::services::translation::TranslationService;

fn new_id() -> u128 {
    uuid::Uuid::new_v4().as_u128()
}

fn make_node(node_type: NodeType, label: &str) -> Node {
    Node {
        id: new_id(),
        node_type,
        label: label.to_string(),
        position: Position { x_bits: 0f64.to_bits(), y_bits: 0f64.to_bits() },
        size: Size { width_bits: 180f64.to_bits(), height_bits: 48f64.to_bits() },
        properties: NodeProperties { config: "{}".to_string(), style: None },
        parent_id: None,
        provider_mappings: None,
    }
}

fn make_edge(source: u128, target: u128, edge_type: EdgeType) -> Edge {
    Edge {
        id: new_id(),
        source_id: source,
        target_id: target,
        edge_type,
        label: None,
        properties: EdgeProperties {
            protocol: None,
            port: None,
            bidirectional: false,
            communication_pattern: None,
            style: None,
        },
    }
}

fn make_diagram(nodes: Vec<Node>, edges: Vec<Edge>) -> Diagram {
    Diagram {
        id: new_id(),
        name: "Test Diagram".to_string(),
        description: None,
        nodes,
        edges,
        viewport: Viewport { x_bits: 0f64.to_bits(), y_bits: 0f64.to_bits(), zoom_bits: 1f64.to_bits() },
        active_provider: None,
        created_at_micros: 0,
        updated_at_micros: 0,
    }
}

#[test]
fn translate_populates_provider_mappings() {
    let node = make_node(NodeType::Compute(ComputeComponent::ApplicationServer), "App");
    let diagram = make_diagram(vec![node], vec![]);
    let result = TranslationService::translate(&diagram, CloudProvider::Aws);
    let n = &result.nodes[0];
    let mappings = n.provider_mappings.as_ref().unwrap();
    assert!(mappings.aws.is_some());
    assert!(mappings.gcp.is_some());
    assert!(mappings.azure.is_some());
}

#[test]
fn translate_sets_active_provider() {
    let node = make_node(NodeType::Compute(ComputeComponent::ApplicationServer), "App");
    let diagram = make_diagram(vec![node], vec![]);
    let result = TranslationService::translate(&diagram, CloudProvider::Aws);
    assert_eq!(result.active_provider, Some(CloudProvider::Aws));
}

#[test]
fn translate_skips_group_nodes() {
    let group = make_node(NodeType::Group(GroupType::NetworkBoundary), "VPC");
    let app = make_node(NodeType::Compute(ComputeComponent::ApplicationServer), "App");
    let diagram = make_diagram(vec![group, app], vec![]);
    let result = TranslationService::translate(&diagram, CloudProvider::Gcp);
    let group_node = result.nodes.iter().find(|n| n.label == "VPC").unwrap();
    assert!(group_node.provider_mappings.is_none());
    let app_node = result.nodes.iter().find(|n| n.label == "App").unwrap();
    assert!(app_node.provider_mappings.is_some());
}

#[test]
fn translate_preserves_diagram_data() {
    let n1 = make_node(NodeType::Compute(ComputeComponent::ApplicationServer), "App");
    let n2 = make_node(NodeType::Data(DataComponent::RelationalDb), "DB");
    let edge = make_edge(n1.id, n2.id, EdgeType::Synchronous);
    let mut diagram = make_diagram(vec![n1, n2], vec![edge]);
    diagram.name = "My Architecture".to_string();
    let result = TranslationService::translate(&diagram, CloudProvider::Azure);
    assert_eq!(result.name, "My Architecture");
    assert_eq!(result.nodes.len(), 2);
    assert_eq!(result.edges.len(), 1);
}

#[test]
fn clear_translation_removes_active_provider() {
    let node = make_node(NodeType::Compute(ComputeComponent::ApplicationServer), "App");
    let diagram = make_diagram(vec![node], vec![]);
    let translated = TranslationService::translate(&diagram, CloudProvider::Aws);
    assert_eq!(translated.active_provider, Some(CloudProvider::Aws));
    let cleared = TranslationService::clear_translation(&translated);
    assert_eq!(cleared.active_provider, None);
}

#[test]
fn translate_fills_catalog_service_names() {
    let node = make_node(NodeType::Data(DataComponent::RelationalDb), "DB");
    let diagram = make_diagram(vec![node], vec![]);
    let result = TranslationService::translate(&diagram, CloudProvider::Aws);
    let m = result.nodes[0].provider_mappings.as_ref().unwrap();
    let aws = m.aws.as_ref().unwrap();
    assert!(aws.terraform_resource_type.is_some());
    assert!(!aws.service_name.is_empty());
}

#[test]
fn translating_twice_keeps_mappings() {
    let node = make_node(NodeType::Compute(ComputeComponent::Worker), "W");
    let diagram = make_diagram(vec![node], vec![]);
    let once = TranslationService::translate(&diagram, CloudProvider::Aws);
    let twice = TranslationService::translate(&once, CloudProvider::Gcp);
    let a = once.nodes[0].provider_mappings.as_ref().unwrap();
    let b = twice.nodes[0].provider_mappings.as_ref().unwrap();
    assert_eq!(a.aws.as_ref().unwrap().service_name, b.aws.as_ref().unwrap().service_name);
    assert_eq!(a.gcp.as_ref().unwrap().icon_key, b.gcp.as_ref().unwrap().icon_key);
    assert_eq!(twice.active_provider, Some(CloudProvider::Gcp));
}

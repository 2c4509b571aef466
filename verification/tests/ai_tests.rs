use vibes::ai::changes::{apply_changes, check_prompt, next_generation_step, GenerationStep};
use vibes::ai::node_types::{parse_edge_type, parse_node_type};
use vibes::ai::parser::{
    apply_modify_response, apply_modify_response_with_ids, parse_ai_response,
    parse_ai_response_with_ids, AiDiagramResponse, AiEdge, AiModifyResponse, AiNode, AiNodeUpdate,
};
use vibes::ai::prompts::{fix_request, modify_request, selected_nodes_note};
use vibes::ai::validator::validate_ai_output;
use vibes::entities::edge::EdgeType;
use vibes::entities::errors::DomainError;
use vibes::entities::node::{
    ComputeComponent, DataComponent, GroupType, NetworkingComponent, NodeType,
};
use vibes::persistence::new_diagram;

fn uuid_string(id: u128) -> String {
    uuid::Uuid::from_u128(id).to_string()
}

fn ai_node(id: &str, category: &str, component: &str, label: &str, parent: Option<&str>) -> AiNode {
    AiNode {
        id: id.to_string(),
        category: category.to_string(),
        component: component.to_string(),
        label: label.to_string(),
        parent_id: parent.map(|p| p.to_string()),
    }
}

fn ai_edge(s: &str, t: &str, kind: &str) -> AiEdge {
    AiEdge {
        source_id: s.to_string(),
        target_id: t.to_string(),
        edge_type: kind.to_string(),
        label: Some("HTTP".to_string()),
        protocol: Some("HTTPS".to_string()),
    }
}

fn ai_message(e: DomainError) -> String {
    match e {
        DomainError::AiError(m) => m,
        _ => panic!("not an AI error"),
    }
}

fn web_api() -> AiDiagramResponse {
    AiDiagramResponse {
        name: "Basic Web API".to_string(),
        description: Some("Simple web API".to_string()),
        nodes: vec![
            ai_node("node_1", "Networking", "LoadBalancer", "Load Balancer", None),
            ai_node("node_2", "Compute", "ApplicationServer", "API Server", Some("node_4")),
            ai_node("node_3", "Data", "RelationalDb", "PostgreSQL", Some("node_4")),
            ai_node("node_4", "Group", "ServiceCluster", "Backend", None),
        ],
        edges: vec![ai_edge("node_1", "node_2", "Synchronous"), ai_edge("node_2", "node_3", "DataFlow")],
    }
}

#[test]
fn node_types_parse_by_name() {
    assert_eq!(parse_node_type("Compute", "Worker").ok(), Some(NodeType::Compute(ComputeComponent::Worker)));
    assert_eq!(parse_node_type("Group", "Region").ok(), Some(NodeType::Group(GroupType::Region)));
    assert_eq!(ai_message(parse_node_type("Compute", "Mainframe").err().unwrap()), "Unknown Compute component: Mainframe");
    assert_eq!(ai_message(parse_node_type("Quantum", "Qubit").err().unwrap()), "Unknown category: Quantum");
    assert_eq!(parse_edge_type("Dependency").ok(), Some(EdgeType::Dependency));
    assert_eq!(ai_message(parse_edge_type("Telepathy").err().unwrap()), "Unknown edge type: Telepathy");
}

#[test]
fn response_becomes_nodes_and_edges() {
    let r = web_api();
    let (name, description, nodes, edges) = parse_ai_response_with_ids(&r, &vec![11, 12, 13, 14], &vec![21, 22]).ok().unwrap();
    assert_eq!(name, "Basic Web API");
    assert_eq!(description, Some("Simple web API".to_string()));
    assert_eq!(nodes.len(), 4);
    assert_eq!(nodes[0].id, 11);
    assert_eq!(nodes[0].node_type, NodeType::Networking(NetworkingComponent::LoadBalancer));
    assert_eq!(nodes[1].parent_id, Some(14));
    assert_eq!(f64::from_bits(nodes[1].size.width_bits), 180.0);
    assert_eq!(f64::from_bits(nodes[1].size.height_bits), 80.0);
    assert_eq!(nodes[1].properties.config, "{}");
    assert_eq!(edges[0].id, 21);
    assert_eq!((edges[0].source_id, edges[0].target_id), (11, 12));
    assert_eq!(edges[1].edge_type, EdgeType::DataFlow);
    assert_eq!(edges[1].properties.protocol, Some("HTTPS".to_string()));
}

#[test]
fn later_temporary_id_wins() {
    let r = AiDiagramResponse {
        name: "Dup".to_string(),
        description: None,
        nodes: vec![
            ai_node("x", "Compute", "Worker", "First", None),
            ai_node("x", "Compute", "Worker", "Second", None),
        ],
        edges: vec![],
    };
    let (_, _, nodes, _) = parse_ai_response_with_ids(&r, &vec![1, 2], &vec![]).ok().unwrap();
    assert_eq!(nodes[0].id, 2);
    assert_eq!(nodes[1].id, 2);
}

#[test]
fn unknown_references_are_refused() {
    let mut r = web_api();
    r.nodes[1].parent_id = Some("ghost".to_string());
    assert_eq!(ai_message(parse_ai_response(&r).err().unwrap()), "Unknown parent_id: ghost");
    let mut r = web_api();
    r.edges[0].target_id = "nowhere".to_string();
    assert_eq!(ai_message(parse_ai_response(&r).err().unwrap()), "Unknown edge target_id: nowhere");
    let mut r = web_api();
    r.edges[1].source_id = "nobody".to_string();
    assert_eq!(ai_message(parse_ai_response(&r).err().unwrap()), "Unknown edge source_id: nobody");
}

#[test]
fn fresh_ids_are_random_v4() {
    let (_, _, nodes, edges) = parse_ai_response(&web_api()).ok().unwrap();
    assert_eq!(nodes.len(), 4);
    assert_eq!(edges.len(), 2);
    assert_ne!(nodes[0].id, nodes[1].id);
    assert_eq!((nodes[0].id >> 76) & 0xf, 4);
    assert_eq!(edges[0].source_id, nodes[0].id);
}

#[test]
fn generated_diagram_passes_validation() {
    let (_, _, nodes, edges) = parse_ai_response(&web_api()).ok().unwrap();
    assert!(validate_ai_output(&nodes, &edges).is_ok());
}

#[test]
fn validation_reports_first_problem() {
    let (_, _, mut nodes, mut edges) = parse_ai_response(&web_api()).ok().unwrap();
    match validate_ai_output(&[], &[]) {
        Err(DomainError::Validation(m)) => assert_eq!(m, "Diagram must have at least 1 node"),
        _ => panic!("expected a validation error"),
    }
    let loop_edge = {
        let mut e = edges[0].clone();
        e.target_id = e.source_id;
        e
    };
    edges.push(loop_edge);
    match validate_ai_output(&nodes, &edges) {
        Err(DomainError::Validation(m)) => assert_eq!(m, format!("Self-loop detected on node {}", uuid_string(edges[0].source_id))),
        _ => panic!("expected a self-loop error"),
    }
    edges.pop();
    nodes[0].label = "   ".to_string();
    match validate_ai_output(&nodes, &edges) {
        Err(DomainError::Validation(m)) => assert_eq!(m, format!("Node {} has an empty label", uuid_string(nodes[0].id))),
        _ => panic!("expected a label error"),
    }
    nodes[0].label = "é".repeat(51);
    match validate_ai_output(&nodes, &edges) {
        Err(DomainError::Validation(m)) => assert_eq!(m, format!("Node {} label exceeds 100 characters", uuid_string(nodes[0].id))),
        _ => panic!("expected a long label error"),
    }
    nodes[0].label = "é".repeat(50);
    assert!(validate_ai_output(&nodes, &edges).is_ok());
    let dup = edges[0].clone();
    edges.push(dup);
    match validate_ai_output(&nodes, &edges) {
        Err(DomainError::Validation(m)) => assert!(m.starts_with("Duplicate edge from ")),
        _ => panic!("expected a duplicate edge error"),
    }
}

#[test]
fn parent_must_be_a_group() {
    let mut r = web_api();
    r.nodes[1].parent_id = Some("node_3".to_string());
    let (_, _, nodes, edges) = parse_ai_response(&r).ok().unwrap();
    match validate_ai_output(&nodes, &edges) {
        Err(DomainError::Validation(m)) => assert_eq!(m, format!("Node {} parent {} is not a Group type", uuid_string(nodes[1].id), uuid_string(nodes[2].id))),
        _ => panic!("expected a parent error"),
    }
}

#[test]
fn too_many_nodes() {
    let nodes: Vec<AiNode> = (0..51).map(|i| ai_node(&format!("n{}", i), "Compute", "Worker", "W", None)).collect();
    let r = AiDiagramResponse { name: "Big".to_string(), description: None, nodes, edges: vec![] };
    let (_, _, nodes, edges) = parse_ai_response(&r).ok().unwrap();
    match validate_ai_output(&nodes, &edges) {
        Err(DomainError::Validation(m)) => assert_eq!(m, "Too many nodes: 51 (max 50)"),
        _ => panic!("expected too many nodes"),
    }
}

#[test]
fn modify_response_applies_to_existing_diagram() {
    let (_, _, nodes, edges) = parse_ai_response_with_ids(&web_api(), &vec![11, 12, 13, 14], &vec![21, 22]).ok().unwrap();
    let mut d = new_diagram(99, "Existing", &None, 0, 0);
    d.nodes = nodes;
    d.edges = edges;
    let response = AiModifyResponse {
        nodes_to_add: vec![ai_node("new_node_1", "Caching", "Cache", "Redis", None)],
        nodes_to_remove: vec![uuid_string(13), "not-a-uuid".to_string()],
        nodes_to_update: vec![AiNodeUpdate {
            id: uuid_string(12),
            label: Some("Main API".to_string()),
            category: Some("Compute".to_string()),
            component: Some("Container".to_string()),
        }],
        edges_to_add: vec![ai_edge(&uuid_string(12), "new_node_1", "Synchronous")],
        edges_to_remove: vec![uuid_string(22)],
    };
    let (added, removed, updated, added_edges, removed_edges) =
        apply_modify_response_with_ids(&response, &d, &vec![31], &vec![41]).ok().unwrap();
    assert_eq!(added.len(), 1);
    assert_eq!(added[0].id, 31);
    assert_eq!(removed, vec![13]);
    assert_eq!(updated.len(), 1);
    assert_eq!(updated[0].label, "Main API");
    assert_eq!(updated[0].node_type, NodeType::Compute(ComputeComponent::Container));
    assert_eq!((added_edges[0].id, added_edges[0].source_id, added_edges[0].target_id), (41, 12, 31));
    assert_eq!(removed_edges, vec![22]);

    let (final_nodes, final_edges) = apply_changes(&d, added, &removed, &updated, added_edges, &removed_edges);
    assert_eq!(final_nodes.len(), 4);
    assert!(final_nodes.iter().all(|n| n.id != 13));
    assert_eq!(final_nodes[1].label, "Main API");
    assert_eq!(final_nodes[3].id, 31);
    assert_eq!(final_edges.len(), 2);
    assert_eq!(final_edges[1].id, 41);
}

#[test]
fn invalid_update_id_is_an_error() {
    let d = new_diagram(1, "D", &None, 0, 0);
    let response = AiModifyResponse {
        nodes_to_add: vec![],
        nodes_to_remove: vec![],
        nodes_to_update: vec![AiNodeUpdate { id: "xyz".to_string(), label: None, category: None, component: None }],
        edges_to_add: vec![],
        edges_to_remove: vec![],
    };
    assert_eq!(ai_message(apply_modify_response(&response, &d).err().unwrap()), "Invalid UUID in update: xyz");
}

#[test]
fn generation_retries_then_gives_up() {
    let err = Err(DomainError::Validation("Too many nodes: 60 (max 50)".to_string()));
    match next_generation_step(1, &err) {
        GenerationStep::Retry { feedback } => assert_eq!(
            feedback,
            "The diagram had a validation error: Validation error: Too many nodes: 60 (max 50). Please fix it and try again."
        ),
        _ => panic!("expected a retry"),
    }
    match next_generation_step(6, &err) {
        GenerationStep::GiveUp(DomainError::AiError(m)) => assert_eq!(
            m,
            "Validation failed after 3 attempts: Validation error: Too many nodes: 60 (max 50)"
        ),
        _ => panic!("expected to give up"),
    }
    assert!(matches!(next_generation_step(5, &Ok(())), GenerationStep::Accept));
}

#[test]
fn blank_prompt_is_refused() {
    assert!(check_prompt("  \n ").is_err());
    assert!(check_prompt("a queue").is_ok());
}

#[test]
fn prompt_messages() {
    let (_, _, nodes, _) = parse_ai_response_with_ids(&web_api(), &vec![11, 12, 13, 14], &vec![21, 22]).ok().unwrap();
    assert_eq!(selected_nodes_note(&nodes, &vec![]), "");
    let note = selected_nodes_note(&nodes, &vec![12, 77, 13]);
    assert_eq!(
        note,
        format!(
            "\n\nSelected nodes (focus modifications on these):\n  - API Server ({})\n  - PostgreSQL ({})",
            uuid_string(12),
            uuid_string(13)
        )
    );
    assert_eq!(modify_request("{}", "", "add a cache"), "Current diagram:\n```json\n{}\n```\n\nUser request: add a cache");
    assert_eq!(
        fix_request("{}", "OrphanNode", "lonely"),
        "Current diagram:\n```json\n{}\n```\n\nValidation warning to fix:\n- Rule: OrphanNode\n- Message: lonely\n\nPlease make the minimal change to resolve this warning."
    );
}

#[test]
fn data_components_parse() {
    assert_eq!(parse_node_type("Data", "TimeSeriesDb").ok(), Some(NodeType::Data(DataComponent::TimeSeriesDb)));
}

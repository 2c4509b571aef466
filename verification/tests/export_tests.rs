use vibes::entities::diagram::{CloudProvider, Diagram, Viewport};
use vibes::entities::edge::{Edge, EdgeProperties, EdgeType};
use vibes::entities::node::{
    ComputeComponent, DataComponent, GroupType, Node, NodeProperties, NodeType, Position,
    ProviderMapping, ProviderMappings, Size,
};
use vibes::services::docker_compose::{sanitize_service_name, DockerComposeService};
use vibes::services::terraform::{sanitize_resource_name, TerraformService};

fn new_id() -> u128 {
    uuid::Uuid::new_v4().as_u128()
}

fn bits(x: f64) -> u64 {
    x.to_bits()
}

fn node(id: u128, node_type: NodeType, label: &str, parent_id: Option<u128>) -> Node {
    Node {
        id,
        node_type,
        label: label.to_string(),
        position: Position { x_bits: bits(0.0), y_bits: bits(0.0) },
        size: Size { width_bits: bits(180.0), height_bits: bits(48.0) },
        properties: NodeProperties { config: "{}".to_string(), style: None },
        parent_id,
        provider_mappings: None,
    }
}

fn ec2_mappings() -> ProviderMappings {
    ProviderMappings {
        aws: Some(ProviderMapping {
            service_name: "EC2".to_string(),
            icon_key: "aws-ec2".to_string(),
            config: "{}".to_string(),
            terraform_resource_type: Some("aws_instance".to_string()),
        }),
        gcp: None,
        azure: None,
    }
}

fn terraform_diagram(provider: Option<CloudProvider>) -> Diagram {
    let mut web = node(new_id(), NodeType::Compute(ComputeComponent::ApplicationServer), "Web Server", None);
    web.provider_mappings = Some(ec2_mappings());
    Diagram {
        id: new_id(),
        name: "Test Project".to_string(),
        description: None,
        nodes: vec![web],
        edges: vec![],
        viewport: Viewport { x_bits: bits(0.0), y_bits: bits(0.0), zoom_bits: bits(1.0) },
        active_provider: provider,
        created_at_micros: 0,
        updated_at_micros: 0,
    }
}

fn compose_diagram() -> Diagram {
    let web_id = new_id();
    let db_id = new_id();
    let group_id = new_id();
    let group = node(group_id, NodeType::Group(GroupType::ServiceCluster), "Backend", None);
    let web = node(web_id, NodeType::Compute(ComputeComponent::ApplicationServer), "Web Server", Some(group_id));
    let db = node(db_id, NodeType::Data(DataComponent::RelationalDb), "Database", Some(group_id));
    Diagram {
        id: new_id(),
        name: "Test".to_string(),
        description: None,
        nodes: vec![group, web, db],
        edges: vec![Edge {
            id: new_id(),
            source_id: web_id,
            target_id: db_id,
            edge_type: EdgeType::Synchronous,
            label: None,
            properties: EdgeProperties {
                protocol: None,
                port: None,
                bidirectional: false,
                communication_pattern: None,
                style: None,
            },
        }],
        viewport: Viewport { x_bits: bits(0.0), y_bits: bits(0.0), zoom_bits: bits(1.0) },
        active_provider: None,
        created_at_micros: 0,
        updated_at_micros: 0,
    }
}

#[test]
fn errors_without_provider() {
    let diagram = terraform_diagram(None);
    let result = TerraformService::generate(&diagram);
    assert!(result.is_err());
}

#[test]
fn generates_aws_provider_block() {
    let diagram = terraform_diagram(Some(CloudProvider::Aws));
    let files = TerraformService::generate(&diagram).ok().unwrap();
    assert!(files.providers_tf.contains("hashicorp/aws"));
    assert!(files.providers_tf.contains("provider \"aws\""));
}

#[test]
fn generates_resources() {
    let diagram = terraform_diagram(Some(CloudProvider::Aws));
    let files = TerraformService::generate(&diagram).ok().unwrap();
    assert!(files.main_tf.contains("aws_instance"));
    assert!(files.main_tf.contains("web_server"));
    assert!(files.outputs_tf.contains("web_server_id"));
}

#[test]
fn generates_variables_with_defaults() {
    let diagram = terraform_diagram(Some(CloudProvider::Aws));
    let files = TerraformService::generate(&diagram).ok().unwrap();
    assert!(files.variables_tf.contains("us-east-1"));
    assert!(files.variables_tf.contains("test_project"));
}

#[test]
fn sanitize_names() {
    assert_eq!(sanitize_resource_name("My Web Server!"), "my_web_server");
    assert_eq!(sanitize_resource_name("123start"), "start");
    assert_eq!(sanitize_resource_name("hello--world"), "hello_world");
    assert_eq!(sanitize_resource_name(""), "resource");
}

#[test]
fn terraform_service_performance_100_nodes() {
    let mut diagram = terraform_diagram(Some(CloudProvider::Aws));
    for i in 0..100 {
        let mut n = node(new_id(), NodeType::Compute(ComputeComponent::ApplicationServer), &format!("Service {}", i), None);
        n.position = Position { x_bits: bits(i as f64 * 10.0), y_bits: bits(0.0) };
        n.provider_mappings = Some(ec2_mappings());
        diagram.nodes.push(n);
    }
    let start = std::time::Instant::now();
    let result = TerraformService::generate(&diagram);
    let elapsed = start.elapsed();
    assert!(result.is_ok());
    assert!(elapsed.as_secs() < 1, "Terraform generation took {:?}", elapsed);
}

#[test]
fn generates_services() {
    let diagram = compose_diagram();
    let yaml = DockerComposeService::generate(&diagram).ok().unwrap();
    assert!(yaml.contains("web-server:"));
    assert!(yaml.contains("database:"));
    assert!(yaml.contains("image: node:20-alpine"));
    assert!(yaml.contains("image: postgres:16-alpine"));
}

#[test]
fn generates_depends_on() {
    let diagram = compose_diagram();
    let yaml = DockerComposeService::generate(&diagram).ok().unwrap();
    assert!(yaml.contains("depends_on:"));
    assert!(yaml.contains("web-server"));
}

#[test]
fn generates_networks_from_groups() {
    let diagram = compose_diagram();
    let yaml = DockerComposeService::generate(&diagram).ok().unwrap();
    assert!(yaml.contains("networks:"));
    assert!(yaml.contains("backend:"));
}

#[test]
fn generates_ports_and_env() {
    let diagram = compose_diagram();
    let yaml = DockerComposeService::generate(&diagram).ok().unwrap();
    assert!(yaml.contains("5432:5432"));
    assert!(yaml.contains("POSTGRES_PASSWORD"));
}

#[test]
fn generates_volumes() {
    let diagram = compose_diagram();
    let yaml = DockerComposeService::generate(&diagram).ok().unwrap();
    assert!(yaml.contains("volumes:"));
    assert!(yaml.contains("pgdata"));
}

#[test]
fn docker_compose_service_performance_100_nodes() {
    let mut diagram = compose_diagram();
    for i in 0..100 {
        let mut n = node(new_id(), NodeType::Compute(ComputeComponent::ApplicationServer), &format!("Service {}", i), None);
        n.position = Position { x_bits: bits(i as f64 * 10.0), y_bits: bits(0.0) };
        diagram.nodes.push(n);
    }
    let start = std::time::Instant::now();
    let result = DockerComposeService::generate(&diagram);
    let elapsed = start.elapsed();
    assert!(result.is_ok());
    assert!(elapsed.as_secs() < 1, "Docker Compose generation took {:?}", elapsed);
}

#[test]
fn service_names_are_kebab_case() {
    assert_eq!(sanitize_service_name("Web Server"), "web-server");
    assert_eq!(sanitize_service_name("  API  Gateway!! "), "api-gateway");
}

#[test]
fn duplicate_labels_get_numbered_services() {
    let mut diagram = compose_diagram();
    diagram.nodes.push(node(new_id(), NodeType::Data(DataComponent::RelationalDb), "Database", None));
    let yaml = DockerComposeService::generate(&diagram).ok().unwrap();
    assert!(yaml.contains("database:"));
    assert!(yaml.contains("database-1:"));
}

#[test]
fn generate_variables_names_project() {
    let text = TerraformService::generate_variables(&CloudProvider::Gcp, "My Project");
    assert!(text.contains("my_project"));
}

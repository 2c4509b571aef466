use vibes::dashboard::containers::plan_streams;
use vibes::streaming::{generated_name, store_failure_event, StoreFailure};
use vibes::services::docker_compose::sanitize_service_name;
use vibes::services::terraform::sanitize_resource_name;
use vibes::ai::changes::check_prompt;
use vibes::ai::node_types::parse_node_type;
use vibes::entities::errors::DomainError;
use vibes::ai::node_types::{category_name, component_name};
use vibes::entities::diagram::CloudProvider;
use vibes::entities::edge::EdgeType;
use vibes::entities::node::{ComputeComponent, NodeType};
use vibes::persistence::{cloud_provider_str, edge_type_str, parse_cloud_provider};

#[test]
fn cloud_provider_serialization() {
    assert_eq!(serde_json::to_string(cloud_provider_str(CloudProvider::Aws)).unwrap(), "\"Aws\"");
    assert_eq!(serde_json::to_string(cloud_provider_str(CloudProvider::Gcp)).unwrap(), "\"Gcp\"");
    assert_eq!(serde_json::to_string(cloud_provider_str(CloudProvider::Azure)).unwrap(), "\"Azure\"");

    let text: String = serde_json::from_str("\"Aws\"").unwrap();
    let aws = parse_cloud_provider(&text).unwrap();
    assert_eq!(aws, CloudProvider::Aws);
}

#[test]
fn edge_type_serialization() {
    let types = vec![
        (EdgeType::Synchronous, "\"Synchronous\""),
        (EdgeType::Asynchronous, "\"Asynchronous\""),
        (EdgeType::DataFlow, "\"DataFlow\""),
        (EdgeType::Dependency, "\"Dependency\""),
    ];
    for (et, expected) in types {
        assert_eq!(serde_json::to_string(edge_type_str(et)).unwrap(), expected);
    }
}

#[test]
fn node_type_tagged_serialization() {
    let nt = NodeType::Compute(ComputeComponent::ApplicationServer);
    let mut object = serde_json::Map::new();
    object.insert("category".to_string(), serde_json::Value::String(category_name(&nt).to_string()));
    object.insert("component".to_string(), serde_json::Value::String(component_name(&nt).to_string()));
    let json = serde_json::to_string(&serde_json::Value::Object(object)).unwrap();
    let v: serde_json::Value = serde_json::from_str(&json).unwrap();
    assert_eq!(v["category"], "Compute");
    assert_eq!(v["component"], "ApplicationServer");
}

#[test]
fn largest_byte_unit_is_gb() {
    assert_eq!(vibes::dashboard::format::format_bytes(1 << 40), "1024.00 GB");
    assert_eq!(vibes::dashboard::format::format_bytes(3 * 1024), "3.00 KB");
    assert_eq!(vibes::dashboard::format::format_bytes(1023), "1023 B");
}

#[test]
fn service_names_keep_leading_digits() {
    assert_eq!(sanitize_service_name("123 App"), "123-app");
    assert_eq!(sanitize_service_name("--Web  Server--"), "web-server");
    assert_eq!(sanitize_service_name("!!!"), "service");
}

#[test]
fn resource_names_are_fixed_points() {
    for label in ["Web Server", "123 App", "__x__y__", "!!!", "API-Gateway 2"] {
        let r = sanitize_resource_name(label);
        assert_eq!(sanitize_resource_name(&r), r);
        assert!(r.starts_with(|c: char| c.is_ascii_lowercase()));
        assert!(!r.contains("__") && !r.ends_with('_'));
    }
    assert_eq!(sanitize_resource_name("123 456"), "resource");
    assert_eq!(sanitize_resource_name("123 App"), "app");
}

#[test]
fn unicode_whitespace_prompts_are_blank() {
    assert!(check_prompt("\u{3000}\u{2028} \t").is_err());
    assert!(check_prompt("\u{200b}").is_ok());
}

#[test]
fn unknown_node_type_messages() {
    match parse_node_type("Compute", "Toaster") {
        Err(DomainError::AiError(m)) => assert_eq!(m, "Unknown Compute component: Toaster"),
        _ => panic!("expected an error"),
    }
    match parse_node_type("Kitchen", "Toaster") {
        Err(DomainError::AiError(m)) => assert_eq!(m, "Unknown category: Kitchen"),
        _ => panic!("expected an error"),
    }
    assert!(parse_node_type("compute", "Worker").is_err());
    assert!(parse_node_type("Compute", "Worker").is_ok());
}

#[test]
fn stream_plan_stops_gone_and_starts_new() {
    let running = vec!["a".to_string(), "b".to_string()];
    let containers = vec![
        ("b".to_string(), "web".to_string()),
        ("c".to_string(), "db".to_string()),
        ("c".to_string(), "db-again".to_string()),
    ];
    let (stop, start) = plan_streams(&running, &containers);
    assert_eq!(stop, vec!["a".to_string()]);
    assert_eq!(start, vec![("c".to_string(), "db".to_string())]);
}

#[test]
fn storing_failures_and_default_name() {
    assert_eq!(generated_name(None), "Untitled Diagram");
    assert_eq!(generated_name(Some("Shop")), "Shop");
    let (m, stop) = store_failure_event(&StoreFailure::Deserialize);
    assert_eq!((m.as_str(), stop), ("Failed to deserialize diagram data", false));
    let (m, stop) = store_failure_event(&StoreFailure::Load(DomainError::NotFound("x".to_string())));
    assert!(m.starts_with("Failed to load diagram: "));
    assert!(stop);
    let (_, stop) = store_failure_event(&StoreFailure::Persist(DomainError::NotFound("x".to_string())));
    assert!(!stop);
}

use vibes::entities::docker_catalog::{docker_catalog, lookup_docker_mapping};
use vibes::entities::cloud_catalog::{cloud_catalog, lookup_mapping};
use vibes::entities::diagram::CloudProvider;
use vibes::entities::node::{
    CachingComponent, ComputeComponent, DataComponent, GroupType, MessagingComponent,
    NetworkingComponent, NodeType, ObservabilityComponent, SecurityComponent, StorageComponent,
};

fn all_service_types() -> Vec<NodeType> {
    vec![
        NodeType::Compute(ComputeComponent::ApplicationServer),
        NodeType::Compute(ComputeComponent::Worker),
        NodeType::Compute(ComputeComponent::Function),
        NodeType::Compute(ComputeComponent::Container),
        NodeType::Compute(ComputeComponent::VirtualMachine),
        NodeType::Compute(ComputeComponent::Scheduler),
        NodeType::Networking(NetworkingComponent::LoadBalancer),
        NodeType::Networking(NetworkingComponent::ApiGateway),
        NodeType::Networking(NetworkingComponent::Cdn),
        NodeType::Networking(NetworkingComponent::Dns),
        NodeType::Networking(NetworkingComponent::Firewall),
        NodeType::Networking(NetworkingComponent::Vpn),
        NodeType::Networking(NetworkingComponent::ServiceMesh),
        NodeType::Networking(NetworkingComponent::ReverseProxy),
        NodeType::Data(DataComponent::RelationalDb),
        NodeType::Data(DataComponent::DocumentDb),
        NodeType::Data(DataComponent::KeyValueStore),
        NodeType::Data(DataComponent::GraphDb),
        NodeType::Data(DataComponent::DataWarehouse),
        NodeType::Data(DataComponent::SearchEngine),
        NodeType::Data(DataComponent::TimeSeriesDb),
        NodeType::Caching(CachingComponent::Cache),
        NodeType::Caching(CachingComponent::SessionStore),
        NodeType::Messaging(MessagingComponent::MessageQueue),
        NodeType::Messaging(MessagingComponent::EventBus),
        NodeType::Messaging(MessagingComponent::PubSub),
        NodeType::Messaging(MessagingComponent::StreamProcessor),
        NodeType::Messaging(MessagingComponent::JobBroker),
        NodeType::Storage(StorageComponent::ObjectStorage),
        NodeType::Storage(StorageComponent::BlockStorage),
        NodeType::Storage(StorageComponent::FileStorage),
        NodeType::Security(SecurityComponent::IdentityProvider),
        NodeType::Security(SecurityComponent::SecretManager),
        NodeType::Security(SecurityComponent::CertificateManager),
        NodeType::Security(SecurityComponent::Waf),
        NodeType::Observability(ObservabilityComponent::Logging),
        NodeType::Observability(ObservabilityComponent::Monitoring),
        NodeType::Observability(ObservabilityComponent::Tracing),
        NodeType::Observability(ObservabilityComponent::Alerting),
    ]
}

#[test]
fn all_non_group_node_types_have_mapping() {
    let all_types = all_service_types();
    for nt in &all_types {
        assert!(lookup_docker_mapping(nt).is_some(), "Missing docker mapping for {:?}", nt);
    }
}

#[test]
fn spot_check_images() {
    let m = lookup_docker_mapping(&NodeType::Data(DataComponent::RelationalDb)).unwrap();
    assert_eq!(m.image, "postgres:16-alpine");
    assert!(m.default_ports.contains(&"5432:5432".to_string()));

    let m = lookup_docker_mapping(&NodeType::Messaging(MessagingComponent::MessageQueue)).unwrap();
    assert_eq!(m.image, "rabbitmq:3-management-alpine");

    let m = lookup_docker_mapping(&NodeType::Observability(ObservabilityComponent::Monitoring)).unwrap();
    assert_eq!(m.image, "prom/prometheus:latest");
}

#[test]
fn group_types_have_no_docker_mapping() {
    assert!(lookup_docker_mapping(&NodeType::Group(GroupType::Region)).is_none());
    assert!(lookup_docker_mapping(&NodeType::Group(GroupType::ServiceCluster)).is_none());
}

#[test]
fn docker_catalog_lists_every_service_type_once() {
    let catalog = docker_catalog();
    let all_types = all_service_types();
    assert_eq!(catalog.len(), all_types.len());
    for nt in &all_types {
        assert_eq!(catalog.iter().filter(|m| m.generic_type == *nt).count(), 1);
    }
}

#[test]
fn cloud_catalog_covers_three_providers() {
    let catalog = cloud_catalog();
    assert_eq!(catalog.len(), 117);
    let aws = lookup_mapping(&NodeType::Compute(ComputeComponent::ApplicationServer), &CloudProvider::Aws).unwrap();
    assert_eq!(aws.provider, CloudProvider::Aws);
    assert!(lookup_mapping(&NodeType::Group(GroupType::Region), &CloudProvider::Gcp).is_none());
}

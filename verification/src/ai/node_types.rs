//! The names a model uses for node categories, components and edge kinds.
use vstd::prelude::*;
use vstd::string::*;
use crate::entities::edge::EdgeType;
use crate::entities::errors::{DomainError, DomainErrorView};
use crate::entities::node::{
    CachingComponent, ComputeComponent, DataComponent, GroupType, MessagingComponent,
    NetworkingComponent, NodeType, ObservabilityComponent, SecurityComponent, StorageComponent,
};
use crate::text::str_eq;

verus! {

pub open spec fn compute_named(c: Seq<char>) -> Option<ComputeComponent> {
    if c == "ApplicationServer"@ {
        Some(ComputeComponent::ApplicationServer)
    } else if c == "Worker"@ {
        Some(ComputeComponent::Worker)
    } else if c == "Function"@ {
        Some(ComputeComponent::Function)
    } else if c == "Container"@ {
        Some(ComputeComponent::Container)
    } else if c == "VirtualMachine"@ {
        Some(ComputeComponent::VirtualMachine)
    } else if c == "Scheduler"@ {
        Some(ComputeComponent::Scheduler)
    } else {
        None
    }
}

pub open spec fn networking_named(c: Seq<char>) -> Option<NetworkingComponent> {
    if c == "LoadBalancer"@ {
        Some(NetworkingComponent::LoadBalancer)
    } else if c == "ApiGateway"@ {
        Some(NetworkingComponent::ApiGateway)
    } else if c == "Cdn"@ {
        Some(NetworkingComponent::Cdn)
    } else if c == "Dns"@ {
        Some(NetworkingComponent::Dns)
    } else if c == "Firewall"@ {
        Some(NetworkingComponent::Firewall)
    } else if c == "Vpn"@ {
        Some(NetworkingComponent::Vpn)
    } else if c == "ServiceMesh"@ {
        Some(NetworkingComponent::ServiceMesh)
    } else if c == "ReverseProxy"@ {
        Some(NetworkingComponent::ReverseProxy)
    } else {
        None
    }
}

pub open spec fn data_named(c: Seq<char>) -> Option<DataComponent> {
    if c == "RelationalDb"@ {
        Some(DataComponent::RelationalDb)
    } else if c == "DocumentDb"@ {
        Some(DataComponent::DocumentDb)
    } else if c == "KeyValueStore"@ {
        Some(DataComponent::KeyValueStore)
    } else if c == "GraphDb"@ {
        Some(DataComponent::GraphDb)
    } else if c == "DataWarehouse"@ {
        Some(DataComponent::DataWarehouse)
    } else if c == "SearchEngine"@ {
        Some(DataComponent::SearchEngine)
    } else if c == "TimeSeriesDb"@ {
        Some(DataComponent::TimeSeriesDb)
    } else {
        None
    }
}

pub open spec fn caching_named(c: Seq<char>) -> Option<CachingComponent> {
    if c == "Cache"@ {
        Some(CachingComponent::Cache)
    } else if c == "SessionStore"@ {
        Some(CachingComponent::SessionStore)
    } else {
        None
    }
}

pub open spec fn messaging_named(c: Seq<char>) -> Option<MessagingComponent> {
    if c == "MessageQueue"@ {
        Some(MessagingComponent::MessageQueue)
    } else if c == "EventBus"@ {
        Some(MessagingComponent::EventBus)
    } else if c == "PubSub"@ {
        Some(MessagingComponent::PubSub)
    } else if c == "StreamProcessor"@ {
        Some(MessagingComponent::StreamProcessor)
    } else if c == "JobBroker"@ {
        Some(MessagingComponent::JobBroker)
    } else {
        None
    }
}

pub open spec fn storage_named(c: Seq<char>) -> Option<StorageComponent> {
    if c == "ObjectStorage"@ {
        Some(StorageComponent::ObjectStorage)
    } else if c == "BlockStorage"@ {
        Some(StorageComponent::BlockStorage)
    } else if c == "FileStorage"@ {
        Some(StorageComponent::FileStorage)
    } else {
        None
    }
}

pub open spec fn security_named(c: Seq<char>) -> Option<SecurityComponent> {
    if c == "IdentityProvider"@ {
        Some(SecurityComponent::IdentityProvider)
    } else if c == "SecretManager"@ {
        Some(SecurityComponent::SecretManager)
    } else if c == "CertificateManager"@ {
        Some(SecurityComponent::CertificateManager)
    } else if c == "Waf"@ {
        Some(SecurityComponent::Waf)
    } else {
        None
    }
}

pub open spec fn observability_named(c: Seq<char>) -> Option<ObservabilityComponent> {
    if c == "Logging"@ {
        Some(ObservabilityComponent::Logging)
    } else if c == "Monitoring"@ {
        Some(ObservabilityComponent::Monitoring)
    } else if c == "Tracing"@ {
        Some(ObservabilityComponent::Tracing)
    } else if c == "Alerting"@ {
        Some(ObservabilityComponent::Alerting)
    } else {
        None
    }
}

pub open spec fn group_named(c: Seq<char>) -> Option<GroupType> {
    if c == "NetworkBoundary"@ {
        Some(GroupType::NetworkBoundary)
    } else if c == "AvailabilityZone"@ {
        Some(GroupType::AvailabilityZone)
    } else if c == "Region"@ {
        Some(GroupType::Region)
    } else if c == "ServiceCluster"@ {
        Some(GroupType::ServiceCluster)
    } else if c == "Custom"@ {
        Some(GroupType::Custom)
    } else {
        None
    }
}

/// The node type a category and component name stand for, if any.
pub open spec fn node_type_named(cat: Seq<char>, comp: Seq<char>) -> Option<NodeType> {
    if cat == "Compute"@ {
        match compute_named(comp) {
            Some(c) => Some(NodeType::Compute(c)),
            None => None,
        }
    } else if cat == "Networking"@ {
        match networking_named(comp) {
            Some(c) => Some(NodeType::Networking(c)),
            None => None,
        }
    } else if cat == "Data"@ {
        match data_named(comp) {
            Some(c) => Some(NodeType::Data(c)),
            None => None,
        }
    } else if cat == "Caching"@ {
        match caching_named(comp) {
            Some(c) => Some(NodeType::Caching(c)),
            None => None,
        }
    } else if cat == "Messaging"@ {
        match messaging_named(comp) {
            Some(c) => Some(NodeType::Messaging(c)),
            None => None,
        }
    } else if cat == "Storage"@ {
        match storage_named(comp) {
            Some(c) => Some(NodeType::Storage(c)),
            None => None,
        }
    } else if cat == "Security"@ {
        match security_named(comp) {
            Some(c) => Some(NodeType::Security(c)),
            None => None,
        }
    } else if cat == "Observability"@ {
        match observability_named(comp) {
            Some(c) => Some(NodeType::Observability(c)),
            None => None,
        }
    } else if cat == "Group"@ {
        match group_named(comp) {
            Some(c) => Some(NodeType::Group(c)),
            None => None,
        }
    } else {
        None
    }
}

/// The message for a category or component name that names no node type.
pub open spec fn node_type_error(cat: Seq<char>, comp: Seq<char>) -> Seq<char> {
    if cat == "Compute"@ {
        "Unknown Compute component: "@ + comp
    } else if cat == "Networking"@ {
        "Unknown Networking component: "@ + comp
    } else if cat == "Data"@ {
        "Unknown Data component: "@ + comp
    } else if cat == "Caching"@ {
        "Unknown Caching component: "@ + comp
    } else if cat == "Messaging"@ {
        "Unknown Messaging component: "@ + comp
    } else if cat == "Storage"@ {
        "Unknown Storage component: "@ + comp
    } else if cat == "Security"@ {
        "Unknown Security component: "@ + comp
    } else if cat == "Observability"@ {
        "Unknown Observability component: "@ + comp
    } else if cat == "Group"@ {
        "Unknown Group component: "@ + comp
    } else {
        "Unknown category: "@ + cat
    }
}

/// The edge type an edge kind name stands for, if any.
pub open spec fn edge_type_named(s: Seq<char>) -> Option<EdgeType> {
    if s == "Synchronous"@ {
        Some(EdgeType::Synchronous)
    } else if s == "Asynchronous"@ {
        Some(EdgeType::Asynchronous)
    } else if s == "DataFlow"@ {
        Some(EdgeType::DataFlow)
    } else if s == "Dependency"@ {
        Some(EdgeType::Dependency)
    } else {
        None
    }
}

fn compute_component(c: &str) -> (r: Option<ComputeComponent>)
    ensures
        r == compute_named(c@),
{
    if str_eq(c, "ApplicationServer") {
        Some(ComputeComponent::ApplicationServer)
    } else if str_eq(c, "Worker") {
        Some(ComputeComponent::Worker)
    } else if str_eq(c, "Function") {
        Some(ComputeComponent::Function)
    } else if str_eq(c, "Container") {
        Some(ComputeComponent::Container)
    } else if str_eq(c, "VirtualMachine") {
        Some(ComputeComponent::VirtualMachine)
    } else if str_eq(c, "Scheduler") {
        Some(ComputeComponent::Scheduler)
    } else {
        None
    }
}

fn networking_component(c: &str) -> (r: Option<NetworkingComponent>)
    ensures
        r == networking_named(c@),
{
    if str_eq(c, "LoadBalancer") {
        Some(NetworkingComponent::LoadBalancer)
    } else if str_eq(c, "ApiGateway") {
        Some(NetworkingComponent::ApiGateway)
    } else if str_eq(c, "Cdn") {
        Some(NetworkingComponent::Cdn)
    } else if str_eq(c, "Dns") {
        Some(NetworkingComponent::Dns)
    } else if str_eq(c, "Firewall") {
        Some(NetworkingComponent::Firewall)
    } else if str_eq(c, "Vpn") {
        Some(NetworkingComponent::Vpn)
    } else if str_eq(c, "ServiceMesh") {
        Some(NetworkingComponent::ServiceMesh)
    } else if str_eq(c, "ReverseProxy") {
        Some(NetworkingComponent::ReverseProxy)
    } else {
        None
    }
}

fn data_component(c: &str) -> (r: Option<DataComponent>)
    ensures
        r == data_named(c@),
{
    if str_eq(c, "RelationalDb") {
        Some(DataComponent::RelationalDb)
    } else if str_eq(c, "DocumentDb") {
        Some(DataComponent::DocumentDb)
    } else if str_eq(c, "KeyValueStore") {
        Some(DataComponent::KeyValueStore)
    } else if str_eq(c, "GraphDb") {
        Some(DataComponent::GraphDb)
    } else if str_eq(c, "DataWarehouse") {
        Some(DataComponent::DataWarehouse)
    } else if str_eq(c, "SearchEngine") {
        Some(DataComponent::SearchEngine)
    } else if str_eq(c, "TimeSeriesDb") {
        Some(DataComponent::TimeSeriesDb)
    } else {
        None
    }
}

fn caching_component(c: &str) -> (r: Option<CachingComponent>)
    ensures
        r == caching_named(c@),
{
    if str_eq(c, "Cache") {
        Some(CachingComponent::Cache)
    } else if str_eq(c, "SessionStore") {
        Some(CachingComponent::SessionStore)
    } else {
        None
    }
}

fn messaging_component(c: &str) -> (r: Option<MessagingComponent>)
    ensures
        r == messaging_named(c@),
{
    if str_eq(c, "MessageQueue") {
        Some(MessagingComponent::MessageQueue)
    } else if str_eq(c, "EventBus") {
        Some(MessagingComponent::EventBus)
    } else if str_eq(c, "PubSub") {
        Some(MessagingComponent::PubSub)
    } else if str_eq(c, "StreamProcessor") {
        Some(MessagingComponent::StreamProcessor)
    } else if str_eq(c, "JobBroker") {
        Some(MessagingComponent::JobBroker)
    } else {
        None
    }
}

fn storage_component(c: &str) -> (r: Option<StorageComponent>)
    ensures
        r == storage_named(c@),
{
    if str_eq(c, "ObjectStorage") {
        Some(StorageComponent::ObjectStorage)
    } else if str_eq(c, "BlockStorage") {
        Some(StorageComponent::BlockStorage)
    } else if str_eq(c, "FileStorage") {
        Some(StorageComponent::FileStorage)
    } else {
        None
    }
}

fn security_component(c: &str) -> (r: Option<SecurityComponent>)
    ensures
        r == security_named(c@),
{
    if str_eq(c, "IdentityProvider") {
        Some(SecurityComponent::IdentityProvider)
    } else if str_eq(c, "SecretManager") {
        Some(SecurityComponent::SecretManager)
    } else if str_eq(c, "CertificateManager") {
        Some(SecurityComponent::CertificateManager)
    } else if str_eq(c, "Waf") {
        Some(SecurityComponent::Waf)
    } else {
        None
    }
}

fn observability_component(c: &str) -> (r: Option<ObservabilityComponent>)
    ensures
        r == observability_named(c@),
{
    if str_eq(c, "Logging") {
        Some(ObservabilityComponent::Logging)
    } else if str_eq(c, "Monitoring") {
        Some(ObservabilityComponent::Monitoring)
    } else if str_eq(c, "Tracing") {
        Some(ObservabilityComponent::Tracing)
    } else if str_eq(c, "Alerting") {
        Some(ObservabilityComponent::Alerting)
    } else {
        None
    }
}

fn group_component(c: &str) -> (r: Option<GroupType>)
    ensures
        r == group_named(c@),
{
    if str_eq(c, "NetworkBoundary") {
        Some(GroupType::NetworkBoundary)
    } else if str_eq(c, "AvailabilityZone") {
        Some(GroupType::AvailabilityZone)
    } else if str_eq(c, "Region") {
        Some(GroupType::Region)
    } else if str_eq(c, "ServiceCluster") {
        Some(GroupType::ServiceCluster)
    } else if str_eq(c, "Custom") {
        Some(GroupType::Custom)
    } else {
        None
    }
}

/// The node type named by a category and a component, or the message that
/// says which of the two names is unknown.
pub fn node_type_or_message(category: &str, component: &str) -> (r: Result<NodeType, String>)
    ensures
        match r {
            Ok(t) => node_type_named(category@, component@) == Some(t),
            Err(m) => node_type_named(category@, component@) is None
                && m@ == node_type_error(category@, component@),
        },
{
    let found = if str_eq(category, "Compute") {
        match compute_component(component) {
            Some(c) => Some(NodeType::Compute(c)),
            None => None,
        }
    } else if str_eq(category, "Networking") {
        match networking_component(component) {
            Some(c) => Some(NodeType::Networking(c)),
            None => None,
        }
    } else if str_eq(category, "Data") {
        match data_component(component) {
            Some(c) => Some(NodeType::Data(c)),
            None => None,
        }
    } else if str_eq(category, "Caching") {
        match caching_component(component) {
            Some(c) => Some(NodeType::Caching(c)),
            None => None,
        }
    } else if str_eq(category, "Messaging") {
        match messaging_component(component) {
            Some(c) => Some(NodeType::Messaging(c)),
            None => None,
        }
    } else if str_eq(category, "Storage") {
        match storage_component(component) {
            Some(c) => Some(NodeType::Storage(c)),
            None => None,
        }
    } else if str_eq(category, "Security") {
        match security_component(component) {
            Some(c) => Some(NodeType::Security(c)),
            None => None,
        }
    } else if str_eq(category, "Observability") {
        match observability_component(component) {
            Some(c) => Some(NodeType::Observability(c)),
            None => None,
        }
    } else if str_eq(category, "Group") {
        match group_component(component) {
            Some(c) => Some(NodeType::Group(c)),
            None => None,
        }
    } else {
        None
    };
    match found {
        Some(t) => Ok(t),
        None => {
            let prefix = if str_eq(category, "Compute") {
                "Unknown Compute component: "
            } else if str_eq(category, "Networking") {
                "Unknown Networking component: "
            } else if str_eq(category, "Data") {
                "Unknown Data component: "
            } else if str_eq(category, "Caching") {
                "Unknown Caching component: "
            } else if str_eq(category, "Messaging") {
                "Unknown Messaging component: "
            } else if str_eq(category, "Storage") {
                "Unknown Storage component: "
            } else if str_eq(category, "Security") {
                "Unknown Security component: "
            } else if str_eq(category, "Observability") {
                "Unknown Observability component: "
            } else if str_eq(category, "Group") {
                "Unknown Group component: "
            } else {
                "Unknown category: "
            };
            let known = str_eq(category, "Compute") || str_eq(category, "Networking")
                || str_eq(category, "Data") || str_eq(category, "Caching")
                || str_eq(category, "Messaging") || str_eq(category, "Storage")
                || str_eq(category, "Security") || str_eq(category, "Observability")
                || str_eq(category, "Group");
            let tail = if known {
                component
            } else {
                category
            };
            Err(String::from_str(prefix).concat(tail))
        },
    }
}

/// Parses a node category and component into a node type.
pub fn parse_node_type(category: &str, component: &str) -> (r: Result<NodeType, DomainError>)
    ensures
        match r {
            Ok(t) => node_type_named(category@, component@) == Some(t),
            Err(e) => node_type_named(category@, component@) is None
                && e@ == DomainErrorView::AiError(node_type_error(category@, component@)),
        },
{
    match node_type_or_message(category, component) {
        Ok(t) => Ok(t),
        Err(m) => Err(DomainError::AiError(m)),
    }
}

/// Parses an edge kind name into an edge type.
pub fn parse_edge_type(edge_type: &str) -> (r: Result<EdgeType, DomainError>)
    ensures
        match r {
            Ok(t) => edge_type_named(edge_type@) == Some(t),
            Err(e) => edge_type_named(edge_type@) is None
                && e@ == DomainErrorView::AiError("Unknown edge type: "@ + edge_type@),
        },
{
    if str_eq(edge_type, "Synchronous") {
        Ok(EdgeType::Synchronous)
    } else if str_eq(edge_type, "Asynchronous") {
        Ok(EdgeType::Asynchronous)
    } else if str_eq(edge_type, "DataFlow") {
        Ok(EdgeType::DataFlow)
    } else if str_eq(edge_type, "Dependency") {
        Ok(EdgeType::Dependency)
    } else {
        Err(DomainError::AiError(String::from_str("Unknown edge type: ").concat(edge_type)))
    }
}

/// The category name of a node type.
pub open spec fn category_of(t: NodeType) -> Seq<char> {
    match t {
        NodeType::Compute(_) => "Compute"@,
        NodeType::Networking(_) => "Networking"@,
        NodeType::Data(_) => "Data"@,
        NodeType::Caching(_) => "Caching"@,
        NodeType::Messaging(_) => "Messaging"@,
        NodeType::Storage(_) => "Storage"@,
        NodeType::Security(_) => "Security"@,
        NodeType::Observability(_) => "Observability"@,
        NodeType::Group(_) => "Group"@,
    }
}

/// The name of a node type's category, as `parse_node_type` reads it.
pub fn category_name(t: &NodeType) -> (s: &'static str)
    ensures
        s@ == category_of(*t),
{
    match t {
        NodeType::Compute(_) => "Compute",
        NodeType::Networking(_) => "Networking",
        NodeType::Data(_) => "Data",
        NodeType::Caching(_) => "Caching",
        NodeType::Messaging(_) => "Messaging",
        NodeType::Storage(_) => "Storage",
        NodeType::Security(_) => "Security",
        NodeType::Observability(_) => "Observability",
        NodeType::Group(_) => "Group",
    }
}

/// The name of a ComputeComponent variant.
pub open spec fn compute_text(c: ComputeComponent) -> Seq<char> {
    match c {
        ComputeComponent::ApplicationServer => "ApplicationServer"@,
        ComputeComponent::Worker => "Worker"@,
        ComputeComponent::Function => "Function"@,
        ComputeComponent::Container => "Container"@,
        ComputeComponent::VirtualMachine => "VirtualMachine"@,
        ComputeComponent::Scheduler => "Scheduler"@,
    }
}

proof fn lemma_compute_named(c: ComputeComponent, s: Seq<char>)
    ensures
        compute_named(compute_text(c)) == Some(c),
        compute_named(s) == Some(c) ==> s == compute_text(c),
{
        reveal_strlit("ApplicationServer");
        reveal_strlit("Worker");
        reveal_strlit("Function");
        reveal_strlit("Container");
        reveal_strlit("VirtualMachine");
        reveal_strlit("Scheduler");
        assert("Worker"@.len() != "ApplicationServer"@.len());
        assert("Function"@.len() != "ApplicationServer"@.len());
        assert("Function"@.len() != "Worker"@.len());
        assert("Container"@.len() != "ApplicationServer"@.len());
        assert("Container"@.len() != "Worker"@.len());
        assert("Container"@.len() != "Function"@.len());
        assert("VirtualMachine"@.len() != "ApplicationServer"@.len());
        assert("VirtualMachine"@.len() != "Worker"@.len());
        assert("VirtualMachine"@.len() != "Function"@.len());
        assert("VirtualMachine"@.len() != "Container"@.len());
        assert("Scheduler"@.len() != "ApplicationServer"@.len());
        assert("Scheduler"@.len() != "Worker"@.len());
        assert("Scheduler"@.len() != "Function"@.len());
        assert("Scheduler"@[0] != "Container"@[0]);
        assert("Scheduler"@.len() != "VirtualMachine"@.len());
}

fn compute_name(c: &ComputeComponent) -> (s: &'static str)
    ensures
        s@ == compute_text(*c),
        compute_named(s@) == Some(*c),
{
    proof {
        lemma_compute_named(*c, compute_text(*c));
    }
    match c {
        ComputeComponent::ApplicationServer => "ApplicationServer",
        ComputeComponent::Worker => "Worker",
        ComputeComponent::Function => "Function",
        ComputeComponent::Container => "Container",
        ComputeComponent::VirtualMachine => "VirtualMachine",
        ComputeComponent::Scheduler => "Scheduler",
    }
}

/// The name of a NetworkingComponent variant.
pub open spec fn networking_text(c: NetworkingComponent) -> Seq<char> {
    match c {
        NetworkingComponent::LoadBalancer => "LoadBalancer"@,
        NetworkingComponent::ApiGateway => "ApiGateway"@,
        NetworkingComponent::Cdn => "Cdn"@,
        NetworkingComponent::Dns => "Dns"@,
        NetworkingComponent::Firewall => "Firewall"@,
        NetworkingComponent::Vpn => "Vpn"@,
        NetworkingComponent::ServiceMesh => "ServiceMesh"@,
        NetworkingComponent::ReverseProxy => "ReverseProxy"@,
    }
}

proof fn lemma_networking_named(c: NetworkingComponent, s: Seq<char>)
    ensures
        networking_named(networking_text(c)) == Some(c),
        networking_named(s) == Some(c) ==> s == networking_text(c),
{
        reveal_strlit("LoadBalancer");
        reveal_strlit("ApiGateway");
        reveal_strlit("Cdn");
        reveal_strlit("Dns");
        reveal_strlit("Firewall");
        reveal_strlit("Vpn");
        reveal_strlit("ServiceMesh");
        reveal_strlit("ReverseProxy");
        assert("ApiGateway"@.len() != "LoadBalancer"@.len());
        assert("Cdn"@.len() != "LoadBalancer"@.len());
        assert("Cdn"@.len() != "ApiGateway"@.len());
        assert("Dns"@.len() != "LoadBalancer"@.len());
        assert("Dns"@.len() != "ApiGateway"@.len());
        assert("Dns"@[0] != "Cdn"@[0]);
        assert("Firewall"@.len() != "LoadBalancer"@.len());
        assert("Firewall"@.len() != "ApiGateway"@.len());
        assert("Firewall"@.len() != "Cdn"@.len());
        assert("Firewall"@.len() != "Dns"@.len());
        assert("Vpn"@.len() != "LoadBalancer"@.len());
        assert("Vpn"@.len() != "ApiGateway"@.len());
        assert("Vpn"@[0] != "Cdn"@[0]);
        assert("Vpn"@[0] != "Dns"@[0]);
        assert("Vpn"@.len() != "Firewall"@.len());
        assert("ServiceMesh"@.len() != "LoadBalancer"@.len());
        assert("ServiceMesh"@.len() != "ApiGateway"@.len());
        assert("ServiceMesh"@.len() != "Cdn"@.len());
        assert("ServiceMesh"@.len() != "Dns"@.len());
        assert("ServiceMesh"@.len() != "Firewall"@.len());
        assert("ServiceMesh"@.len() != "Vpn"@.len());
        assert("ReverseProxy"@[0] != "LoadBalancer"@[0]);
        assert("ReverseProxy"@.len() != "ApiGateway"@.len());
        assert("ReverseProxy"@.len() != "Cdn"@.len());
        assert("ReverseProxy"@.len() != "Dns"@.len());
        assert("ReverseProxy"@.len() != "Firewall"@.len());
        assert("ReverseProxy"@.len() != "Vpn"@.len());
        assert("ReverseProxy"@.len() != "ServiceMesh"@.len());
}

fn networking_name(c: &NetworkingComponent) -> (s: &'static str)
    ensures
        s@ == networking_text(*c),
        networking_named(s@) == Some(*c),
{
    proof {
        lemma_networking_named(*c, networking_text(*c));
    }
    match c {
        NetworkingComponent::LoadBalancer => "LoadBalancer",
        NetworkingComponent::ApiGateway => "ApiGateway",
        NetworkingComponent::Cdn => "Cdn",
        NetworkingComponent::Dns => "Dns",
        NetworkingComponent::Firewall => "Firewall",
        NetworkingComponent::Vpn => "Vpn",
        NetworkingComponent::ServiceMesh => "ServiceMesh",
        NetworkingComponent::ReverseProxy => "ReverseProxy",
    }
}

/// The name of a DataComponent variant.
pub open spec fn data_text(c: DataComponent) -> Seq<char> {
    match c {
        DataComponent::RelationalDb => "RelationalDb"@,
        DataComponent::DocumentDb => "DocumentDb"@,
        DataComponent::KeyValueStore => "KeyValueStore"@,
        DataComponent::GraphDb => "GraphDb"@,
        DataComponent::DataWarehouse => "DataWarehouse"@,
        DataComponent::SearchEngine => "SearchEngine"@,
        DataComponent::TimeSeriesDb => "TimeSeriesDb"@,
    }
}

proof fn lemma_data_named(c: DataComponent, s: Seq<char>)
    ensures
        data_named(data_text(c)) == Some(c),
        data_named(s) == Some(c) ==> s == data_text(c),
{
        reveal_strlit("RelationalDb");
        reveal_strlit("DocumentDb");
        reveal_strlit("KeyValueStore");
        reveal_strlit("GraphDb");
        reveal_strlit("DataWarehouse");
        reveal_strlit("SearchEngine");
        reveal_strlit("TimeSeriesDb");
        assert("DocumentDb"@.len() != "RelationalDb"@.len());
        assert("KeyValueStore"@.len() != "RelationalDb"@.len());
        assert("KeyValueStore"@.len() != "DocumentDb"@.len());
        assert("GraphDb"@.len() != "RelationalDb"@.len());
        assert("GraphDb"@.len() != "DocumentDb"@.len());
        assert("GraphDb"@.len() != "KeyValueStore"@.len());
        assert("DataWarehouse"@.len() != "RelationalDb"@.len());
        assert("DataWarehouse"@.len() != "DocumentDb"@.len());
        assert("DataWarehouse"@[0] != "KeyValueStore"@[0]);
        assert("DataWarehouse"@.len() != "GraphDb"@.len());
        assert("SearchEngine"@[0] != "RelationalDb"@[0]);
        assert("SearchEngine"@.len() != "DocumentDb"@.len());
        assert("SearchEngine"@.len() != "KeyValueStore"@.len());
        assert("SearchEngine"@.len() != "GraphDb"@.len());
        assert("SearchEngine"@.len() != "DataWarehouse"@.len());
        assert("TimeSeriesDb"@[0] != "RelationalDb"@[0]);
        assert("TimeSeriesDb"@.len() != "DocumentDb"@.len());
        assert("TimeSeriesDb"@.len() != "KeyValueStore"@.len());
        assert("TimeSeriesDb"@.len() != "GraphDb"@.len());
        assert("TimeSeriesDb"@.len() != "DataWarehouse"@.len());
        assert("TimeSeriesDb"@[0] != "SearchEngine"@[0]);
}

fn data_name(c: &DataComponent) -> (s: &'static str)
    ensures
        s@ == data_text(*c),
        data_named(s@) == Some(*c),
{
    proof {
        lemma_data_named(*c, data_text(*c));
    }
    match c {
        DataComponent::RelationalDb => "RelationalDb",
        DataComponent::DocumentDb => "DocumentDb",
        DataComponent::KeyValueStore => "KeyValueStore",
        DataComponent::GraphDb => "GraphDb",
        DataComponent::DataWarehouse => "DataWarehouse",
        DataComponent::SearchEngine => "SearchEngine",
        DataComponent::TimeSeriesDb => "TimeSeriesDb",
    }
}

/// The name of a CachingComponent variant.
pub open spec fn caching_text(c: CachingComponent) -> Seq<char> {
    match c {
        CachingComponent::Cache => "Cache"@,
        CachingComponent::SessionStore => "SessionStore"@,
    }
}

proof fn lemma_caching_named(c: CachingComponent, s: Seq<char>)
    ensures
        caching_named(caching_text(c)) == Some(c),
        caching_named(s) == Some(c) ==> s == caching_text(c),
{
        reveal_strlit("Cache");
        reveal_strlit("SessionStore");
        assert("SessionStore"@.len() != "Cache"@.len());

}

fn caching_name(c: &CachingComponent) -> (s: &'static str)
    ensures
        s@ == caching_text(*c),
        caching_named(s@) == Some(*c),
{
    proof {
        lemma_caching_named(*c, caching_text(*c));
    }
    match c {
        CachingComponent::Cache => "Cache",
        CachingComponent::SessionStore => "SessionStore",
    }
}

/// The name of a MessagingComponent variant.
pub open spec fn messaging_text(c: MessagingComponent) -> Seq<char> {
    match c {
        MessagingComponent::MessageQueue => "MessageQueue"@,
        MessagingComponent::EventBus => "EventBus"@,
        MessagingComponent::PubSub => "PubSub"@,
        MessagingComponent::StreamProcessor => "StreamProcessor"@,
        MessagingComponent::JobBroker => "JobBroker"@,
    }
}

proof fn lemma_messaging_named(c: MessagingComponent, s: Seq<char>)
    ensures
        messaging_named(messaging_text(c)) == Some(c),
        messaging_named(s) == Some(c) ==> s == messaging_text(c),
{
        reveal_strlit("MessageQueue");
        reveal_strlit("EventBus");
        reveal_strlit("PubSub");
        reveal_strlit("StreamProcessor");
        reveal_strlit("JobBroker");
        assert("EventBus"@.len() != "MessageQueue"@.len());
        assert("PubSub"@.len() != "MessageQueue"@.len());
        assert("PubSub"@.len() != "EventBus"@.len());
        assert("StreamProcessor"@.len() != "MessageQueue"@.len());
        assert("StreamProcessor"@.len() != "EventBus"@.len());
        assert("StreamProcessor"@.len() != "PubSub"@.len());
        assert("JobBroker"@.len() != "MessageQueue"@.len());
        assert("JobBroker"@.len() != "EventBus"@.len());
        assert("JobBroker"@.len() != "PubSub"@.len());
        assert("JobBroker"@.len() != "StreamProcessor"@.len());

}

fn messaging_name(c: &MessagingComponent) -> (s: &'static str)
    ensures
        s@ == messaging_text(*c),
        messaging_named(s@) == Some(*c),
{
    proof {
        lemma_messaging_named(*c, messaging_text(*c));
    }
    match c {
        MessagingComponent::MessageQueue => "MessageQueue",
        MessagingComponent::EventBus => "EventBus",
        MessagingComponent::PubSub => "PubSub",
        MessagingComponent::StreamProcessor => "StreamProcessor",
        MessagingComponent::JobBroker => "JobBroker",
    }
}

/// The name of a StorageComponent variant.
pub open spec fn storage_text(c: StorageComponent) -> Seq<char> {
    match c {
        StorageComponent::ObjectStorage => "ObjectStorage"@,
        StorageComponent::BlockStorage => "BlockStorage"@,
        StorageComponent::FileStorage => "FileStorage"@,
    }
}

proof fn lemma_storage_named(c: StorageComponent, s: Seq<char>)
    ensures
        storage_named(storage_text(c)) == Some(c),
        storage_named(s) == Some(c) ==> s == storage_text(c),
{
        reveal_strlit("ObjectStorage");
        reveal_strlit("BlockStorage");
        reveal_strlit("FileStorage");
        assert("BlockStorage"@.len() != "ObjectStorage"@.len());
        assert("FileStorage"@.len() != "ObjectStorage"@.len());
        assert("FileStorage"@.len() != "BlockStorage"@.len());

}

fn storage_name(c: &StorageComponent) -> (s: &'static str)
    ensures
        s@ == storage_text(*c),
        storage_named(s@) == Some(*c),
{
    proof {
        lemma_storage_named(*c, storage_text(*c));
    }
    match c {
        StorageComponent::ObjectStorage => "ObjectStorage",
        StorageComponent::BlockStorage => "BlockStorage",
        StorageComponent::FileStorage => "FileStorage",
    }
}

/// The name of a SecurityComponent variant.
pub open spec fn security_text(c: SecurityComponent) -> Seq<char> {
    match c {
        SecurityComponent::IdentityProvider => "IdentityProvider"@,
        SecurityComponent::SecretManager => "SecretManager"@,
        SecurityComponent::CertificateManager => "CertificateManager"@,
        SecurityComponent::Waf => "Waf"@,
    }
}

proof fn lemma_security_named(c: SecurityComponent, s: Seq<char>)
    ensures
        security_named(security_text(c)) == Some(c),
        security_named(s) == Some(c) ==> s == security_text(c),
{
        reveal_strlit("IdentityProvider");
        reveal_strlit("SecretManager");
        reveal_strlit("CertificateManager");
        reveal_strlit("Waf");
        assert("SecretManager"@.len() != "IdentityProvider"@.len());
        assert("CertificateManager"@.len() != "IdentityProvider"@.len());
        assert("CertificateManager"@.len() != "SecretManager"@.len());
        assert("Waf"@.len() != "IdentityProvider"@.len());
        assert("Waf"@.len() != "SecretManager"@.len());
        assert("Waf"@.len() != "CertificateManager"@.len());

}

fn security_name(c: &SecurityComponent) -> (s: &'static str)
    ensures
        s@ == security_text(*c),
        security_named(s@) == Some(*c),
{
    proof {
        lemma_security_named(*c, security_text(*c));
    }
    match c {
        SecurityComponent::IdentityProvider => "IdentityProvider",
        SecurityComponent::SecretManager => "SecretManager",
        SecurityComponent::CertificateManager => "CertificateManager",
        SecurityComponent::Waf => "Waf",
    }
}

/// The name of a ObservabilityComponent variant.
pub open spec fn observability_text(c: ObservabilityComponent) -> Seq<char> {
    match c {
        ObservabilityComponent::Logging => "Logging"@,
        ObservabilityComponent::Monitoring => "Monitoring"@,
        ObservabilityComponent::Tracing => "Tracing"@,
        ObservabilityComponent::Alerting => "Alerting"@,
    }
}

proof fn lemma_observability_named(c: ObservabilityComponent, s: Seq<char>)
    ensures
        observability_named(observability_text(c)) == Some(c),
        observability_named(s) == Some(c) ==> s == observability_text(c),
{
        reveal_strlit("Logging");
        reveal_strlit("Monitoring");
        reveal_strlit("Tracing");
        reveal_strlit("Alerting");
        assert("Monitoring"@.len() != "Logging"@.len());
        assert("Tracing"@[0] != "Logging"@[0]);
        assert("Tracing"@.len() != "Monitoring"@.len());
        assert("Alerting"@.len() != "Logging"@.len());
        assert("Alerting"@.len() != "Monitoring"@.len());
        assert("Alerting"@.len() != "Tracing"@.len());
}

fn observability_name(c: &ObservabilityComponent) -> (s: &'static str)
    ensures
        s@ == observability_text(*c),
        observability_named(s@) == Some(*c),
{
    proof {
        lemma_observability_named(*c, observability_text(*c));
    }
    match c {
        ObservabilityComponent::Logging => "Logging",
        ObservabilityComponent::Monitoring => "Monitoring",
        ObservabilityComponent::Tracing => "Tracing",
        ObservabilityComponent::Alerting => "Alerting",
    }
}

/// The name of a GroupType variant.
pub open spec fn group_text(c: GroupType) -> Seq<char> {
    match c {
        GroupType::NetworkBoundary => "NetworkBoundary"@,
        GroupType::AvailabilityZone => "AvailabilityZone"@,
        GroupType::Region => "Region"@,
        GroupType::ServiceCluster => "ServiceCluster"@,
        GroupType::Custom => "Custom"@,
    }
}

proof fn lemma_group_named(c: GroupType, s: Seq<char>)
    ensures
        group_named(group_text(c)) == Some(c),
        group_named(s) == Some(c) ==> s == group_text(c),
{
        reveal_strlit("NetworkBoundary");
        reveal_strlit("AvailabilityZone");
        reveal_strlit("Region");
        reveal_strlit("ServiceCluster");
        reveal_strlit("Custom");
        assert("AvailabilityZone"@.len() != "NetworkBoundary"@.len());
        assert("Region"@.len() != "NetworkBoundary"@.len());
        assert("Region"@.len() != "AvailabilityZone"@.len());
        assert("ServiceCluster"@.len() != "NetworkBoundary"@.len());
        assert("ServiceCluster"@.len() != "AvailabilityZone"@.len());
        assert("ServiceCluster"@.len() != "Region"@.len());
        assert("Custom"@.len() != "NetworkBoundary"@.len());
        assert("Custom"@.len() != "AvailabilityZone"@.len());
        assert("Custom"@[0] != "Region"@[0]);
        assert("Custom"@.len() != "ServiceCluster"@.len());
}

fn group_name(c: &GroupType) -> (s: &'static str)
    ensures
        s@ == group_text(*c),
        group_named(s@) == Some(*c),
{
    proof {
        lemma_group_named(*c, group_text(*c));
    }
    match c {
        GroupType::NetworkBoundary => "NetworkBoundary",
        GroupType::AvailabilityZone => "AvailabilityZone",
        GroupType::Region => "Region",
        GroupType::ServiceCluster => "ServiceCluster",
        GroupType::Custom => "Custom",
    }
}

/// The name of a node type's component, as `parse_node_type` reads it.
pub fn component_name(t: &NodeType) -> (s: &'static str)
    ensures
        s@ == component_of(*t),
        node_type_named(category_of(*t), s@) == Some(*t),
{
    proof {
        lemma_node_type_named(*t, category_of(*t), component_of(*t));
    }
    match t {
        NodeType::Compute(c) => compute_name(c),
        NodeType::Networking(c) => networking_name(c),
        NodeType::Data(c) => data_name(c),
        NodeType::Caching(c) => caching_name(c),
        NodeType::Messaging(c) => messaging_name(c),
        NodeType::Storage(c) => storage_name(c),
        NodeType::Security(c) => security_name(c),
        NodeType::Observability(c) => observability_name(c),
        NodeType::Group(c) => group_name(c),
    }
}


/// The component name of a node type.
pub open spec fn component_of(t: NodeType) -> Seq<char> {
    match t {
        NodeType::Compute(c) => compute_text(c),
        NodeType::Networking(c) => networking_text(c),
        NodeType::Data(c) => data_text(c),
        NodeType::Caching(c) => caching_text(c),
        NodeType::Messaging(c) => messaging_text(c),
        NodeType::Storage(c) => storage_text(c),
        NodeType::Security(c) => security_text(c),
        NodeType::Observability(c) => observability_text(c),
        NodeType::Group(c) => group_text(c),
    }
}

proof fn lemma_node_type_named(t: NodeType, cat: Seq<char>, comp: Seq<char>)
    ensures
        node_type_named(category_of(t), component_of(t)) == Some(t),
        node_type_named(cat, comp) == Some(t) ==> cat == category_of(t) && comp == component_of(t),
{
        reveal_strlit("Compute");
        reveal_strlit("Networking");
        reveal_strlit("Data");
        reveal_strlit("Caching");
        reveal_strlit("Messaging");
        reveal_strlit("Storage");
        reveal_strlit("Security");
        reveal_strlit("Observability");
        reveal_strlit("Group");
        assert("Networking"@.len() != "Compute"@.len());
        assert("Data"@.len() != "Compute"@.len());
        assert("Data"@.len() != "Networking"@.len());
        assert("Caching"@[1] != "Compute"@[1]);
        assert("Caching"@.len() != "Networking"@.len());
        assert("Caching"@.len() != "Data"@.len());
        assert("Messaging"@.len() != "Compute"@.len());
        assert("Messaging"@.len() != "Networking"@.len());
        assert("Messaging"@.len() != "Data"@.len());
        assert("Messaging"@.len() != "Caching"@.len());
        assert("Storage"@[0] != "Compute"@[0]);
        assert("Storage"@.len() != "Networking"@.len());
        assert("Storage"@.len() != "Data"@.len());
        assert("Storage"@[0] != "Caching"@[0]);
        assert("Storage"@.len() != "Messaging"@.len());
        assert("Security"@.len() != "Compute"@.len());
        assert("Security"@.len() != "Networking"@.len());
        assert("Security"@.len() != "Data"@.len());
        assert("Security"@.len() != "Caching"@.len());
        assert("Security"@.len() != "Messaging"@.len());
        assert("Security"@.len() != "Storage"@.len());
        assert("Observability"@.len() != "Compute"@.len());
        assert("Observability"@.len() != "Networking"@.len());
        assert("Observability"@.len() != "Data"@.len());
        assert("Observability"@.len() != "Caching"@.len());
        assert("Observability"@.len() != "Messaging"@.len());
        assert("Observability"@.len() != "Storage"@.len());
        assert("Observability"@.len() != "Security"@.len());
        assert("Group"@.len() != "Compute"@.len());
        assert("Group"@.len() != "Networking"@.len());
        assert("Group"@.len() != "Data"@.len());
        assert("Group"@.len() != "Caching"@.len());
        assert("Group"@.len() != "Messaging"@.len());
        assert("Group"@.len() != "Storage"@.len());
        assert("Group"@.len() != "Security"@.len());
        assert("Group"@.len() != "Observability"@.len());
    match t {
        NodeType::Compute(c) => lemma_compute_named(c, comp),
        NodeType::Networking(c) => lemma_networking_named(c, comp),
        NodeType::Data(c) => lemma_data_named(c, comp),
        NodeType::Caching(c) => lemma_caching_named(c, comp),
        NodeType::Messaging(c) => lemma_messaging_named(c, comp),
        NodeType::Storage(c) => lemma_storage_named(c, comp),
        NodeType::Security(c) => lemma_security_named(c, comp),
        NodeType::Observability(c) => lemma_observability_named(c, comp),
        NodeType::Group(c) => lemma_group_named(c, comp),
    }
}

/// One of the nine category names.
pub open spec fn is_category_name(cat: Seq<char>) -> bool {
    ||| cat == "Compute"@
    ||| cat == "Networking"@
    ||| cat == "Data"@
    ||| cat == "Caching"@
    ||| cat == "Messaging"@
    ||| cat == "Storage"@
    ||| cat == "Security"@
    ||| cat == "Observability"@
    ||| cat == "Group"@
}

/// A category and component name stand for a node type exactly when they
/// are that type's own category and component names (compared case by
/// case), so every node type is read back from its names and no other pair
/// of names is accepted.
pub proof fn law_node_type_names(cat: Seq<char>, comp: Seq<char>, t: NodeType)
    ensures
        node_type_named(cat, comp) == Some(t) <==> (cat == category_of(t) && comp == component_of(t)),
        node_type_named(cat, comp) is None <==> !(exists|u: NodeType|
            cat == category_of(u) && comp == #[trigger] component_of(u)),
{
    lemma_node_type_named(t, cat, comp);
    if node_type_named(cat, comp) is Some {
        let u = node_type_named(cat, comp).unwrap();
        lemma_node_type_named(u, cat, comp);
    }
    if exists|u: NodeType| cat == category_of(u) && comp == #[trigger] component_of(u) {
        let u = choose|u: NodeType| cat == category_of(u) && comp == #[trigger] component_of(u);
        lemma_node_type_named(u, cat, comp);
    }
}

/// A pair of names that stands for no node type is reported as an unknown
/// component of its category when the category is one of the nine names,
/// else as an unknown category.
pub proof fn law_node_type_error(cat: Seq<char>, comp: Seq<char>)
    ensures
        node_type_error(cat, comp) == (if is_category_name(cat) {
            "Unknown "@ + cat + " component: "@ + comp
        } else {
            "Unknown category: "@ + cat
        }),
{
    reveal_strlit("Unknown ");
    reveal_strlit(" component: ");
        reveal_strlit("Compute");
        reveal_strlit("Networking");
        reveal_strlit("Data");
        reveal_strlit("Caching");
        reveal_strlit("Messaging");
        reveal_strlit("Storage");
        reveal_strlit("Security");
        reveal_strlit("Observability");
        reveal_strlit("Group");
        assert("Networking"@.len() != "Compute"@.len());
        assert("Data"@.len() != "Compute"@.len());
        assert("Data"@.len() != "Networking"@.len());
        assert("Caching"@[1] != "Compute"@[1]);
        assert("Caching"@.len() != "Networking"@.len());
        assert("Caching"@.len() != "Data"@.len());
        assert("Messaging"@.len() != "Compute"@.len());
        assert("Messaging"@.len() != "Networking"@.len());
        assert("Messaging"@.len() != "Data"@.len());
        assert("Messaging"@.len() != "Caching"@.len());
        assert("Storage"@[0] != "Compute"@[0]);
        assert("Storage"@.len() != "Networking"@.len());
        assert("Storage"@.len() != "Data"@.len());
        assert("Storage"@[0] != "Caching"@[0]);
        assert("Storage"@.len() != "Messaging"@.len());
        assert("Security"@.len() != "Compute"@.len());
        assert("Security"@.len() != "Networking"@.len());
        assert("Security"@.len() != "Data"@.len());
        assert("Security"@.len() != "Caching"@.len());
        assert("Security"@.len() != "Messaging"@.len());
        assert("Security"@.len() != "Storage"@.len());
        assert("Observability"@.len() != "Compute"@.len());
        assert("Observability"@.len() != "Networking"@.len());
        assert("Observability"@.len() != "Data"@.len());
        assert("Observability"@.len() != "Caching"@.len());
        assert("Observability"@.len() != "Messaging"@.len());
        assert("Observability"@.len() != "Storage"@.len());
        assert("Observability"@.len() != "Security"@.len());
        assert("Group"@.len() != "Compute"@.len());
        assert("Group"@.len() != "Networking"@.len());
        assert("Group"@.len() != "Data"@.len());
        assert("Group"@.len() != "Caching"@.len());
        assert("Group"@.len() != "Messaging"@.len());
        assert("Group"@.len() != "Storage"@.len());
        assert("Group"@.len() != "Security"@.len());
        assert("Group"@.len() != "Observability"@.len());
    reveal_strlit("Unknown Compute component: ");
    reveal_strlit("Unknown Networking component: ");
    reveal_strlit("Unknown Data component: ");
    reveal_strlit("Unknown Caching component: ");
    reveal_strlit("Unknown Messaging component: ");
    reveal_strlit("Unknown Storage component: ");
    reveal_strlit("Unknown Security component: ");
    reveal_strlit("Unknown Observability component: ");
    reveal_strlit("Unknown Group component: ");
    if is_category_name(cat) {
        assert(node_type_error(cat, comp) =~= "Unknown "@ + cat + " component: "@ + comp);
    }
}

} // verus!

use vstd::prelude::*;
use vstd::string::*;
use crate::entities::node::{
    is_group, CachingComponent, ComputeComponent, DataComponent, MessagingComponent,
    NetworkingComponent, NodeType, ObservabilityComponent, SecurityComponent, StorageComponent,
};

verus! {

/// The container image and settings that stand for a generic node type in a
/// Docker Compose file.
pub struct DockerServiceMapping {
    pub generic_type: NodeType,
    pub image: String,
    pub default_ports: Vec<String>,
    pub environment: Vec<(String, String)>,
    pub volumes: Vec<String>,
    pub is_placeholder: bool,
}

pub struct DockerMappingView {
    pub generic_type: NodeType,
    pub image: Seq<char>,
    pub default_ports: Seq<Seq<char>>,
    pub environment: Seq<(Seq<char>, Seq<char>)>,
    pub volumes: Seq<Seq<char>>,
    pub is_placeholder: bool,
}

pub open spec fn strings_view(s: Seq<String>) -> Seq<Seq<char>> {
    s.map_values(|x: String| x@)
}

pub open spec fn pairs_view(s: Seq<(String, String)>) -> Seq<(Seq<char>, Seq<char>)> {
    s.map_values(|x: (String, String)| (x.0@, x.1@))
}

impl View for DockerServiceMapping {
    type V = DockerMappingView;

    open spec fn view(&self) -> DockerMappingView {
        DockerMappingView {
            generic_type: self.generic_type,
            image: self.image@,
            default_ports: strings_view(self.default_ports@),
            environment: pairs_view(self.environment@),
            volumes: strings_view(self.volumes@),
            is_placeholder: self.is_placeholder,
        }
    }
}

pub open spec fn opt_docker_view(o: Option<DockerServiceMapping>) -> Option<DockerMappingView> {
    match o {
        Some(m) => Some(m@),
        None => None,
    }
}

pub open spec fn docker_view(
    t: NodeType,
    image: Seq<char>,
    ports: Seq<Seq<char>>,
    env: Seq<(Seq<char>, Seq<char>)>,
    volumes: Seq<Seq<char>>,
    is_placeholder: bool,
) -> DockerMappingView {
    DockerMappingView {
        generic_type: t,
        image,
        default_ports: ports,
        environment: env,
        volumes,
        is_placeholder,
    }
}

pub fn strs_to_strings(v: Vec<&str>) -> (r: Vec<String>)
    ensures
        strings_view(r@) == v@.map_values(|s: &str| s@),
{
    let mut r: Vec<String> = Vec::new();
    let mut i: usize = 0;
    while i < v.len()
        invariant
            i <= v.len(),
            r@.len() == i,
            forall|j: int| 0 <= j < i ==> r@[j]@ == v@[j]@,
        decreases v.len() - i,
    {
        r.push(String::from_str(v[i]));
        i = i + 1;
    }
    assert(strings_view(r@) =~= v@.map_values(|s: &str| s@));
    r
}

pub fn str_pairs_to_strings(v: Vec<(&str, &str)>) -> (r: Vec<(String, String)>)
    ensures
        pairs_view(r@) == v@.map_values(|p: (&str, &str)| (p.0@, p.1@)),
{
    let mut r: Vec<(String, String)> = Vec::new();
    let mut i: usize = 0;
    while i < v.len()
        invariant
            i <= v.len(),
            r@.len() == i,
            forall|j: int| 0 <= j < i ==> r@[j].0@ == v@[j].0@ && r@[j].1@ == v@[j].1@,
        decreases v.len() - i,
    {
        let (k, val) = v[i];
        r.push((String::from_str(k), String::from_str(val)));
        i = i + 1;
    }
    assert(pairs_view(r@) =~= v@.map_values(|p: (&str, &str)| (p.0@, p.1@)));
    r
}

/// Builds one catalog entry.
pub fn d(
    generic_type: NodeType,
    image: &str,
    ports: Vec<&str>,
    env: Vec<(&str, &str)>,
    volumes: Vec<&str>,
    is_placeholder: bool,
) -> (r: DockerServiceMapping)
    ensures
        r@ == docker_view(
            generic_type,
            image@,
            ports@.map_values(|s: &str| s@),
            env@.map_values(|p: (&str, &str)| (p.0@, p.1@)),
            volumes@.map_values(|s: &str| s@),
            is_placeholder,
        ),
{
    DockerServiceMapping {
        generic_type,
        image: String::from_str(image),
        default_ports: strs_to_strings(ports),
        environment: str_pairs_to_strings(env),
        volumes: strs_to_strings(volumes),
        is_placeholder,
    }
}

/// The Docker stand-in of each service type; group nodes have none.
pub open spec fn docker_mapping_for(t: NodeType) -> Option<DockerMappingView> {
    match t {
        NodeType::Compute(ComputeComponent::ApplicationServer) => Some(docker_view(t, "node:20-alpine"@, seq!["3000:3000"@], seq![], seq![], false)),
        NodeType::Compute(ComputeComponent::Worker) => Some(docker_view(t, "node:20-alpine"@, seq![], seq![], seq![], false)),
        NodeType::Compute(ComputeComponent::Function) => Some(docker_view(t, "openfaas/classic-watchdog:latest"@, seq!["8080:8080"@], seq![("fprocess"@, "./handler"@)], seq![], false)),
        NodeType::Compute(ComputeComponent::Container) => Some(docker_view(t, "docker:dind"@, seq!["2376:2376"@], seq![("DOCKER_TLS_CERTDIR"@, ""@)], seq!["/var/run/docker.sock:/var/run/docker.sock"@], false)),
        NodeType::Compute(ComputeComponent::VirtualMachine) => Some(docker_view(t, "alpine:latest"@, seq![], seq![], seq![], true)),
        NodeType::Compute(ComputeComponent::Scheduler) => Some(docker_view(t, "mcuadros/ofelia:latest"@, seq![], seq![], seq!["/var/run/docker.sock:/var/run/docker.sock"@], false)),
        NodeType::Networking(NetworkingComponent::LoadBalancer) => Some(docker_view(t, "nginx:alpine"@, seq!["80:80"@, "443:443"@], seq![], seq![], false)),
        NodeType::Networking(NetworkingComponent::ApiGateway) => Some(docker_view(t, "kong:latest"@, seq!["8000:8000"@, "8443:8443"@], seq![("KONG_DATABASE"@, "off"@), ("KONG_PROXY_ACCESS_LOG"@, "/dev/stdout"@)], seq![], false)),
        NodeType::Networking(NetworkingComponent::Cdn) => Some(docker_view(t, "nginx:alpine"@, seq!["80:80"@], seq![], seq![], true)),
        NodeType::Networking(NetworkingComponent::Dns) => Some(docker_view(t, "coredns/coredns:latest"@, seq!["53:53/udp"@, "53:53/tcp"@], seq![], seq![], false)),
        NodeType::Networking(NetworkingComponent::Firewall) => Some(docker_view(t, "alpine:latest"@, seq![], seq![], seq![], true)),
        NodeType::Networking(NetworkingComponent::Vpn) => Some(docker_view(t, "kylemanna/openvpn:latest"@, seq!["1194:1194/udp"@], seq![], seq![], false)),
        NodeType::Networking(NetworkingComponent::ServiceMesh) => Some(docker_view(t, "envoyproxy/envoy:v1.28-latest"@, seq!["9901:9901"@, "10000:10000"@], seq![], seq![], false)),
        NodeType::Networking(NetworkingComponent::ReverseProxy) => Some(docker_view(t, "traefik:v3.0"@, seq!["80:80"@, "8080:8080"@], seq![], seq![], false)),
        NodeType::Data(DataComponent::RelationalDb) => Some(docker_view(t, "postgres:16-alpine"@, seq!["5432:5432"@], seq![("POSTGRES_PASSWORD"@, "changeme"@), ("POSTGRES_DB"@, "app"@)], seq!["pgdata:/var/lib/postgresql/data"@], false)),
        NodeType::Data(DataComponent::DocumentDb) => Some(docker_view(t, "mongo:7"@, seq!["27017:27017"@], seq![], seq!["mongodata:/data/db"@], false)),
        NodeType::Data(DataComponent::KeyValueStore) => Some(docker_view(t, "redis:7-alpine"@, seq!["6379:6379"@], seq![], seq![], false)),
        NodeType::Data(DataComponent::GraphDb) => Some(docker_view(t, "neo4j:5"@, seq!["7474:7474"@, "7687:7687"@], seq![("NEO4J_AUTH"@, "neo4j/changeme"@)], seq!["neo4jdata:/data"@], false)),
        NodeType::Data(DataComponent::DataWarehouse) => Some(docker_view(t, "clickhouse/clickhouse-server:latest"@, seq!["8123:8123"@, "9000:9000"@], seq![], seq!["chdata:/var/lib/clickhouse"@], false)),
        NodeType::Data(DataComponent::SearchEngine) => Some(docker_view(t, "elasticsearch:8.12.0"@, seq!["9200:9200"@], seq![("discovery.type"@, "single-node"@), ("xpack.security.enabled"@, "false"@)], seq!["esdata:/usr/share/elasticsearch/data"@], false)),
        NodeType::Data(DataComponent::TimeSeriesDb) => Some(docker_view(t, "timescale/timescaledb:latest-pg16"@, seq!["5432:5432"@], seq![("POSTGRES_PASSWORD"@, "changeme"@)], seq!["tsdata:/var/lib/postgresql/data"@], false)),
        NodeType::Caching(CachingComponent::Cache) => Some(docker_view(t, "redis:7-alpine"@, seq!["6379:6379"@], seq![], seq![], false)),
        NodeType::Caching(CachingComponent::SessionStore) => Some(docker_view(t, "redis:7-alpine"@, seq!["6380:6379"@], seq![], seq![], false)),
        NodeType::Messaging(MessagingComponent::MessageQueue) => Some(docker_view(t, "rabbitmq:3-management-alpine"@, seq!["5672:5672"@, "15672:15672"@], seq![], seq![], false)),
        NodeType::Messaging(MessagingComponent::EventBus) => Some(docker_view(t, "nats:latest"@, seq!["4222:4222"@, "8222:8222"@], seq![], seq![], false)),
        NodeType::Messaging(MessagingComponent::PubSub) => Some(docker_view(t, "nats:latest"@, seq!["4222:4222"@], seq![], seq![], false)),
        NodeType::Messaging(MessagingComponent::StreamProcessor) => Some(docker_view(t, "apache/kafka:latest"@, seq!["9092:9092"@], seq![("KAFKA_NODE_ID"@, "1"@), ("KAFKA_PROCESS_ROLES"@, "broker,controller"@), ("KAFKA_CONTROLLER_QUORUM_VOTERS"@, "1@localhost:9093"@), ("KAFKA_LISTENERS"@, "PLAINTEXT://:9092,CONTROLLER://:9093"@)], seq![], false)),
        NodeType::Messaging(MessagingComponent::JobBroker) => Some(docker_view(t, "redis:7-alpine"@, seq!["6379:6379"@], seq![], seq![], true)),
        NodeType::Storage(StorageComponent::ObjectStorage) => Some(docker_view(t, "minio/minio:latest"@, seq!["9000:9000"@, "9001:9001"@], seq![("MINIO_ROOT_USER"@, "minioadmin"@), ("MINIO_ROOT_PASSWORD"@, "minioadmin"@)], seq!["miniodata:/data"@], false)),
        NodeType::Storage(StorageComponent::BlockStorage) => Some(docker_view(t, "alpine:latest"@, seq![], seq![], seq![], true)),
        NodeType::Storage(StorageComponent::FileStorage) => Some(docker_view(t, "itsthenetwork/nfs-server-alpine:latest"@, seq!["2049:2049"@], seq![("SHARED_DIRECTORY"@, "/data"@)], seq!["nfsdata:/data"@], false)),
        NodeType::Security(SecurityComponent::IdentityProvider) => Some(docker_view(t, "keycloak/keycloak:latest"@, seq!["8080:8080"@], seq![("KEYCLOAK_ADMIN"@, "admin"@), ("KEYCLOAK_ADMIN_PASSWORD"@, "admin"@)], seq![], false)),
        NodeType::Security(SecurityComponent::SecretManager) => Some(docker_view(t, "hashicorp/vault:latest"@, seq!["8200:8200"@], seq![("VAULT_DEV_ROOT_TOKEN_ID"@, "dev-token"@)], seq![], false)),
        NodeType::Security(SecurityComponent::CertificateManager) => Some(docker_view(t, "smallstep/step-ca:latest"@, seq!["9000:9000"@], seq![], seq![], false)),
        NodeType::Security(SecurityComponent::Waf) => Some(docker_view(t, "owasp/modsecurity-crs:nginx-alpine"@, seq!["80:80"@], seq![], seq![], false)),
        NodeType::Observability(ObservabilityComponent::Logging) => Some(docker_view(t, "grafana/loki:latest"@, seq!["3100:3100"@], seq![], seq![], false)),
        NodeType::Observability(ObservabilityComponent::Monitoring) => Some(docker_view(t, "prom/prometheus:latest"@, seq!["9090:9090"@], seq![], seq!["promdata:/prometheus"@], false)),
        NodeType::Observability(ObservabilityComponent::Tracing) => Some(docker_view(t, "jaegertracing/all-in-one:latest"@, seq!["16686:16686"@, "4317:4317"@], seq![], seq![], false)),
        NodeType::Observability(ObservabilityComponent::Alerting) => Some(docker_view(t, "prom/alertmanager:latest"@, seq!["9093:9093"@], seq![], seq![], false)),
        NodeType::Group(_) => None,
    }
}


/// The catalog entry of a node type, if the type has one.
pub fn docker_mapping_entry(t: &NodeType) -> (r: Option<DockerServiceMapping>)
    ensures
        opt_docker_view(r) == docker_mapping_for(*t),
{
    match t {
        NodeType::Compute(ComputeComponent::ApplicationServer) => {
            let r = d(*t, "node:20-alpine", vec!["3000:3000"], vec![], vec![], false);
            assert(r@.default_ports =~= seq!["3000:3000"@]);
            assert(r@.environment =~= seq![]);
            assert(r@.volumes =~= seq![]);
            Some(r)
        }
        NodeType::Compute(ComputeComponent::Worker) => {
            let r = d(*t, "node:20-alpine", vec![], vec![], vec![], false);
            assert(r@.default_ports =~= seq![]);
            assert(r@.environment =~= seq![]);
            assert(r@.volumes =~= seq![]);
            Some(r)
        }
        NodeType::Compute(ComputeComponent::Function) => {
            let r = d(*t, "openfaas/classic-watchdog:latest", vec!["8080:8080"], vec![("fprocess", "./handler")], vec![], false);
            assert(r@.default_ports =~= seq!["8080:8080"@]);
            assert(r@.environment =~= seq![("fprocess"@, "./handler"@)]);
            assert(r@.volumes =~= seq![]);
            Some(r)
        }
        NodeType::Compute(ComputeComponent::Container) => {
            let r = d(*t, "docker:dind", vec!["2376:2376"], vec![("DOCKER_TLS_CERTDIR", "")], vec!["/var/run/docker.sock:/var/run/docker.sock"], false);
            assert(r@.default_ports =~= seq!["2376:2376"@]);
            assert(r@.environment =~= seq![("DOCKER_TLS_CERTDIR"@, ""@)]);
            assert(r@.volumes =~= seq!["/var/run/docker.sock:/var/run/docker.sock"@]);
            Some(r)
        }
        NodeType::Compute(ComputeComponent::VirtualMachine) => {
            let r = d(*t, "alpine:latest", vec![], vec![], vec![], true);
            assert(r@.default_ports =~= seq![]);
            assert(r@.environment =~= seq![]);
            assert(r@.volumes =~= seq![]);
            Some(r)
        }
        NodeType::Compute(ComputeComponent::Scheduler) => {
            let r = d(*t, "mcuadros/ofelia:latest", vec![], vec![], vec!["/var/run/docker.sock:/var/run/docker.sock"], false);
            assert(r@.default_ports =~= seq![]);
            assert(r@.environment =~= seq![]);
            assert(r@.volumes =~= seq!["/var/run/docker.sock:/var/run/docker.sock"@]);
            Some(r)
        }
        NodeType::Networking(NetworkingComponent::LoadBalancer) => {
            let r = d(*t, "nginx:alpine", vec!["80:80", "443:443"], vec![], vec![], false);
            assert(r@.default_ports =~= seq!["80:80"@, "443:443"@]);
            assert(r@.environment =~= seq![]);
            assert(r@.volumes =~= seq![]);
            Some(r)
        }
        NodeType::Networking(NetworkingComponent::ApiGateway) => {
            let r = d(*t, "kong:latest", vec!["8000:8000", "8443:8443"], vec![("KONG_DATABASE", "off"), ("KONG_PROXY_ACCESS_LOG", "/dev/stdout")], vec![], false);
            assert(r@.default_ports =~= seq!["8000:8000"@, "8443:8443"@]);
            assert(r@.environment =~= seq![("KONG_DATABASE"@, "off"@), ("KONG_PROXY_ACCESS_LOG"@, "/dev/stdout"@)]);
            assert(r@.volumes =~= seq![]);
            Some(r)
        }
        NodeType::Networking(NetworkingComponent::Cdn) => {
            let r = d(*t, "nginx:alpine", vec!["80:80"], vec![], vec![], true);
            assert(r@.default_ports =~= seq!["80:80"@]);
            assert(r@.environment =~= seq![]);
            assert(r@.volumes =~= seq![]);
            Some(r)
        }
        NodeType::Networking(NetworkingComponent::Dns) => {
            let r = d(*t, "coredns/coredns:latest", vec!["53:53/udp", "53:53/tcp"], vec![], vec![], false);
            assert(r@.default_ports =~= seq!["53:53/udp"@, "53:53/tcp"@]);
            assert(r@.environment =~= seq![]);
            assert(r@.volumes =~= seq![]);
            Some(r)
        }
        NodeType::Networking(NetworkingComponent::Firewall) => {
            let r = d(*t, "alpine:latest", vec![], vec![], vec![], true);
            assert(r@.default_ports =~= seq![]);
            assert(r@.environment =~= seq![]);
            assert(r@.volumes =~= seq![]);
            Some(r)
        }
        NodeType::Networking(NetworkingComponent::Vpn) => {
            let r = d(*t, "kylemanna/openvpn:latest", vec!["1194:1194/udp"], vec![], vec![], false);
            assert(r@.default_ports =~= seq!["1194:1194/udp"@]);
            assert(r@.environment =~= seq![]);
            assert(r@.volumes =~= seq![]);
            Some(r)
        }
        NodeType::Networking(NetworkingComponent::ServiceMesh) => {
            let r = d(*t, "envoyproxy/envoy:v1.28-latest", vec!["9901:9901", "10000:10000"], vec![], vec![], false);
            assert(r@.default_ports =~= seq!["9901:9901"@, "10000:10000"@]);
            assert(r@.environment =~= seq![]);
            assert(r@.volumes =~= seq![]);
            Some(r)
        }
        NodeType::Networking(NetworkingComponent::ReverseProxy) => {
            let r = d(*t, "traefik:v3.0", vec!["80:80", "8080:8080"], vec![], vec![], false);
            assert(r@.default_ports =~= seq!["80:80"@, "8080:8080"@]);
            assert(r@.environment =~= seq![]);
            assert(r@.volumes =~= seq![]);
            Some(r)
        }
        NodeType::Data(DataComponent::RelationalDb) => {
            let r = d(*t, "postgres:16-alpine", vec!["5432:5432"], vec![("POSTGRES_PASSWORD", "changeme"), ("POSTGRES_DB", "app")], vec!["pgdata:/var/lib/postgresql/data"], false);
            assert(r@.default_ports =~= seq!["5432:5432"@]);
            assert(r@.environment =~= seq![("POSTGRES_PASSWORD"@, "changeme"@), ("POSTGRES_DB"@, "app"@)]);
            assert(r@.volumes =~= seq!["pgdata:/var/lib/postgresql/data"@]);
            Some(r)
        }
        NodeType::Data(DataComponent::DocumentDb) => {
            let r = d(*t, "mongo:7", vec!["27017:27017"], vec![], vec!["mongodata:/data/db"], false);
            assert(r@.default_ports =~= seq!["27017:27017"@]);
            assert(r@.environment =~= seq![]);
            assert(r@.volumes =~= seq!["mongodata:/data/db"@]);
            Some(r)
        }
        NodeType::Data(DataComponent::KeyValueStore) => {
            let r = d(*t, "redis:7-alpine", vec!["6379:6379"], vec![], vec![], false);
            assert(r@.default_ports =~= seq!["6379:6379"@]);
            assert(r@.environment =~= seq![]);
            assert(r@.volumes =~= seq![]);
            Some(r)
        }
        NodeType::Data(DataComponent::GraphDb) => {
            let r = d(*t, "neo4j:5", vec!["7474:7474", "7687:7687"], vec![("NEO4J_AUTH", "neo4j/changeme")], vec!["neo4jdata:/data"], false);
            assert(r@.default_ports =~= seq!["7474:7474"@, "7687:7687"@]);
            assert(r@.environment =~= seq![("NEO4J_AUTH"@, "neo4j/changeme"@)]);
            assert(r@.volumes =~= seq!["neo4jdata:/data"@]);
            Some(r)
        }
        NodeType::Data(DataComponent::DataWarehouse) => {
            let r = d(*t, "clickhouse/clickhouse-server:latest", vec!["8123:8123", "9000:9000"], vec![], vec!["chdata:/var/lib/clickhouse"], false);
            assert(r@.default_ports =~= seq!["8123:8123"@, "9000:9000"@]);
            assert(r@.environment =~= seq![]);
            assert(r@.volumes =~= seq!["chdata:/var/lib/clickhouse"@]);
            Some(r)
        }
        NodeType::Data(DataComponent::SearchEngine) => {
            let r = d(*t, "elasticsearch:8.12.0", vec!["9200:9200"], vec![("discovery.type", "single-node"), ("xpack.security.enabled", "false")], vec!["esdata:/usr/share/elasticsearch/data"], false);
            assert(r@.default_ports =~= seq!["9200:9200"@]);
            assert(r@.environment =~= seq![("discovery.type"@, "single-node"@), ("xpack.security.enabled"@, "false"@)]);
            assert(r@.volumes =~= seq!["esdata:/usr/share/elasticsearch/data"@]);
            Some(r)
        }
        NodeType::Data(DataComponent::TimeSeriesDb) => {
            let r = d(*t, "timescale/timescaledb:latest-pg16", vec!["5432:5432"], vec![("POSTGRES_PASSWORD", "changeme")], vec!["tsdata:/var/lib/postgresql/data"], false);
            assert(r@.default_ports =~= seq!["5432:5432"@]);
            assert(r@.environment =~= seq![("POSTGRES_PASSWORD"@, "changeme"@)]);
            assert(r@.volumes =~= seq!["tsdata:/var/lib/postgresql/data"@]);
            Some(r)
        }
        NodeType::Caching(CachingComponent::Cache) => {
            let r = d(*t, "redis:7-alpine", vec!["6379:6379"], vec![], vec![], false);
            assert(r@.default_ports =~= seq!["6379:6379"@]);
            assert(r@.environment =~= seq![]);
            assert(r@.volumes =~= seq![]);
            Some(r)
        }
        NodeType::Caching(CachingComponent::SessionStore) => {
            let r = d(*t, "redis:7-alpine", vec!["6380:6379"], vec![], vec![], false);
            assert(r@.default_ports =~= seq!["6380:6379"@]);
            assert(r@.environment =~= seq![]);
            assert(r@.volumes =~= seq![]);
            Some(r)
        }
        NodeType::Messaging(MessagingComponent::MessageQueue) => {
            let r = d(*t, "rabbitmq:3-management-alpine", vec!["5672:5672", "15672:15672"], vec![], vec![], false);
            assert(r@.default_ports =~= seq!["5672:5672"@, "15672:15672"@]);
            assert(r@.environment =~= seq![]);
            assert(r@.volumes =~= seq![]);
            Some(r)
        }
        NodeType::Messaging(MessagingComponent::EventBus) => {
            let r = d(*t, "nats:latest", vec!["4222:4222", "8222:8222"], vec![], vec![], false);
            assert(r@.default_ports =~= seq!["4222:4222"@, "8222:8222"@]);
            assert(r@.environment =~= seq![]);
            assert(r@.volumes =~= seq![]);
            Some(r)
        }
        NodeType::Messaging(MessagingComponent::PubSub) => {
            let r = d(*t, "nats:latest", vec!["4222:4222"], vec![], vec![], false);
            assert(r@.default_ports =~= seq!["4222:4222"@]);
            assert(r@.environment =~= seq![]);
            assert(r@.volumes =~= seq![]);
            Some(r)
        }
        NodeType::Messaging(MessagingComponent::StreamProcessor) => {
            let r = d(*t, "apache/kafka:latest", vec!["9092:9092"], vec![("KAFKA_NODE_ID", "1"), ("KAFKA_PROCESS_ROLES", "broker,controller"), ("KAFKA_CONTROLLER_QUORUM_VOTERS", "1@localhost:9093"), ("KAFKA_LISTENERS", "PLAINTEXT://:9092,CONTROLLER://:9093")], vec![], false);
            assert(r@.default_ports =~= seq!["9092:9092"@]);
            assert(r@.environment =~= seq![("KAFKA_NODE_ID"@, "1"@), ("KAFKA_PROCESS_ROLES"@, "broker,controller"@), ("KAFKA_CONTROLLER_QUORUM_VOTERS"@, "1@localhost:9093"@), ("KAFKA_LISTENERS"@, "PLAINTEXT://:9092,CONTROLLER://:9093"@)]);
            assert(r@.volumes =~= seq![]);
            Some(r)
        }
        NodeType::Messaging(MessagingComponent::JobBroker) => {
            let r = d(*t, "redis:7-alpine", vec!["6379:6379"], vec![], vec![], true);
            assert(r@.default_ports =~= seq!["6379:6379"@]);
            assert(r@.environment =~= seq![]);
            assert(r@.volumes =~= seq![]);
            Some(r)
        }
        NodeType::Storage(StorageComponent::ObjectStorage) => {
            let r = d(*t, "minio/minio:latest", vec!["9000:9000", "9001:9001"], vec![("MINIO_ROOT_USER", "minioadmin"), ("MINIO_ROOT_PASSWORD", "minioadmin")], vec!["miniodata:/data"], false);
            assert(r@.default_ports =~= seq!["9000:9000"@, "9001:9001"@]);
            assert(r@.environment =~= seq![("MINIO_ROOT_USER"@, "minioadmin"@), ("MINIO_ROOT_PASSWORD"@, "minioadmin"@)]);
            assert(r@.volumes =~= seq!["miniodata:/data"@]);
            Some(r)
        }
        NodeType::Storage(StorageComponent::BlockStorage) => {
            let r = d(*t, "alpine:latest", vec![], vec![], vec![], true);
            assert(r@.default_ports =~= seq![]);
            assert(r@.environment =~= seq![]);
            assert(r@.volumes =~= seq![]);
            Some(r)
        }
        NodeType::Storage(StorageComponent::FileStorage) => {
            let r = d(*t, "itsthenetwork/nfs-server-alpine:latest", vec!["2049:2049"], vec![("SHARED_DIRECTORY", "/data")], vec!["nfsdata:/data"], false);
            assert(r@.default_ports =~= seq!["2049:2049"@]);
            assert(r@.environment =~= seq![("SHARED_DIRECTORY"@, "/data"@)]);
            assert(r@.volumes =~= seq!["nfsdata:/data"@]);
            Some(r)
        }
        NodeType::Security(SecurityComponent::IdentityProvider) => {
            let r = d(*t, "keycloak/keycloak:latest", vec!["8080:8080"], vec![("KEYCLOAK_ADMIN", "admin"), ("KEYCLOAK_ADMIN_PASSWORD", "admin")], vec![], false);
            assert(r@.default_ports =~= seq!["8080:8080"@]);
            assert(r@.environment =~= seq![("KEYCLOAK_ADMIN"@, "admin"@), ("KEYCLOAK_ADMIN_PASSWORD"@, "admin"@)]);
            assert(r@.volumes =~= seq![]);
            Some(r)
        }
        NodeType::Security(SecurityComponent::SecretManager) => {
            let r = d(*t, "hashicorp/vault:latest", vec!["8200:8200"], vec![("VAULT_DEV_ROOT_TOKEN_ID", "dev-token")], vec![], false);
            assert(r@.default_ports =~= seq!["8200:8200"@]);
            assert(r@.environment =~= seq![("VAULT_DEV_ROOT_TOKEN_ID"@, "dev-token"@)]);
            assert(r@.volumes =~= seq![]);
            Some(r)
        }
        NodeType::Security(SecurityComponent::CertificateManager) => {
            let r = d(*t, "smallstep/step-ca:latest", vec!["9000:9000"], vec![], vec![], false);
            assert(r@.default_ports =~= seq!["9000:9000"@]);
            assert(r@.environment =~= seq![]);
            assert(r@.volumes =~= seq![]);
            Some(r)
        }
        NodeType::Security(SecurityComponent::Waf) => {
            let r = d(*t, "owasp/modsecurity-crs:nginx-alpine", vec!["80:80"], vec![], vec![], false);
            assert(r@.default_ports =~= seq!["80:80"@]);
            assert(r@.environment =~= seq![]);
            assert(r@.volumes =~= seq![]);
            Some(r)
        }
        NodeType::Observability(ObservabilityComponent::Logging) => {
            let r = d(*t, "grafana/loki:latest", vec!["3100:3100"], vec![], vec![], false);
            assert(r@.default_ports =~= seq!["3100:3100"@]);
            assert(r@.environment =~= seq![]);
            assert(r@.volumes =~= seq![]);
            Some(r)
        }
        NodeType::Observability(ObservabilityComponent::Monitoring) => {
            let r = d(*t, "prom/prometheus:latest", vec!["9090:9090"], vec![], vec!["promdata:/prometheus"], false);
            assert(r@.default_ports =~= seq!["9090:9090"@]);
            assert(r@.environment =~= seq![]);
            assert(r@.volumes =~= seq!["promdata:/prometheus"@]);
            Some(r)
        }
        NodeType::Observability(ObservabilityComponent::Tracing) => {
            let r = d(*t, "jaegertracing/all-in-one:latest", vec!["16686:16686", "4317:4317"], vec![], vec![], false);
            assert(r@.default_ports =~= seq!["16686:16686"@, "4317:4317"@]);
            assert(r@.environment =~= seq![]);
            assert(r@.volumes =~= seq![]);
            Some(r)
        }
        NodeType::Observability(ObservabilityComponent::Alerting) => {
            let r = d(*t, "prom/alertmanager:latest", vec!["9093:9093"], vec![], vec![], false);
            assert(r@.default_ports =~= seq!["9093:9093"@]);
            assert(r@.environment =~= seq![]);
            assert(r@.volumes =~= seq![]);
            Some(r)
        }
        NodeType::Group(_) => None,
    }
}


/// The node types that stand for services, in catalog order: every type but
/// the group types.
pub open spec fn service_types() -> Seq<NodeType> {
    seq![
        NodeType::Compute(ComputeComponent::ApplicationServer),
        NodeType::Compute(ComputeComponent::Worker),
        NodeType::Compute(ComputeComponent::Function),
        NodeType::Compute(ComputeComponent::Container),
        NodeType::Compute(ComputeComponent::VirtualMachine),
        NodeType::Compute(ComputeComponent::Scheduler),
        NodeType::Networking(NetworkingComponent::LoadBalancer),
        NodeType::Networking(NetworkingComponent::ApiGateway),
        NodeType::Networking(NetworkingComponent::Cdn),
        NodeType::Networking(NetworkingComponent::Dns),
        NodeType::Networking(NetworkingComponent::Firewall),
        NodeType::Networking(NetworkingComponent::Vpn),
        NodeType::Networking(NetworkingComponent::ServiceMesh),
        NodeType::Networking(NetworkingComponent::ReverseProxy),
        NodeType::Data(DataComponent::RelationalDb),
        NodeType::Data(DataComponent::DocumentDb),
        NodeType::Data(DataComponent::KeyValueStore),
        NodeType::Data(DataComponent::GraphDb),
        NodeType::Data(DataComponent::DataWarehouse),
        NodeType::Data(DataComponent::SearchEngine),
        NodeType::Data(DataComponent::TimeSeriesDb),
        NodeType::Caching(CachingComponent::Cache),
        NodeType::Caching(CachingComponent::SessionStore),
        NodeType::Messaging(MessagingComponent::MessageQueue),
        NodeType::Messaging(MessagingComponent::EventBus),
        NodeType::Messaging(MessagingComponent::PubSub),
        NodeType::Messaging(MessagingComponent::StreamProcessor),
        NodeType::Messaging(MessagingComponent::JobBroker),
        NodeType::Storage(StorageComponent::ObjectStorage),
        NodeType::Storage(StorageComponent::BlockStorage),
        NodeType::Storage(StorageComponent::FileStorage),
        NodeType::Security(SecurityComponent::IdentityProvider),
        NodeType::Security(SecurityComponent::SecretManager),
        NodeType::Security(SecurityComponent::CertificateManager),
        NodeType::Security(SecurityComponent::Waf),
        NodeType::Observability(ObservabilityComponent::Logging),
        NodeType::Observability(ObservabilityComponent::Monitoring),
        NodeType::Observability(ObservabilityComponent::Tracing),
        NodeType::Observability(ObservabilityComponent::Alerting),
    ]
}

pub fn service_type_list() -> (v: Vec<NodeType>)
    ensures
        v@ == service_types(),
{
    vec![
        NodeType::Compute(ComputeComponent::ApplicationServer),
        NodeType::Compute(ComputeComponent::Worker),
        NodeType::Compute(ComputeComponent::Function),
        NodeType::Compute(ComputeComponent::Container),
        NodeType::Compute(ComputeComponent::VirtualMachine),
        NodeType::Compute(ComputeComponent::Scheduler),
        NodeType::Networking(NetworkingComponent::LoadBalancer),
        NodeType::Networking(NetworkingComponent::ApiGateway),
        NodeType::Networking(NetworkingComponent::Cdn),
        NodeType::Networking(NetworkingComponent::Dns),
        NodeType::Networking(NetworkingComponent::Firewall),
        NodeType::Networking(NetworkingComponent::Vpn),
        NodeType::Networking(NetworkingComponent::ServiceMesh),
        NodeType::Networking(NetworkingComponent::ReverseProxy),
        NodeType::Data(DataComponent::RelationalDb),
        NodeType::Data(DataComponent::DocumentDb),
        NodeType::Data(DataComponent::KeyValueStore),
        NodeType::Data(DataComponent::GraphDb),
        NodeType::Data(DataComponent::DataWarehouse),
        NodeType::Data(DataComponent::SearchEngine),
        NodeType::Data(DataComponent::TimeSeriesDb),
        NodeType::Caching(CachingComponent::Cache),
        NodeType::Caching(CachingComponent::SessionStore),
        NodeType::Messaging(MessagingComponent::MessageQueue),
        NodeType::Messaging(MessagingComponent::EventBus),
        NodeType::Messaging(MessagingComponent::PubSub),
        NodeType::Messaging(MessagingComponent::StreamProcessor),
        NodeType::Messaging(MessagingComponent::JobBroker),
        NodeType::Storage(StorageComponent::ObjectStorage),
        NodeType::Storage(StorageComponent::BlockStorage),
        NodeType::Storage(StorageComponent::FileStorage),
        NodeType::Security(SecurityComponent::IdentityProvider),
        NodeType::Security(SecurityComponent::SecretManager),
        NodeType::Security(SecurityComponent::CertificateManager),
        NodeType::Security(SecurityComponent::Waf),
        NodeType::Observability(ObservabilityComponent::Logging),
        NodeType::Observability(ObservabilityComponent::Monitoring),
        NodeType::Observability(ObservabilityComponent::Tracing),
        NodeType::Observability(ObservabilityComponent::Alerting),
    ]
}

/// The Docker stand-in of a node type: the entry of the catalog for that type,
/// if the type is a service type.
pub fn lookup_docker_mapping(node_type: &NodeType) -> (r: Option<DockerServiceMapping>)
    ensures
        opt_docker_view(r) == docker_mapping_for(*node_type),
{
    docker_mapping_entry(node_type)
}

/// The whole catalog: one entry per service type, in the order of
/// `service_types()`.
pub fn docker_catalog() -> (r: Vec<DockerServiceMapping>)
    ensures
        r@.len() == service_types().len(),
        forall|i: int| 0 <= i < r@.len() ==> Some(#[trigger] r@[i]@) == docker_mapping_for(service_types()[i]),
{
    let types = service_type_list();
    let mut r: Vec<DockerServiceMapping> = Vec::new();
    let mut i: usize = 0;
    while i < types.len()
        invariant
            types@ == service_types(),
            i <= types.len(),
            r@.len() == i,
            forall|j: int| 0 <= j < i ==> Some(#[trigger] r@[j]@) == docker_mapping_for(service_types()[j]),
        decreases types.len() - i,
    {
        proof { lemma_service_types_not_group(i as int); }
        let entry = docker_mapping_entry(&types[i]);
        match entry {
            Some(e) => r.push(e),
            None => { assert(false); }
        }
        i = i + 1;
    }
    r
}

/// Every listed service type is not a group type.
pub proof fn lemma_service_types_not_group(i: int)
    requires
        0 <= i < service_types().len(),
    ensures
        !is_group(service_types()[i]),
{
}

} // verus!

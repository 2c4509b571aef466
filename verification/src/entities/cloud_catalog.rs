use vstd::prelude::*;
use vstd::string::*;
use crate::entities::diagram::CloudProvider;
use crate::entities::docker_catalog::service_types;
use crate::entities::node::{
    is_group, CachingComponent, ComputeComponent, DataComponent, MessagingComponent,
    NetworkingComponent, NodeType, ObservabilityComponent, SecurityComponent, StorageComponent,
};
use crate::entities::docker_catalog::{lemma_service_types_not_group, service_type_list};

verus! {

/// The managed service of one cloud provider that stands for a generic node
/// type. `default_config` is JSON text.
pub struct CloudServiceMapping {
    pub generic_type: NodeType,
    pub provider: CloudProvider,
    pub service_name: String,
    pub display_name: String,
    pub icon_key: String,
    pub terraform_resource_type: String,
    pub default_config: String,
    pub priority: u8,
}

pub struct CloudMappingView {
    pub generic_type: NodeType,
    pub provider: CloudProvider,
    pub service_name: Seq<char>,
    pub display_name: Seq<char>,
    pub icon_key: Seq<char>,
    pub terraform_resource_type: Seq<char>,
    pub default_config: Seq<char>,
    pub priority: u8,
}

impl View for CloudServiceMapping {
    type V = CloudMappingView;

    open spec fn view(&self) -> CloudMappingView {
        CloudMappingView {
            generic_type: self.generic_type,
            provider: self.provider,
            service_name: self.service_name@,
            display_name: self.display_name@,
            icon_key: self.icon_key@,
            terraform_resource_type: self.terraform_resource_type@,
            default_config: self.default_config@,
            priority: self.priority,
        }
    }
}

pub open spec fn opt_cloud_view(o: Option<CloudServiceMapping>) -> Option<CloudMappingView> {
    match o {
        Some(m) => Some(m@),
        None => None,
    }
}

/// An entry with the empty JSON object as default configuration and priority 1.
pub open spec fn cloud_view(
    t: NodeType,
    p: CloudProvider,
    service_name: Seq<char>,
    display_name: Seq<char>,
    icon_key: Seq<char>,
    terraform_resource_type: Seq<char>,
) -> CloudMappingView {
    CloudMappingView {
        generic_type: t,
        provider: p,
        service_name,
        display_name,
        icon_key,
        terraform_resource_type,
        default_config: "{}"@,
        priority: 1,
    }
}

/// Builds one catalog entry.
pub fn m(
    generic_type: NodeType,
    provider: CloudProvider,
    service_name: &str,
    display_name: &str,
    icon_key: &str,
    terraform_resource_type: &str,
) -> (r: CloudServiceMapping)
    ensures
        r@ == cloud_view(
            generic_type,
            provider,
            service_name@,
            display_name@,
            icon_key@,
            terraform_resource_type@,
        ),
{
    CloudServiceMapping {
        generic_type,
        provider,
        service_name: String::from_str(service_name),
        display_name: String::from_str(display_name),
        icon_key: String::from_str(icon_key),
        terraform_resource_type: String::from_str(terraform_resource_type),
        default_config: String::from_str("{}"),
        priority: 1,
    }
}

/// The service of each provider for each service type; group nodes have none.
pub open spec fn cloud_mapping_for(t: NodeType, p: CloudProvider) -> Option<CloudMappingView> {
    match t {
        NodeType::Compute(c) => Some(compute_cloud_mapping(c, p)),
        NodeType::Networking(c) => Some(networking_cloud_mapping(c, p)),
        NodeType::Data(c) => Some(data_cloud_mapping(c, p)),
        NodeType::Caching(c) => Some(caching_cloud_mapping(c, p)),
        NodeType::Messaging(c) => Some(messaging_cloud_mapping(c, p)),
        NodeType::Storage(c) => Some(storage_cloud_mapping(c, p)),
        NodeType::Security(c) => Some(security_cloud_mapping(c, p)),
        NodeType::Observability(c) => Some(observability_cloud_mapping(c, p)),
        NodeType::Group(_) => None,
    }
}

pub open spec fn compute_cloud_mapping(c: ComputeComponent, p: CloudProvider) -> CloudMappingView {
    let t = NodeType::Compute(c);
    match (c, p) {
        (ComputeComponent::ApplicationServer, CloudProvider::Aws) => cloud_view(t, p, "Elastic Beanstalk"@, "Elastic Beanstalk"@, "aws-elastic-beanstalk"@, "aws_elastic_beanstalk_environment"@),
        (ComputeComponent::ApplicationServer, CloudProvider::Gcp) => cloud_view(t, p, "App Engine"@, "App Engine"@, "gcp-app-engine"@, "google_app_engine_application"@),
        (ComputeComponent::ApplicationServer, CloudProvider::Azure) => cloud_view(t, p, "App Service"@, "App Service"@, "azure-app-service"@, "azurerm_app_service"@),
        (ComputeComponent::Worker, CloudProvider::Aws) => cloud_view(t, p, "ECS Service"@, "ECS Service"@, "aws-ecs"@, "aws_ecs_service"@),
        (ComputeComponent::Worker, CloudProvider::Gcp) => cloud_view(t, p, "Cloud Run Jobs"@, "Cloud Run Jobs"@, "gcp-cloud-run"@, "google_cloud_run_v2_job"@),
        (ComputeComponent::Worker, CloudProvider::Azure) => cloud_view(t, p, "Container Instances"@, "Container Instances"@, "azure-container-instances"@, "azurerm_container_group"@),
        (ComputeComponent::Function, CloudProvider::Aws) => cloud_view(t, p, "Lambda"@, "Lambda"@, "aws-lambda"@, "aws_lambda_function"@),
        (ComputeComponent::Function, CloudProvider::Gcp) => cloud_view(t, p, "Cloud Functions"@, "Cloud Functions"@, "gcp-cloud-functions"@, "google_cloudfunctions2_function"@),
        (ComputeComponent::Function, CloudProvider::Azure) => cloud_view(t, p, "Azure Functions"@, "Azure Functions"@, "azure-functions"@, "azurerm_function_app"@),
        (ComputeComponent::Container, CloudProvider::Aws) => cloud_view(t, p, "ECS/Fargate"@, "ECS/Fargate"@, "aws-ecs"@, "aws_ecs_task_definition"@),
        (ComputeComponent::Container, CloudProvider::Gcp) => cloud_view(t, p, "Cloud Run"@, "Cloud Run"@, "gcp-cloud-run"@, "google_cloud_run_v2_service"@),
        (ComputeComponent::Container, CloudProvider::Azure) => cloud_view(t, p, "Container Apps"@, "Container Apps"@, "azure-container-apps"@, "azurerm_container_app"@),
        (ComputeComponent::VirtualMachine, CloudProvider::Aws) => cloud_view(t, p, "EC2"@, "EC2"@, "aws-ec2"@, "aws_instance"@),
        (ComputeComponent::VirtualMachine, CloudProvider::Gcp) => cloud_view(t, p, "Compute Engine"@, "Compute Engine"@, "gcp-compute-engine"@, "google_compute_instance"@),
        (ComputeComponent::VirtualMachine, CloudProvider::Azure) => cloud_view(t, p, "Virtual Machines"@, "Virtual Machines"@, "azure-virtual-machines"@, "azurerm_virtual_machine"@),
        (ComputeComponent::Scheduler, CloudProvider::Aws) => cloud_view(t, p, "EventBridge Scheduler"@, "EventBridge Scheduler"@, "aws-eventbridge"@, "aws_scheduler_schedule"@),
        (ComputeComponent::Scheduler, CloudProvider::Gcp) => cloud_view(t, p, "Cloud Scheduler"@, "Cloud Scheduler"@, "gcp-cloud-scheduler"@, "google_cloud_scheduler_job"@),
        (ComputeComponent::Scheduler, CloudProvider::Azure) => cloud_view(t, p, "Logic Apps"@, "Logic Apps"@, "azure-logic-apps"@, "azurerm_logic_app_workflow"@),
    }
}

pub open spec fn networking_cloud_mapping(c: NetworkingComponent, p: CloudProvider) -> CloudMappingView {
    let t = NodeType::Networking(c);
    match (c, p) {
        (NetworkingComponent::LoadBalancer, CloudProvider::Aws) => cloud_view(t, p, "ALB"@, "ALB"@, "aws-alb"@, "aws_lb"@),
        (NetworkingComponent::LoadBalancer, CloudProvider::Gcp) => cloud_view(t, p, "Cloud Load Balancing"@, "Cloud Load Balancing"@, "gcp-load-balancing"@, "google_compute_url_map"@),
        (NetworkingComponent::LoadBalancer, CloudProvider::Azure) => cloud_view(t, p, "Azure Load Balancer"@, "Azure Load Balancer"@, "azure-load-balancer"@, "azurerm_lb"@),
        (NetworkingComponent::ApiGateway, CloudProvider::Aws) => cloud_view(t, p, "API Gateway"@, "API Gateway"@, "aws-api-gateway"@, "aws_apigatewayv2_api"@),
        (NetworkingComponent::ApiGateway, CloudProvider::Gcp) => cloud_view(t, p, "API Gateway"@, "API Gateway"@, "gcp-api-gateway"@, "google_api_gateway_api"@),
        (NetworkingComponent::ApiGateway, CloudProvider::Azure) => cloud_view(t, p, "API Management"@, "API Management"@, "azure-api-management"@, "azurerm_api_management"@),
        (NetworkingComponent::Cdn, CloudProvider::Aws) => cloud_view(t, p, "CloudFront"@, "CloudFront"@, "aws-cloudfront"@, "aws_cloudfront_distribution"@),
        (NetworkingComponent::Cdn, CloudProvider::Gcp) => cloud_view(t, p, "Cloud CDN"@, "Cloud CDN"@, "gcp-cloud-cdn"@, "google_compute_backend_bucket"@),
        (NetworkingComponent::Cdn, CloudProvider::Azure) => cloud_view(t, p, "Azure CDN"@, "Azure CDN"@, "azure-cdn"@, "azurerm_cdn_profile"@),
        (NetworkingComponent::Dns, CloudProvider::Aws) => cloud_view(t, p, "Route 53"@, "Route 53"@, "aws-route53"@, "aws_route53_zone"@),
        (NetworkingComponent::Dns, CloudProvider::Gcp) => cloud_view(t, p, "Cloud DNS"@, "Cloud DNS"@, "gcp-cloud-dns"@, "google_dns_managed_zone"@),
        (NetworkingComponent::Dns, CloudProvider::Azure) => cloud_view(t, p, "Azure DNS"@, "Azure DNS"@, "azure-dns"@, "azurerm_dns_zone"@),
        (NetworkingComponent::Firewall, CloudProvider::Aws) => cloud_view(t, p, "Network Firewall"@, "Network Firewall"@, "aws-network-firewall"@, "aws_networkfirewall_firewall"@),
        (NetworkingComponent::Firewall, CloudProvider::Gcp) => cloud_view(t, p, "Cloud Firewall"@, "Cloud Firewall"@, "gcp-cloud-firewall"@, "google_compute_firewall"@),
        (NetworkingComponent::Firewall, CloudProvider::Azure) => cloud_view(t, p, "Azure Firewall"@, "Azure Firewall"@, "azure-firewall"@, "azurerm_firewall"@),
        (NetworkingComponent::Vpn, CloudProvider::Aws) => cloud_view(t, p, "VPN Gateway"@, "VPN Gateway"@, "aws-vpn"@, "aws_vpn_gateway"@),
        (NetworkingComponent::Vpn, CloudProvider::Gcp) => cloud_view(t, p, "Cloud VPN"@, "Cloud VPN"@, "gcp-cloud-vpn"@, "google_compute_vpn_gateway"@),
        (NetworkingComponent::Vpn, CloudProvider::Azure) => cloud_view(t, p, "VPN Gateway"@, "VPN Gateway"@, "azure-vpn-gateway"@, "azurerm_vpn_gateway"@),
        (NetworkingComponent::ServiceMesh, CloudProvider::Aws) => cloud_view(t, p, "App Mesh"@, "App Mesh"@, "aws-app-mesh"@, "aws_appmesh_mesh"@),
        (NetworkingComponent::ServiceMesh, CloudProvider::Gcp) => cloud_view(t, p, "Traffic Director"@, "Traffic Director"@, "gcp-traffic-director"@, "google_compute_url_map"@),
        (NetworkingComponent::ServiceMesh, CloudProvider::Azure) => cloud_view(t, p, "Open Service Mesh"@, "Open Service Mesh"@, "azure-service-mesh"@, "azurerm_kubernetes_cluster"@),
        (NetworkingComponent::ReverseProxy, CloudProvider::Aws) => cloud_view(t, p, "ALB"@, "ALB"@, "aws-alb"@, "aws_lb"@),
        (NetworkingComponent::ReverseProxy, CloudProvider::Gcp) => cloud_view(t, p, "Cloud Load Balancing"@, "Cloud Load Balancing"@, "gcp-load-balancing"@, "google_compute_url_map"@),
        (NetworkingComponent::ReverseProxy, CloudProvider::Azure) => cloud_view(t, p, "Application Gateway"@, "Application Gateway"@, "azure-application-gateway"@, "azurerm_application_gateway"@),
    }
}

pub open spec fn data_cloud_mapping(c: DataComponent, p: CloudProvider) -> CloudMappingView {
    let t = NodeType::Data(c);
    match (c, p) {
        (DataComponent::RelationalDb, CloudProvider::Aws) => cloud_view(t, p, "RDS"@, "RDS"@, "aws-rds"@, "aws_db_instance"@),
        (DataComponent::RelationalDb, CloudProvider::Gcp) => cloud_view(t, p, "Cloud SQL"@, "Cloud SQL"@, "gcp-cloud-sql"@, "google_sql_database_instance"@),
        (DataComponent::RelationalDb, CloudProvider::Azure) => cloud_view(t, p, "Azure SQL Database"@, "Azure SQL Database"@, "azure-sql-database"@, "azurerm_mssql_database"@),
        (DataComponent::DocumentDb, CloudProvider::Aws) => cloud_view(t, p, "DynamoDB"@, "DynamoDB"@, "aws-dynamodb"@, "aws_dynamodb_table"@),
        (DataComponent::DocumentDb, CloudProvider::Gcp) => cloud_view(t, p, "Firestore"@, "Firestore"@, "gcp-firestore"@, "google_firestore_database"@),
        (DataComponent::DocumentDb, CloudProvider::Azure) => cloud_view(t, p, "Cosmos DB"@, "Cosmos DB"@, "azure-cosmos-db"@, "azurerm_cosmosdb_account"@),
        (DataComponent::KeyValueStore, CloudProvider::Aws) => cloud_view(t, p, "DynamoDB"@, "DynamoDB"@, "aws-dynamodb"@, "aws_dynamodb_table"@),
        (DataComponent::KeyValueStore, CloudProvider::Gcp) => cloud_view(t, p, "Memorystore"@, "Memorystore"@, "gcp-memorystore"@, "google_redis_instance"@),
        (DataComponent::KeyValueStore, CloudProvider::Azure) => cloud_view(t, p, "Azure Cache for Redis"@, "Azure Cache for Redis"@, "azure-cache-redis"@, "azurerm_redis_cache"@),
        (DataComponent::GraphDb, CloudProvider::Aws) => cloud_view(t, p, "Neptune"@, "Neptune"@, "aws-neptune"@, "aws_neptune_cluster"@),
        (DataComponent::GraphDb, CloudProvider::Gcp) => cloud_view(t, p, "JanusGraph on GCE"@, "JanusGraph on GCE"@, "gcp-compute-engine"@, "google_compute_instance"@),
        (DataComponent::GraphDb, CloudProvider::Azure) => cloud_view(t, p, "Cosmos DB (Gremlin)"@, "Cosmos DB (Gremlin)"@, "azure-cosmos-db"@, "azurerm_cosmosdb_gremlin_database"@),
        (DataComponent::DataWarehouse, CloudProvider::Aws) => cloud_view(t, p, "Redshift"@, "Redshift"@, "aws-redshift"@, "aws_redshift_cluster"@),
        (DataComponent::DataWarehouse, CloudProvider::Gcp) => cloud_view(t, p, "BigQuery"@, "BigQuery"@, "gcp-bigquery"@, "google_bigquery_dataset"@),
        (DataComponent::DataWarehouse, CloudProvider::Azure) => cloud_view(t, p, "Synapse Analytics"@, "Synapse Analytics"@, "azure-synapse"@, "azurerm_synapse_workspace"@),
        (DataComponent::SearchEngine, CloudProvider::Aws) => cloud_view(t, p, "OpenSearch"@, "OpenSearch"@, "aws-opensearch"@, "aws_opensearch_domain"@),
        (DataComponent::SearchEngine, CloudProvider::Gcp) => cloud_view(t, p, "Elastic Cloud"@, "Elastic Cloud"@, "gcp-elastic-cloud"@, "google_compute_instance"@),
        (DataComponent::SearchEngine, CloudProvider::Azure) => cloud_view(t, p, "Azure AI Search"@, "Azure AI Search"@, "azure-ai-search"@, "azurerm_search_service"@),
        (DataComponent::TimeSeriesDb, CloudProvider::Aws) => cloud_view(t, p, "Timestream"@, "Timestream"@, "aws-timestream"@, "aws_timestreamwrite_database"@),
        (DataComponent::TimeSeriesDb, CloudProvider::Gcp) => cloud_view(t, p, "Bigtable"@, "Bigtable"@, "gcp-bigtable"@, "google_bigtable_instance"@),
        (DataComponent::TimeSeriesDb, CloudProvider::Azure) => cloud_view(t, p, "Azure Data Explorer"@, "Azure Data Explorer"@, "azure-data-explorer"@, "azurerm_kusto_cluster"@),
    }
}

pub open spec fn caching_cloud_mapping(c: CachingComponent, p: CloudProvider) -> CloudMappingView {
    let t = NodeType::Caching(c);
    match (c, p) {
        (CachingComponent::Cache, CloudProvider::Aws) => cloud_view(t, p, "ElastiCache"@, "ElastiCache"@, "aws-elasticache"@, "aws_elasticache_cluster"@),
        (CachingComponent::Cache, CloudProvider::Gcp) => cloud_view(t, p, "Memorystore"@, "Memorystore"@, "gcp-memorystore"@, "google_redis_instance"@),
        (CachingComponent::Cache, CloudProvider::Azure) => cloud_view(t, p, "Azure Cache for Redis"@, "Azure Cache for Redis"@, "azure-cache-redis"@, "azurerm_redis_cache"@),
        (CachingComponent::SessionStore, CloudProvider::Aws) => cloud_view(t, p, "ElastiCache Redis"@, "ElastiCache Redis"@, "aws-elasticache"@, "aws_elasticache_replication_group"@),
        (CachingComponent::SessionStore, CloudProvider::Gcp) => cloud_view(t, p, "Memorystore Redis"@, "Memorystore Redis"@, "gcp-memorystore"@, "google_redis_instance"@),
        (CachingComponent::SessionStore, CloudProvider::Azure) => cloud_view(t, p, "Azure Cache for Redis"@, "Azure Cache for Redis"@, "azure-cache-redis"@, "azurerm_redis_cache"@),
    }
}

pub open spec fn messaging_cloud_mapping(c: MessagingComponent, p: CloudProvider) -> CloudMappingView {
    let t = NodeType::Messaging(c);
    match (c, p) {
        (MessagingComponent::MessageQueue, CloudProvider::Aws) => cloud_view(t, p, "SQS"@, "SQS"@, "aws-sqs"@, "aws_sqs_queue"@),
        (MessagingComponent::MessageQueue, CloudProvider::Gcp) => cloud_view(t, p, "Cloud Tasks"@, "Cloud Tasks"@, "gcp-cloud-tasks"@, "google_cloud_tasks_queue"@),
        (MessagingComponent::MessageQueue, CloudProvider::Azure) => cloud_view(t, p, "Azure Queue Storage"@, "Azure Queue Storage"@, "azure-queue-storage"@, "azurerm_storage_queue"@),
        (MessagingComponent::EventBus, CloudProvider::Aws) => cloud_view(t, p, "EventBridge"@, "EventBridge"@, "aws-eventbridge"@, "aws_cloudwatch_event_bus"@),
        (MessagingComponent::EventBus, CloudProvider::Gcp) => cloud_view(t, p, "Eventarc"@, "Eventarc"@, "gcp-eventarc"@, "google_eventarc_trigger"@),
        (MessagingComponent::EventBus, CloudProvider::Azure) => cloud_view(t, p, "Event Grid"@, "Event Grid"@, "azure-event-grid"@, "azurerm_eventgrid_topic"@),
        (MessagingComponent::PubSub, CloudProvider::Aws) => cloud_view(t, p, "SNS"@, "SNS"@, "aws-sns"@, "aws_sns_topic"@),
        (MessagingComponent::PubSub, CloudProvider::Gcp) => cloud_view(t, p, "Pub/Sub"@, "Pub/Sub"@, "gcp-pubsub"@, "google_pubsub_topic"@),
        (MessagingComponent::PubSub, CloudProvider::Azure) => cloud_view(t, p, "Service Bus Topics"@, "Service Bus Topics"@, "azure-service-bus"@, "azurerm_servicebus_topic"@),
        (MessagingComponent::StreamProcessor, CloudProvider::Aws) => cloud_view(t, p, "Kinesis"@, "Kinesis"@, "aws-kinesis"@, "aws_kinesis_stream"@),
        (MessagingComponent::StreamProcessor, CloudProvider::Gcp) => cloud_view(t, p, "Dataflow"@, "Dataflow"@, "gcp-dataflow"@, "google_dataflow_job"@),
        (MessagingComponent::StreamProcessor, CloudProvider::Azure) => cloud_view(t, p, "Stream Analytics"@, "Stream Analytics"@, "azure-stream-analytics"@, "azurerm_stream_analytics_job"@),
        (MessagingComponent::JobBroker, CloudProvider::Aws) => cloud_view(t, p, "Step Functions"@, "Step Functions"@, "aws-step-functions"@, "aws_sfn_state_machine"@),
        (MessagingComponent::JobBroker, CloudProvider::Gcp) => cloud_view(t, p, "Cloud Workflows"@, "Cloud Workflows"@, "gcp-cloud-workflows"@, "google_workflows_workflow"@),
        (MessagingComponent::JobBroker, CloudProvider::Azure) => cloud_view(t, p, "Durable Functions"@, "Durable Functions"@, "azure-functions"@, "azurerm_function_app"@),
    }
}

pub open spec fn storage_cloud_mapping(c: StorageComponent, p: CloudProvider) -> CloudMappingView {
    let t = NodeType::Storage(c);
    match (c, p) {
        (StorageComponent::ObjectStorage, CloudProvider::Aws) => cloud_view(t, p, "S3"@, "S3"@, "aws-s3"@, "aws_s3_bucket"@),
        (StorageComponent::ObjectStorage, CloudProvider::Gcp) => cloud_view(t, p, "Cloud Storage"@, "Cloud Storage"@, "gcp-cloud-storage"@, "google_storage_bucket"@),
        (StorageComponent::ObjectStorage, CloudProvider::Azure) => cloud_view(t, p, "Blob Storage"@, "Blob Storage"@, "azure-blob-storage"@, "azurerm_storage_container"@),
        (StorageComponent::BlockStorage, CloudProvider::Aws) => cloud_view(t, p, "EBS"@, "EBS"@, "aws-ebs"@, "aws_ebs_volume"@),
        (StorageComponent::BlockStorage, CloudProvider::Gcp) => cloud_view(t, p, "Persistent Disk"@, "Persistent Disk"@, "gcp-persistent-disk"@, "google_compute_disk"@),
        (StorageComponent::BlockStorage, CloudProvider::Azure) => cloud_view(t, p, "Managed Disks"@, "Managed Disks"@, "azure-managed-disks"@, "azurerm_managed_disk"@),
        (StorageComponent::FileStorage, CloudProvider::Aws) => cloud_view(t, p, "EFS"@, "EFS"@, "aws-efs"@, "aws_efs_file_system"@),
        (StorageComponent::FileStorage, CloudProvider::Gcp) => cloud_view(t, p, "Filestore"@, "Filestore"@, "gcp-filestore"@, "google_filestore_instance"@),
        (StorageComponent::FileStorage, CloudProvider::Azure) => cloud_view(t, p, "Azure Files"@, "Azure Files"@, "azure-files"@, "azurerm_storage_share"@),
    }
}

pub open spec fn security_cloud_mapping(c: SecurityComponent, p: CloudProvider) -> CloudMappingView {
    let t = NodeType::Security(c);
    match (c, p) {
        (SecurityComponent::IdentityProvider, CloudProvider::Aws) => cloud_view(t, p, "Cognito"@, "Cognito"@, "aws-cognito"@, "aws_cognito_user_pool"@),
        (SecurityComponent::IdentityProvider, CloudProvider::Gcp) => cloud_view(t, p, "Identity Platform"@, "Identity Platform"@, "gcp-identity-platform"@, "google_identity_platform_config"@),
        (SecurityComponent::IdentityProvider, CloudProvider::Azure) => cloud_view(t, p, "Azure AD B2C"@, "Azure AD B2C"@, "azure-ad-b2c"@, "azurerm_aadb2c_directory"@),
        (SecurityComponent::SecretManager, CloudProvider::Aws) => cloud_view(t, p, "Secrets Manager"@, "Secrets Manager"@, "aws-secrets-manager"@, "aws_secretsmanager_secret"@),
        (SecurityComponent::SecretManager, CloudProvider::Gcp) => cloud_view(t, p, "Secret Manager"@, "Secret Manager"@, "gcp-secret-manager"@, "google_secret_manager_secret"@),
        (SecurityComponent::SecretManager, CloudProvider::Azure) => cloud_view(t, p, "Key Vault"@, "Key Vault"@, "azure-key-vault"@, "azurerm_key_vault"@),
        (SecurityComponent::CertificateManager, CloudProvider::Aws) => cloud_view(t, p, "ACM"@, "ACM"@, "aws-acm"@, "aws_acm_certificate"@),
        (SecurityComponent::CertificateManager, CloudProvider::Gcp) => cloud_view(t, p, "Certificate Manager"@, "Certificate Manager"@, "gcp-certificate-manager"@, "google_certificate_manager_certificate"@),
        (SecurityComponent::CertificateManager, CloudProvider::Azure) => cloud_view(t, p, "App Service Certificates"@, "App Service Certificates"@, "azure-app-service-certs"@, "azurerm_app_service_certificate"@),
        (SecurityComponent::Waf, CloudProvider::Aws) => cloud_view(t, p, "WAF"@, "WAF"@, "aws-waf"@, "aws_wafv2_web_acl"@),
        (SecurityComponent::Waf, CloudProvider::Gcp) => cloud_view(t, p, "Cloud Armor"@, "Cloud Armor"@, "gcp-cloud-armor"@, "google_compute_security_policy"@),
        (SecurityComponent::Waf, CloudProvider::Azure) => cloud_view(t, p, "Azure WAF"@, "Azure WAF"@, "azure-waf"@, "azurerm_web_application_firewall_policy"@),
    }
}

pub open spec fn observability_cloud_mapping(c: ObservabilityComponent, p: CloudProvider) -> CloudMappingView {
    let t = NodeType::Observability(c);
    match (c, p) {
        (ObservabilityComponent::Logging, CloudProvider::Aws) => cloud_view(t, p, "CloudWatch Logs"@, "CloudWatch Logs"@, "aws-cloudwatch"@, "aws_cloudwatch_log_group"@),
        (ObservabilityComponent::Logging, CloudProvider::Gcp) => cloud_view(t, p, "Cloud Logging"@, "Cloud Logging"@, "gcp-cloud-logging"@, "google_logging_project_sink"@),
        (ObservabilityComponent::Logging, CloudProvider::Azure) => cloud_view(t, p, "Azure Monitor Logs"@, "Azure Monitor Logs"@, "azure-monitor"@, "azurerm_log_analytics_workspace"@),
        (ObservabilityComponent::Monitoring, CloudProvider::Aws) => cloud_view(t, p, "CloudWatch"@, "CloudWatch"@, "aws-cloudwatch"@, "aws_cloudwatch_dashboard"@),
        (ObservabilityComponent::Monitoring, CloudProvider::Gcp) => cloud_view(t, p, "Cloud Monitoring"@, "Cloud Monitoring"@, "gcp-cloud-monitoring"@, "google_monitoring_dashboard"@),
        (ObservabilityComponent::Monitoring, CloudProvider::Azure) => cloud_view(t, p, "Azure Monitor"@, "Azure Monitor"@, "azure-monitor"@, "azurerm_monitor_diagnostic_setting"@),
        (ObservabilityComponent::Tracing, CloudProvider::Aws) => cloud_view(t, p, "X-Ray"@, "X-Ray"@, "aws-xray"@, "aws_xray_sampling_rule"@),
        (ObservabilityComponent::Tracing, CloudProvider::Gcp) => cloud_view(t, p, "Cloud Trace"@, "Cloud Trace"@, "gcp-cloud-trace"@, "google_project_service"@),
        (ObservabilityComponent::Tracing, CloudProvider::Azure) => cloud_view(t, p, "Application Insights"@, "Application Insights"@, "azure-app-insights"@, "azurerm_application_insights"@),
        (ObservabilityComponent::Alerting, CloudProvider::Aws) => cloud_view(t, p, "CloudWatch Alarms"@, "CloudWatch Alarms"@, "aws-cloudwatch"@, "aws_cloudwatch_metric_alarm"@),
        (ObservabilityComponent::Alerting, CloudProvider::Gcp) => cloud_view(t, p, "Cloud Alerting"@, "Cloud Alerting"@, "gcp-cloud-monitoring"@, "google_monitoring_alert_policy"@),
        (ObservabilityComponent::Alerting, CloudProvider::Azure) => cloud_view(t, p, "Azure Monitor Alerts"@, "Azure Monitor Alerts"@, "azure-monitor"@, "azurerm_monitor_metric_alert"@),
    }
}

/// The catalog entry of a node type on a provider, if there is one.
pub fn cloud_mapping_entry(t: &NodeType, p: &CloudProvider) -> (r: Option<CloudServiceMapping>)
    ensures
        opt_cloud_view(r) == cloud_mapping_for(*t, *p),
{
    match t {
        NodeType::Compute(c) => Some(compute_cloud_entry(c, p)),
        NodeType::Networking(c) => Some(networking_cloud_entry(c, p)),
        NodeType::Data(c) => Some(data_cloud_entry(c, p)),
        NodeType::Caching(c) => Some(caching_cloud_entry(c, p)),
        NodeType::Messaging(c) => Some(messaging_cloud_entry(c, p)),
        NodeType::Storage(c) => Some(storage_cloud_entry(c, p)),
        NodeType::Security(c) => Some(security_cloud_entry(c, p)),
        NodeType::Observability(c) => Some(observability_cloud_entry(c, p)),
        NodeType::Group(_) => None,
    }
}

pub fn compute_cloud_entry(c: &ComputeComponent, p: &CloudProvider) -> (r: CloudServiceMapping)
    ensures
        r@ == compute_cloud_mapping(*c, *p),
{
    let t = NodeType::Compute(*c);
    match (c, p) {
        (ComputeComponent::ApplicationServer, CloudProvider::Aws) => m(t, *p, "Elastic Beanstalk", "Elastic Beanstalk", "aws-elastic-beanstalk", "aws_elastic_beanstalk_environment"),
        (ComputeComponent::ApplicationServer, CloudProvider::Gcp) => m(t, *p, "App Engine", "App Engine", "gcp-app-engine", "google_app_engine_application"),
        (ComputeComponent::ApplicationServer, CloudProvider::Azure) => m(t, *p, "App Service", "App Service", "azure-app-service", "azurerm_app_service"),
        (ComputeComponent::Worker, CloudProvider::Aws) => m(t, *p, "ECS Service", "ECS Service", "aws-ecs", "aws_ecs_service"),
        (ComputeComponent::Worker, CloudProvider::Gcp) => m(t, *p, "Cloud Run Jobs", "Cloud Run Jobs", "gcp-cloud-run", "google_cloud_run_v2_job"),
        (ComputeComponent::Worker, CloudProvider::Azure) => m(t, *p, "Container Instances", "Container Instances", "azure-container-instances", "azurerm_container_group"),
        (ComputeComponent::Function, CloudProvider::Aws) => m(t, *p, "Lambda", "Lambda", "aws-lambda", "aws_lambda_function"),
        (ComputeComponent::Function, CloudProvider::Gcp) => m(t, *p, "Cloud Functions", "Cloud Functions", "gcp-cloud-functions", "google_cloudfunctions2_function"),
        (ComputeComponent::Function, CloudProvider::Azure) => m(t, *p, "Azure Functions", "Azure Functions", "azure-functions", "azurerm_function_app"),
        (ComputeComponent::Container, CloudProvider::Aws) => m(t, *p, "ECS/Fargate", "ECS/Fargate", "aws-ecs", "aws_ecs_task_definition"),
        (ComputeComponent::Container, CloudProvider::Gcp) => m(t, *p, "Cloud Run", "Cloud Run", "gcp-cloud-run", "google_cloud_run_v2_service"),
        (ComputeComponent::Container, CloudProvider::Azure) => m(t, *p, "Container Apps", "Container Apps", "azure-container-apps", "azurerm_container_app"),
        (ComputeComponent::VirtualMachine, CloudProvider::Aws) => m(t, *p, "EC2", "EC2", "aws-ec2", "aws_instance"),
        (ComputeComponent::VirtualMachine, CloudProvider::Gcp) => m(t, *p, "Compute Engine", "Compute Engine", "gcp-compute-engine", "google_compute_instance"),
        (ComputeComponent::VirtualMachine, CloudProvider::Azure) => m(t, *p, "Virtual Machines", "Virtual Machines", "azure-virtual-machines", "azurerm_virtual_machine"),
        (ComputeComponent::Scheduler, CloudProvider::Aws) => m(t, *p, "EventBridge Scheduler", "EventBridge Scheduler", "aws-eventbridge", "aws_scheduler_schedule"),
        (ComputeComponent::Scheduler, CloudProvider::Gcp) => m(t, *p, "Cloud Scheduler", "Cloud Scheduler", "gcp-cloud-scheduler", "google_cloud_scheduler_job"),
        (ComputeComponent::Scheduler, CloudProvider::Azure) => m(t, *p, "Logic Apps", "Logic Apps", "azure-logic-apps", "azurerm_logic_app_workflow"),
    }
}

pub fn networking_cloud_entry(c: &NetworkingComponent, p: &CloudProvider) -> (r: CloudServiceMapping)
    ensures
        r@ == networking_cloud_mapping(*c, *p),
{
    let t = NodeType::Networking(*c);
    match (c, p) {
        (NetworkingComponent::LoadBalancer, CloudProvider::Aws) => m(t, *p, "ALB", "ALB", "aws-alb", "aws_lb"),
        (NetworkingComponent::LoadBalancer, CloudProvider::Gcp) => m(t, *p, "Cloud Load Balancing", "Cloud Load Balancing", "gcp-load-balancing", "google_compute_url_map"),
        (NetworkingComponent::LoadBalancer, CloudProvider::Azure) => m(t, *p, "Azure Load Balancer", "Azure Load Balancer", "azure-load-balancer", "azurerm_lb"),
        (NetworkingComponent::ApiGateway, CloudProvider::Aws) => m(t, *p, "API Gateway", "API Gateway", "aws-api-gateway", "aws_apigatewayv2_api"),
        (NetworkingComponent::ApiGateway, CloudProvider::Gcp) => m(t, *p, "API Gateway", "API Gateway", "gcp-api-gateway", "google_api_gateway_api"),
        (NetworkingComponent::ApiGateway, CloudProvider::Azure) => m(t, *p, "API Management", "API Management", "azure-api-management", "azurerm_api_management"),
        (NetworkingComponent::Cdn, CloudProvider::Aws) => m(t, *p, "CloudFront", "CloudFront", "aws-cloudfront", "aws_cloudfront_distribution"),
        (NetworkingComponent::Cdn, CloudProvider::Gcp) => m(t, *p, "Cloud CDN", "Cloud CDN", "gcp-cloud-cdn", "google_compute_backend_bucket"),
        (NetworkingComponent::Cdn, CloudProvider::Azure) => m(t, *p, "Azure CDN", "Azure CDN", "azure-cdn", "azurerm_cdn_profile"),
        (NetworkingComponent::Dns, CloudProvider::Aws) => m(t, *p, "Route 53", "Route 53", "aws-route53", "aws_route53_zone"),
        (NetworkingComponent::Dns, CloudProvider::Gcp) => m(t, *p, "Cloud DNS", "Cloud DNS", "gcp-cloud-dns", "google_dns_managed_zone"),
        (NetworkingComponent::Dns, CloudProvider::Azure) => m(t, *p, "Azure DNS", "Azure DNS", "azure-dns", "azurerm_dns_zone"),
        (NetworkingComponent::Firewall, CloudProvider::Aws) => m(t, *p, "Network Firewall", "Network Firewall", "aws-network-firewall", "aws_networkfirewall_firewall"),
        (NetworkingComponent::Firewall, CloudProvider::Gcp) => m(t, *p, "Cloud Firewall", "Cloud Firewall", "gcp-cloud-firewall", "google_compute_firewall"),
        (NetworkingComponent::Firewall, CloudProvider::Azure) => m(t, *p, "Azure Firewall", "Azure Firewall", "azure-firewall", "azurerm_firewall"),
        (NetworkingComponent::Vpn, CloudProvider::Aws) => m(t, *p, "VPN Gateway", "VPN Gateway", "aws-vpn", "aws_vpn_gateway"),
        (NetworkingComponent::Vpn, CloudProvider::Gcp) => m(t, *p, "Cloud VPN", "Cloud VPN", "gcp-cloud-vpn", "google_compute_vpn_gateway"),
        (NetworkingComponent::Vpn, CloudProvider::Azure) => m(t, *p, "VPN Gateway", "VPN Gateway", "azure-vpn-gateway", "azurerm_vpn_gateway"),
        (NetworkingComponent::ServiceMesh, CloudProvider::Aws) => m(t, *p, "App Mesh", "App Mesh", "aws-app-mesh", "aws_appmesh_mesh"),
        (NetworkingComponent::ServiceMesh, CloudProvider::Gcp) => m(t, *p, "Traffic Director", "Traffic Director", "gcp-traffic-director", "google_compute_url_map"),
        (NetworkingComponent::ServiceMesh, CloudProvider::Azure) => m(t, *p, "Open Service Mesh", "Open Service Mesh", "azure-service-mesh", "azurerm_kubernetes_cluster"),
        (NetworkingComponent::ReverseProxy, CloudProvider::Aws) => m(t, *p, "ALB", "ALB", "aws-alb", "aws_lb"),
        (NetworkingComponent::ReverseProxy, CloudProvider::Gcp) => m(t, *p, "Cloud Load Balancing", "Cloud Load Balancing", "gcp-load-balancing", "google_compute_url_map"),
        (NetworkingComponent::ReverseProxy, CloudProvider::Azure) => m(t, *p, "Application Gateway", "Application Gateway", "azure-application-gateway", "azurerm_application_gateway"),
    }
}

pub fn data_cloud_entry(c: &DataComponent, p: &CloudProvider) -> (r: CloudServiceMapping)
    ensures
        r@ == data_cloud_mapping(*c, *p),
{
    let t = NodeType::Data(*c);
    match (c, p) {
        (DataComponent::RelationalDb, CloudProvider::Aws) => m(t, *p, "RDS", "RDS", "aws-rds", "aws_db_instance"),
        (DataComponent::RelationalDb, CloudProvider::Gcp) => m(t, *p, "Cloud SQL", "Cloud SQL", "gcp-cloud-sql", "google_sql_database_instance"),
        (DataComponent::RelationalDb, CloudProvider::Azure) => m(t, *p, "Azure SQL Database", "Azure SQL Database", "azure-sql-database", "azurerm_mssql_database"),
        (DataComponent::DocumentDb, CloudProvider::Aws) => m(t, *p, "DynamoDB", "DynamoDB", "aws-dynamodb", "aws_dynamodb_table"),
        (DataComponent::DocumentDb, CloudProvider::Gcp) => m(t, *p, "Firestore", "Firestore", "gcp-firestore", "google_firestore_database"),
        (DataComponent::DocumentDb, CloudProvider::Azure) => m(t, *p, "Cosmos DB", "Cosmos DB", "azure-cosmos-db", "azurerm_cosmosdb_account"),
        (DataComponent::KeyValueStore, CloudProvider::Aws) => m(t, *p, "DynamoDB", "DynamoDB", "aws-dynamodb", "aws_dynamodb_table"),
        (DataComponent::KeyValueStore, CloudProvider::Gcp) => m(t, *p, "Memorystore", "Memorystore", "gcp-memorystore", "google_redis_instance"),
        (DataComponent::KeyValueStore, CloudProvider::Azure) => m(t, *p, "Azure Cache for Redis", "Azure Cache for Redis", "azure-cache-redis", "azurerm_redis_cache"),
        (DataComponent::GraphDb, CloudProvider::Aws) => m(t, *p, "Neptune", "Neptune", "aws-neptune", "aws_neptune_cluster"),
        (DataComponent::GraphDb, CloudProvider::Gcp) => m(t, *p, "JanusGraph on GCE", "JanusGraph on GCE", "gcp-compute-engine", "google_compute_instance"),
        (DataComponent::GraphDb, CloudProvider::Azure) => m(t, *p, "Cosmos DB (Gremlin)", "Cosmos DB (Gremlin)", "azure-cosmos-db", "azurerm_cosmosdb_gremlin_database"),
        (DataComponent::DataWarehouse, CloudProvider::Aws) => m(t, *p, "Redshift", "Redshift", "aws-redshift", "aws_redshift_cluster"),
        (DataComponent::DataWarehouse, CloudProvider::Gcp) => m(t, *p, "BigQuery", "BigQuery", "gcp-bigquery", "google_bigquery_dataset"),
        (DataComponent::DataWarehouse, CloudProvider::Azure) => m(t, *p, "Synapse Analytics", "Synapse Analytics", "azure-synapse", "azurerm_synapse_workspace"),
        (DataComponent::SearchEngine, CloudProvider::Aws) => m(t, *p, "OpenSearch", "OpenSearch", "aws-opensearch", "aws_opensearch_domain"),
        (DataComponent::SearchEngine, CloudProvider::Gcp) => m(t, *p, "Elastic Cloud", "Elastic Cloud", "gcp-elastic-cloud", "google_compute_instance"),
        (DataComponent::SearchEngine, CloudProvider::Azure) => m(t, *p, "Azure AI Search", "Azure AI Search", "azure-ai-search", "azurerm_search_service"),
        (DataComponent::TimeSeriesDb, CloudProvider::Aws) => m(t, *p, "Timestream", "Timestream", "aws-timestream", "aws_timestreamwrite_database"),
        (DataComponent::TimeSeriesDb, CloudProvider::Gcp) => m(t, *p, "Bigtable", "Bigtable", "gcp-bigtable", "google_bigtable_instance"),
        (DataComponent::TimeSeriesDb, CloudProvider::Azure) => m(t, *p, "Azure Data Explorer", "Azure Data Explorer", "azure-data-explorer", "azurerm_kusto_cluster"),
    }
}

pub fn caching_cloud_entry(c: &CachingComponent, p: &CloudProvider) -> (r: CloudServiceMapping)
    ensures
        r@ == caching_cloud_mapping(*c, *p),
{
    let t = NodeType::Caching(*c);
    match (c, p) {
        (CachingComponent::Cache, CloudProvider::Aws) => m(t, *p, "ElastiCache", "ElastiCache", "aws-elasticache", "aws_elasticache_cluster"),
        (CachingComponent::Cache, CloudProvider::Gcp) => m(t, *p, "Memorystore", "Memorystore", "gcp-memorystore", "google_redis_instance"),
        (CachingComponent::Cache, CloudProvider::Azure) => m(t, *p, "Azure Cache for Redis", "Azure Cache for Redis", "azure-cache-redis", "azurerm_redis_cache"),
        (CachingComponent::SessionStore, CloudProvider::Aws) => m(t, *p, "ElastiCache Redis", "ElastiCache Redis", "aws-elasticache", "aws_elasticache_replication_group"),
        (CachingComponent::SessionStore, CloudProvider::Gcp) => m(t, *p, "Memorystore Redis", "Memorystore Redis", "gcp-memorystore", "google_redis_instance"),
        (CachingComponent::SessionStore, CloudProvider::Azure) => m(t, *p, "Azure Cache for Redis", "Azure Cache for Redis", "azure-cache-redis", "azurerm_redis_cache"),
    }
}

pub fn messaging_cloud_entry(c: &MessagingComponent, p: &CloudProvider) -> (r: CloudServiceMapping)
    ensures
        r@ == messaging_cloud_mapping(*c, *p),
{
    let t = NodeType::Messaging(*c);
    match (c, p) {
        (MessagingComponent::MessageQueue, CloudProvider::Aws) => m(t, *p, "SQS", "SQS", "aws-sqs", "aws_sqs_queue"),
        (MessagingComponent::MessageQueue, CloudProvider::Gcp) => m(t, *p, "Cloud Tasks", "Cloud Tasks", "gcp-cloud-tasks", "google_cloud_tasks_queue"),
        (MessagingComponent::MessageQueue, CloudProvider::Azure) => m(t, *p, "Azure Queue Storage", "Azure Queue Storage", "azure-queue-storage", "azurerm_storage_queue"),
        (MessagingComponent::EventBus, CloudProvider::Aws) => m(t, *p, "EventBridge", "EventBridge", "aws-eventbridge", "aws_cloudwatch_event_bus"),
        (MessagingComponent::EventBus, CloudProvider::Gcp) => m(t, *p, "Eventarc", "Eventarc", "gcp-eventarc", "google_eventarc_trigger"),
        (MessagingComponent::EventBus, CloudProvider::Azure) => m(t, *p, "Event Grid", "Event Grid", "azure-event-grid", "azurerm_eventgrid_topic"),
        (MessagingComponent::PubSub, CloudProvider::Aws) => m(t, *p, "SNS", "SNS", "aws-sns", "aws_sns_topic"),
        (MessagingComponent::PubSub, CloudProvider::Gcp) => m(t, *p, "Pub/Sub", "Pub/Sub", "gcp-pubsub", "google_pubsub_topic"),
        (MessagingComponent::PubSub, CloudProvider::Azure) => m(t, *p, "Service Bus Topics", "Service Bus Topics", "azure-service-bus", "azurerm_servicebus_topic"),
        (MessagingComponent::StreamProcessor, CloudProvider::Aws) => m(t, *p, "Kinesis", "Kinesis", "aws-kinesis", "aws_kinesis_stream"),
        (MessagingComponent::StreamProcessor, CloudProvider::Gcp) => m(t, *p, "Dataflow", "Dataflow", "gcp-dataflow", "google_dataflow_job"),
        (MessagingComponent::StreamProcessor, CloudProvider::Azure) => m(t, *p, "Stream Analytics", "Stream Analytics", "azure-stream-analytics", "azurerm_stream_analytics_job"),
        (MessagingComponent::JobBroker, CloudProvider::Aws) => m(t, *p, "Step Functions", "Step Functions", "aws-step-functions", "aws_sfn_state_machine"),
        (MessagingComponent::JobBroker, CloudProvider::Gcp) => m(t, *p, "Cloud Workflows", "Cloud Workflows", "gcp-cloud-workflows", "google_workflows_workflow"),
        (MessagingComponent::JobBroker, CloudProvider::Azure) => m(t, *p, "Durable Functions", "Durable Functions", "azure-functions", "azurerm_function_app"),
    }
}

pub fn storage_cloud_entry(c: &StorageComponent, p: &CloudProvider) -> (r: CloudServiceMapping)
    ensures
        r@ == storage_cloud_mapping(*c, *p),
{
    let t = NodeType::Storage(*c);
    match (c, p) {
        (StorageComponent::ObjectStorage, CloudProvider::Aws) => m(t, *p, "S3", "S3", "aws-s3", "aws_s3_bucket"),
        (StorageComponent::ObjectStorage, CloudProvider::Gcp) => m(t, *p, "Cloud Storage", "Cloud Storage", "gcp-cloud-storage", "google_storage_bucket"),
        (StorageComponent::ObjectStorage, CloudProvider::Azure) => m(t, *p, "Blob Storage", "Blob Storage", "azure-blob-storage", "azurerm_storage_container"),
        (StorageComponent::BlockStorage, CloudProvider::Aws) => m(t, *p, "EBS", "EBS", "aws-ebs", "aws_ebs_volume"),
        (StorageComponent::BlockStorage, CloudProvider::Gcp) => m(t, *p, "Persistent Disk", "Persistent Disk", "gcp-persistent-disk", "google_compute_disk"),
        (StorageComponent::BlockStorage, CloudProvider::Azure) => m(t, *p, "Managed Disks", "Managed Disks", "azure-managed-disks", "azurerm_managed_disk"),
        (StorageComponent::FileStorage, CloudProvider::Aws) => m(t, *p, "EFS", "EFS", "aws-efs", "aws_efs_file_system"),
        (StorageComponent::FileStorage, CloudProvider::Gcp) => m(t, *p, "Filestore", "Filestore", "gcp-filestore", "google_filestore_instance"),
        (StorageComponent::FileStorage, CloudProvider::Azure) => m(t, *p, "Azure Files", "Azure Files", "azure-files", "azurerm_storage_share"),
    }
}

pub fn security_cloud_entry(c: &SecurityComponent, p: &CloudProvider) -> (r: CloudServiceMapping)
    ensures
        r@ == security_cloud_mapping(*c, *p),
{
    let t = NodeType::Security(*c);
    match (c, p) {
        (SecurityComponent::IdentityProvider, CloudProvider::Aws) => m(t, *p, "Cognito", "Cognito", "aws-cognito", "aws_cognito_user_pool"),
        (SecurityComponent::IdentityProvider, CloudProvider::Gcp) => m(t, *p, "Identity Platform", "Identity Platform", "gcp-identity-platform", "google_identity_platform_config"),
        (SecurityComponent::IdentityProvider, CloudProvider::Azure) => m(t, *p, "Azure AD B2C", "Azure AD B2C", "azure-ad-b2c", "azurerm_aadb2c_directory"),
        (SecurityComponent::SecretManager, CloudProvider::Aws) => m(t, *p, "Secrets Manager", "Secrets Manager", "aws-secrets-manager", "aws_secretsmanager_secret"),
        (SecurityComponent::SecretManager, CloudProvider::Gcp) => m(t, *p, "Secret Manager", "Secret Manager", "gcp-secret-manager", "google_secret_manager_secret"),
        (SecurityComponent::SecretManager, CloudProvider::Azure) => m(t, *p, "Key Vault", "Key Vault", "azure-key-vault", "azurerm_key_vault"),
        (SecurityComponent::CertificateManager, CloudProvider::Aws) => m(t, *p, "ACM", "ACM", "aws-acm", "aws_acm_certificate"),
        (SecurityComponent::CertificateManager, CloudProvider::Gcp) => m(t, *p, "Certificate Manager", "Certificate Manager", "gcp-certificate-manager", "google_certificate_manager_certificate"),
        (SecurityComponent::CertificateManager, CloudProvider::Azure) => m(t, *p, "App Service Certificates", "App Service Certificates", "azure-app-service-certs", "azurerm_app_service_certificate"),
        (SecurityComponent::Waf, CloudProvider::Aws) => m(t, *p, "WAF", "WAF", "aws-waf", "aws_wafv2_web_acl"),
        (SecurityComponent::Waf, CloudProvider::Gcp) => m(t, *p, "Cloud Armor", "Cloud Armor", "gcp-cloud-armor", "google_compute_security_policy"),
        (SecurityComponent::Waf, CloudProvider::Azure) => m(t, *p, "Azure WAF", "Azure WAF", "azure-waf", "azurerm_web_application_firewall_policy"),
    }
}

pub fn observability_cloud_entry(c: &ObservabilityComponent, p: &CloudProvider) -> (r: CloudServiceMapping)
    ensures
        r@ == observability_cloud_mapping(*c, *p),
{
    let t = NodeType::Observability(*c);
    match (c, p) {
        (ObservabilityComponent::Logging, CloudProvider::Aws) => m(t, *p, "CloudWatch Logs", "CloudWatch Logs", "aws-cloudwatch", "aws_cloudwatch_log_group"),
        (ObservabilityComponent::Logging, CloudProvider::Gcp) => m(t, *p, "Cloud Logging", "Cloud Logging", "gcp-cloud-logging", "google_logging_project_sink"),
        (ObservabilityComponent::Logging, CloudProvider::Azure) => m(t, *p, "Azure Monitor Logs", "Azure Monitor Logs", "azure-monitor", "azurerm_log_analytics_workspace"),
        (ObservabilityComponent::Monitoring, CloudProvider::Aws) => m(t, *p, "CloudWatch", "CloudWatch", "aws-cloudwatch", "aws_cloudwatch_dashboard"),
        (ObservabilityComponent::Monitoring, CloudProvider::Gcp) => m(t, *p, "Cloud Monitoring", "Cloud Monitoring", "gcp-cloud-monitoring", "google_monitoring_dashboard"),
        (ObservabilityComponent::Monitoring, CloudProvider::Azure) => m(t, *p, "Azure Monitor", "Azure Monitor", "azure-monitor", "azurerm_monitor_diagnostic_setting"),
        (ObservabilityComponent::Tracing, CloudProvider::Aws) => m(t, *p, "X-Ray", "X-Ray", "aws-xray", "aws_xray_sampling_rule"),
        (ObservabilityComponent::Tracing, CloudProvider::Gcp) => m(t, *p, "Cloud Trace", "Cloud Trace", "gcp-cloud-trace", "google_project_service"),
        (ObservabilityComponent::Tracing, CloudProvider::Azure) => m(t, *p, "Application Insights", "Application Insights", "azure-app-insights", "azurerm_application_insights"),
        (ObservabilityComponent::Alerting, CloudProvider::Aws) => m(t, *p, "CloudWatch Alarms", "CloudWatch Alarms", "aws-cloudwatch", "aws_cloudwatch_metric_alarm"),
        (ObservabilityComponent::Alerting, CloudProvider::Gcp) => m(t, *p, "Cloud Alerting", "Cloud Alerting", "gcp-cloud-monitoring", "google_monitoring_alert_policy"),
        (ObservabilityComponent::Alerting, CloudProvider::Azure) => m(t, *p, "Azure Monitor Alerts", "Azure Monitor Alerts", "azure-monitor", "azurerm_monitor_metric_alert"),
    }
}

/// The providers in catalog order.
pub open spec fn providers() -> Seq<CloudProvider> {
    seq![CloudProvider::Aws, CloudProvider::Gcp, CloudProvider::Azure]
}

/// The service that stands for a node type on a provider, if the type is a
/// service type.
pub fn lookup_mapping(node_type: &NodeType, provider: &CloudProvider) -> (r: Option<CloudServiceMapping>)
    ensures
        opt_cloud_view(r) == cloud_mapping_for(*node_type, *provider),
{
    cloud_mapping_entry(node_type, provider)
}

/// The whole catalog: for each service type in the order of
/// `service_types()`, its AWS, GCP and Azure entries.
pub fn cloud_catalog() -> (r: Vec<CloudServiceMapping>)
    ensures
        r@.len() == 3 * service_types().len(),
        forall|i: int|
            0 <= i < r@.len() ==> Some(#[trigger] r@[i]@) == cloud_mapping_for(
                service_types()[i / 3],
                providers()[i % 3],
            ),
{
    let types = service_type_list();
    let provs = vec![CloudProvider::Aws, CloudProvider::Gcp, CloudProvider::Azure];
    let mut r: Vec<CloudServiceMapping> = Vec::new();
    let mut i: usize = 0;
    while i < types.len()
        invariant
            types@ == service_types(),
            provs@ == providers(),
            i <= types.len(),
            r@.len() == 3 * i,
            forall|j: int|
                0 <= j < r@.len() ==> Some(#[trigger] r@[j]@) == cloud_mapping_for(
                    service_types()[j / 3],
                    providers()[j % 3],
                ),
        decreases types.len() - i,
    {
        proof { lemma_service_types_not_group(i as int); }
        let mut k: usize = 0;
        while k < 3
            invariant
                types@ == service_types(),
                provs@ == providers(),
                i < types.len(),
                k <= 3,
                !is_group(service_types()[i as int]),
                r@.len() == 3 * i + k,
                forall|j: int|
                    0 <= j < r@.len() ==> Some(#[trigger] r@[j]@) == cloud_mapping_for(
                        service_types()[j / 3],
                        providers()[j % 3],
                    ),
            decreases 3 - k,
        {
            let entry = cloud_mapping_entry(&types[i], &provs[k]);
            match entry {
                Some(e) => {
                    assert((3 * i + k) / 3 == i as int && (3 * i + k) % 3 == k as int);
                    r.push(e);
                }
                None => { assert(false); }
            }
            k = k + 1;
        }
        i = i + 1;
    }
    r
}

} // verus!

//! Services over whole diagrams: validation, translation to a cloud
//! provider, layout, and the Terraform and Docker Compose generators.
pub mod docker_compose;
pub mod sync_graph;
pub mod terraform;
pub mod translation;
pub mod validation;
pub mod diagram_edits;
pub mod layout;

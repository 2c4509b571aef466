//! The entities of an architecture diagram and the catalogs that map its
//! generic node types to concrete services.
pub mod cloud_catalog;
pub mod diagram;
pub mod docker_catalog;
pub mod edge;
pub mod errors;
pub mod node;
pub mod validation;

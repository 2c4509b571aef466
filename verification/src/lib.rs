//! Verified core of the vibes tools: the diagram domain of nimbus (catalogs,
//! validation, translation, Terraform and Docker Compose generation, the
//! parsing of model output), the computations of the docker dashboard and the
//! weather use case.

pub mod events;
pub mod ids;
pub mod seq_facts;
pub mod text;
pub mod entities;
pub mod services;
pub mod ai;
pub mod persistence;
pub mod api;
pub mod dashboard;
pub mod weather;
pub mod streaming;

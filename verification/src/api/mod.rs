//! What the HTTP interface of the diagram service needs beyond the domain:
//! the request bodies and how domain errors are answered.
pub mod dto;
pub mod errors;

//! Turning a model's structured answer into diagram parts, and the checks
//! that answer must pass.
pub mod node_types;
pub mod parser;
pub mod validator;
pub mod changes;
pub mod prompts;

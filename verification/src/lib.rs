//! A tool-augmented conversation loop.
//!
//! A remote model is asked for the next assistant turn; whenever that turn
//! requests tools, each request is dispatched through the [`tools::ToolRegistry`],
//! the results are appended to the conversation, and the model is asked
//! again. The library holds the bookkeeping and the decisions; sending a
//! request, touching the file system and talking to the operator are left to
//! the program built around it.

pub mod agent;
pub mod anthropic;
pub mod error;
pub mod json;
pub mod models;
pub mod text;
pub mod tools;

pub use agent::Agent;
pub use error::AgentError;

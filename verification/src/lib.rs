//! A manager for a single in-process agent and its lifecycle.
//!
//! The manager ([`AgentCLI`]) holds at most one [`Agent`], enforces the
//! legal lifecycle transitions, and renders the agent's final record as a
//! JSON document when it is shut down. It does no input or output itself:
//! a shutdown says what is to be written, the caller writes it and reports
//! back.
//!
//! Every operation carries a contract over a mathematical model of the
//! manager. [`machine`] defines the lifecycle over that model, [`manager`]
//! holds the executable operations, and [`laws`] proves what relates
//! several operations. [`config`], [`identity`] and [`document`] hold the
//! parts that an agent is made of: its configuration, its identifier, and
//! the layout of its persisted record.

pub mod agent;
pub mod config;
pub mod document;
pub mod error;
pub mod identity;
pub mod laws;
pub mod machine;
pub mod manager;
pub mod state;

pub use agent::{Agent, AgentModel};
pub use config::Config;
pub use error::{AgentError, ErrorModel};
pub use manager::{AgentCLI, RecordFile};
pub use state::AgentState;

//! The ways in which an operation of the manager can fail.

use vstd::prelude::*;
use vstd::string::StringExecFns;

verus! {

/// Why an operation of the manager was refused.
///
/// No failure is fatal: the manager is left in a consistent state and can be
/// used again.
#[derive(Debug, PartialEq, Eq)]
pub enum AgentError {
    /// `create` was called while an agent is live.
    AlreadyExists,
    /// An operation that needs an agent was called while none is live.
    NoAgent,
    /// The skill, carried here, is already among the agent's skills.
    DuplicateSkill(String),
    /// `run` was called on an agent that is running.
    AlreadyRunning,
    /// `run` was called on an agent that is shut down.
    AlreadyShutdown,
    /// The agent's record could not be persisted; carries the message of
    /// the underlying cause.
    PersistenceError(String),
}

/// The mathematical value of an [`AgentError`].
pub enum ErrorModel {
    AlreadyExists,
    NoAgent,
    DuplicateSkill(Seq<char>),
    AlreadyRunning,
    AlreadyShutdown,
    PersistenceError(Seq<char>),
}

impl ErrorModel {
    /// The human-readable text of a failure.
    pub open spec fn message(self) -> Seq<char> {
        match self {
            ErrorModel::AlreadyExists => "Agent already exists"@,
            ErrorModel::NoAgent => "No agent exists"@,
            ErrorModel::DuplicateSkill(skill) => "Skill '"@ + skill + "' already exists"@,
            ErrorModel::AlreadyRunning => "Agent is already running"@,
            ErrorModel::AlreadyShutdown => "Agent is shutdown"@,
            ErrorModel::PersistenceError(cause) => cause,
        }
    }
}

impl View for AgentError {
    type V = ErrorModel;

    open spec fn view(&self) -> ErrorModel {
        match *self {
            AgentError::AlreadyExists => ErrorModel::AlreadyExists,
            AgentError::NoAgent => ErrorModel::NoAgent,
            AgentError::DuplicateSkill(skill) => ErrorModel::DuplicateSkill(skill@),
            AgentError::AlreadyRunning => ErrorModel::AlreadyRunning,
            AgentError::AlreadyShutdown => ErrorModel::AlreadyShutdown,
            AgentError::PersistenceError(cause) => ErrorModel::PersistenceError(cause@),
        }
    }
}

impl AgentError {
    /// Renders the failure as human-readable text.
    pub fn message(&self) -> (text: String)
        ensures
            text@ == self@.message(),
    {
        match self {
            AgentError::AlreadyExists => "Agent already exists".to_owned(),
            AgentError::NoAgent => "No agent exists".to_owned(),
            AgentError::DuplicateSkill(skill) => {
                let mut text = "Skill '".to_owned();
                text.append(skill.as_str());
                text.append("' already exists");
                text
            },
            AgentError::AlreadyRunning => "Agent is already running".to_owned(),
            AgentError::AlreadyShutdown => "Agent is shutdown".to_owned(),
            AgentError::PersistenceError(cause) => cause.clone(),
        }
    }
}

/// The mathematical value of the result of an operation that returns nothing
/// on success.
pub open spec fn outcome_view(r: Result<(), AgentError>) -> Result<(), ErrorModel> {
    match r {
        Ok(()) => Ok(()),
        Err(e) => Err(e@),
    }
}

} // verus!

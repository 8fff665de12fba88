//! The lifecycle states of an agent.

use vstd::prelude::*;
use crate::error::{AgentError, ErrorModel};

verus! {

/// Where an agent stands in its lifecycle.
///
/// `Suspended` is part of the state space although no operation of the
/// manager enters it; an agent found in it can be run again.
#[derive(Debug, Clone, Copy, PartialEq, Eq, Structural)]
pub enum AgentState {
    Created,
    Configured,
    Running,
    Suspended,
    Shutdown,
}

impl AgentState {
    /// The name under which the state appears in a persisted record.
    pub open spec fn label(self) -> Seq<char> {
        match self {
            AgentState::Created => "Created"@,
            AgentState::Configured => "Configured"@,
            AgentState::Running => "Running"@,
            AgentState::Suspended => "Suspended"@,
            AgentState::Shutdown => "Shutdown"@,
        }
    }

    /// Where `run` leads from this state, or why it is refused here.
    pub open spec fn run_target(self) -> Result<AgentState, ErrorModel> {
        match self {
            AgentState::Created => Ok(AgentState::Running),
            AgentState::Configured => Ok(AgentState::Running),
            AgentState::Suspended => Ok(AgentState::Running),
            AgentState::Running => Err(ErrorModel::AlreadyRunning),
            AgentState::Shutdown => Err(ErrorModel::AlreadyShutdown),
        }
    }

    /// Applies `run` to the state: an agent that is neither running nor shut
    /// down starts running.
    pub fn after_run(self) -> (r: Result<AgentState, AgentError>)
        ensures
            match r {
                Ok(next) => self.run_target() == Ok::<AgentState, ErrorModel>(next),
                Err(e) => self.run_target() == Err::<AgentState, ErrorModel>(e@),
            },
    {
        match self {
            AgentState::Created | AgentState::Configured | AgentState::Suspended => Ok(
                AgentState::Running,
            ),
            AgentState::Running => Err(AgentError::AlreadyRunning),
            AgentState::Shutdown => Err(AgentError::AlreadyShutdown),
        }
    }

    /// Returns the state's name as it is written to a persisted record.
    pub fn name(self) -> (r: &'static str)
        ensures
            r@ == self.label(),
    {
        match self {
            AgentState::Created => "Created",
            AgentState::Configured => "Configured",
            AgentState::Running => "Running",
            AgentState::Suspended => "Suspended",
            AgentState::Shutdown => "Shutdown",
        }
    }
}

} // verus!

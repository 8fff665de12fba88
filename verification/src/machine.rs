//! The lifecycle as a state machine over mathematical values.
//!
//! The manager's value is the agent it holds, if any. Each operation is a
//! function from that value and the operation's arguments to the value
//! afterwards and the operation's result. The executable operations are
//! proved to compute exactly these functions.

use vstd::prelude::*;
use crate::agent::AgentModel;
use crate::config::upsert;
use crate::error::ErrorModel;
use crate::identity::id_text;
use crate::state::AgentState;

verus! {

/// The mathematical value of a manager: the agent it holds, if any.
pub type ManagerModel = Option<AgentModel>;

/// The agent that `create` makes for `name` when the number drawn for its
/// identifier is `seed`.
pub open spec fn fresh_agent(name: Seq<char>, seed: u64) -> AgentModel {
    AgentModel {
        id: id_text(seed),
        name,
        skills: Seq::empty(),
        config: Seq::empty(),
        state: AgentState::Created,
    }
}

/// `create`: refused while an agent is held; otherwise the manager holds a
/// fresh agent, a copy of which is the result.
pub open spec fn step_create(held: ManagerModel, name: Seq<char>, seed: u64) -> (
    ManagerModel,
    Result<AgentModel, ErrorModel>,
) {
    match held {
        Some(_) => (held, Err(ErrorModel::AlreadyExists)),
        None => (Some(fresh_agent(name, seed)), Ok(fresh_agent(name, seed))),
    }
}

/// `add_skill`: refused without an agent and for a skill that the agent
/// has; otherwise the skill goes to the end of the agent's skills. The
/// state does not change.
pub open spec fn step_add_skill(held: ManagerModel, skill: Seq<char>) -> (
    ManagerModel,
    Result<(), ErrorModel>,
) {
    match held {
        None => (held, Err(ErrorModel::NoAgent)),
        Some(agent) => if agent.skills.contains(skill) {
            (held, Err(ErrorModel::DuplicateSkill(skill)))
        } else {
            (Some(AgentModel { skills: agent.skills.push(skill), ..agent }), Ok(()))
        },
    }
}

/// `configure`: refused without an agent; otherwise the key is written and
/// the state becomes `Configured`, whatever it was.
pub open spec fn step_configure(held: ManagerModel, key: Seq<char>, value: Seq<char>) -> (
    ManagerModel,
    Result<(), ErrorModel>,
) {
    match held {
        None => (held, Err(ErrorModel::NoAgent)),
        Some(agent) => (
            Some(
                AgentModel {
                    config: upsert(agent.config, key, value),
                    state: AgentState::Configured,
                    ..agent
                },
            ),
            Ok(()),
        ),
    }
}

/// `run`: refused without an agent, for an agent that is running and for one
/// that is shut down; otherwise the state becomes `Running`.
pub open spec fn step_run(held: ManagerModel) -> (ManagerModel, Result<(), ErrorModel>) {
    match held {
        None => (held, Err(ErrorModel::NoAgent)),
        Some(agent) => match agent.state.run_target() {
            Ok(next) => (Some(AgentModel { state: next, ..agent }), Ok(())),
            Err(e) => (held, Err(e)),
        },
    }
}

/// The record that is persisted when `agent` is shut down: the agent in the
/// state `Shutdown`.
pub open spec fn final_record(agent: AgentModel) -> AgentModel {
    AgentModel { state: AgentState::Shutdown, ..agent }
}

/// The name of the file that persists the agent with the identifier `id`.
pub open spec fn file_name_text(id: Seq<char>) -> Seq<char> {
    id + ".json"@
}

/// `shutdown`, given how the write of the agent's record ended: refused
/// without an agent; after a failed write the agent stays as it was and the
/// cause is reported; after a successful write the agent is gone.
pub open spec fn step_shutdown(held: ManagerModel, written: Result<(), Seq<char>>) -> (
    ManagerModel,
    Result<(), ErrorModel>,
) {
    match held {
        None => (held, Err(ErrorModel::NoAgent)),
        Some(_) => match written {
            Ok(()) => (None, Ok(())),
            Err(cause) => (held, Err(ErrorModel::PersistenceError(cause))),
        },
    }
}

} // verus!

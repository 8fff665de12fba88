//! The manager: holder of at most one agent, and the operations on it.

use vstd::prelude::*;
use vstd::string::StringExecFns;
use crate::agent::{Agent, AgentModel};
use crate::config::Config;
use crate::document::texts;
use crate::error::{outcome_view, AgentError, ErrorModel};
use crate::identity::{agent_id, random_seed};
use crate::machine::{
    file_name_text, final_record, step_add_skill, step_configure, step_create, step_run,
    step_shutdown, ManagerModel,
};
use crate::state::AgentState;

verus! {

/// Holds at most one agent and enforces its lifecycle.
///
/// The agent is owned by the manager alone: callers see copies or shared
/// references, and every change goes through an operation of the manager.
pub struct AgentCLI {
    agent: Option<Agent>,
}

impl View for AgentCLI {
    type V = ManagerModel;

    /// The agent that the manager holds, if any.
    closed spec fn view(&self) -> ManagerModel {
        match self.agent {
            Some(agent) => Some(agent@),
            None => None,
        }
    }
}

/// What is to be written when an agent is shut down.
#[derive(Debug)]
pub struct RecordFile {
    /// The name of the file, relative to the working directory.
    pub file_name: String,
    /// The text of the file: the agent's record as a JSON document.
    pub content: String,
}

/// The mathematical value of the outcome of a write.
pub open spec fn written_view(written: Result<(), String>) -> Result<(), Seq<char>> {
    match written {
        Ok(()) => Ok(()),
        Err(cause) => Err(cause@),
    }
}

/// The mathematical value of the result of `create`.
pub open spec fn created_view(r: Result<Agent, AgentError>) -> Result<AgentModel, ErrorModel> {
    match r {
        Ok(agent) => Ok(agent@),
        Err(e) => Err(e@),
    }
}

/// Whether `wanted` is among `items`.
fn has_text(items: &Vec<String>, wanted: &String) -> (found: bool)
    ensures
        found == texts(items@).contains(wanted@),
{
    let mut i: usize = 0;
    while i < items.len()
        invariant
            i <= items.len(),
            forall|j: int| 0 <= j < i ==> (#[trigger] texts(items@)[j]) != wanted@,
        decreases items.len() - i,
    {
        if items[i] == *wanted {
            assert(texts(items@)[i as int] == wanted@);
            return true;
        }
        i += 1;
    }
    false
}

impl AgentCLI {
    /// What holds of every manager: the agent it holds, if any, has no skill
    /// twice and no configuration key twice.
    #[verifier::type_invariant]
    pub open spec fn well_formed(&self) -> bool {
        match self@ {
            Some(agent) => agent.well_formed(),
            None => true,
        }
    }

    /// Creates a manager that holds no agent.
    pub fn new() -> (manager: AgentCLI)
        ensures
            manager@ is None,
    {
        AgentCLI { agent: None }
    }

    /// Creates the agent `name` with the identifier that stands for `seed`.
    ///
    /// Fails with `AlreadyExists`, and changes nothing, while an agent is
    /// held. Otherwise the manager holds a new agent in the state `Created`,
    /// without skills or configuration, and returns a copy of it.
    pub fn create_with_seed(&mut self, name: &str, seed: u64) -> (r: Result<Agent, AgentError>)
        ensures
            (final(self)@, created_view(r)) == step_create(old(self)@, name@, seed),
    {
        if self.agent.is_some() {
            return Err(AgentError::AlreadyExists);
        }
        let agent = Agent {
            id: agent_id(seed),
            name: name.to_owned(),
            skills: Vec::new(),
            config: Config::new(),
            state: AgentState::Created,
        };
        let copy = agent.clone();
        assert(agent@.skills =~= Seq::<Seq<char>>::empty());
        self.agent = Some(agent);
        Ok(copy)
    }

    /// Creates the agent `name` under a freshly drawn identifier.
    ///
    /// Fails with `AlreadyExists`, and changes nothing, while an agent is
    /// held. Otherwise behaves as `create_with_seed` does for some number.
    /// The number comes from the random generator of the current thread,
    /// which panics when the random source of the operating system fails.
    pub fn create(&mut self, name: &str) -> (r: Result<Agent, AgentError>)
        ensures
            old(self)@ is Some ==> created_view(r) == Err::<AgentModel, ErrorModel>(
                ErrorModel::AlreadyExists,
            ) && final(self)@ == old(self)@,
            exists|seed: u64|
                (final(self)@, created_view(r)) == #[trigger] step_create(old(self)@, name@, seed),
    {
        if self.agent.is_some() {
            assert((self@, created_view(Err(AgentError::AlreadyExists))) == step_create(
                old(self)@,
                name@,
                0,
            ));
            return Err(AgentError::AlreadyExists);
        }
        let seed: u64 = random_seed();
        self.create_with_seed(name, seed)
    }

    /// Starts the agent.
    ///
    /// Fails with `NoAgent` while no agent is held, with `AlreadyRunning`
    /// for an agent that is running and with `AlreadyShutdown` for one that
    /// is shut down; a failure changes nothing. From `Created`, `Configured`
    /// and `Suspended` the agent's state becomes `Running`.
    pub fn run(&mut self) -> (r: Result<(), AgentError>)
        ensures
            (final(self)@, outcome_view(r)) == step_run(old(self)@),
    {
        proof {
            use_type_invariant(&*self);
        }
        let mut held: Option<Agent> = None;
        std::mem::swap(&mut self.agent, &mut held);
        match held {
            None => Err(AgentError::NoAgent),
            Some(mut agent) => {
                match agent.state.after_run() {
                    Ok(next) => {
                        agent.state = next;
                        self.agent = Some(agent);
                        Ok(())
                    },
                    Err(e) => {
                        self.agent = Some(agent);
                        Err(e)
                    },
                }
            },
        }
    }

    /// Adds `skill` to the agent's skills.
    ///
    /// Fails with `NoAgent` while no agent is held and with `DuplicateSkill`
    /// for a skill that the agent has, compared character by character; a
    /// failure changes nothing. Otherwise the skill becomes the last of the
    /// agent's skills. The agent's state does not change.
    pub fn add_skill(&mut self, skill: &str) -> (r: Result<(), AgentError>)
        ensures
            (final(self)@, outcome_view(r)) == step_add_skill(old(self)@, skill@),
    {
        proof {
            use_type_invariant(&*self);
        }
        let mut held: Option<Agent> = None;
        std::mem::swap(&mut self.agent, &mut held);
        match held {
            None => Err(AgentError::NoAgent),
            Some(mut agent) => {
                let wanted = skill.to_owned();
                if has_text(&agent.skills, &wanted) {
                    self.agent = Some(agent);
                    Err(AgentError::DuplicateSkill(wanted))
                } else {
                    let ghost before = texts(agent.skills@);
                    agent.skills.push(wanted);
                    assert(texts(agent.skills@) =~= before.push(skill@));
                    self.agent = Some(agent);
                    Ok(())
                }
            },
        }
    }

    /// Binds the configuration key `key` to `value`.
    ///
    /// Fails with `NoAgent` while no agent is held. Otherwise the key is
    /// bound to the value, replacing an earlier value, and the agent's state
    /// becomes `Configured`, whatever it was.
    pub fn configure(&mut self, key: &str, value: &str) -> (r: Result<(), AgentError>)
        ensures
            (final(self)@, outcome_view(r)) == step_configure(old(self)@, key@, value@),
    {
        proof {
            use_type_invariant(&*self);
        }
        let mut held: Option<Agent> = None;
        std::mem::swap(&mut self.agent, &mut held);
        match held {
            None => Err(AgentError::NoAgent),
            Some(mut agent) => {
                agent.config.insert(key.to_owned(), value.to_owned());
                agent.state = AgentState::Configured;
                proof {
                    use_type_invariant(&agent.config);
                }
                self.agent = Some(agent);
                Ok(())
            },
        }
    }

    /// Prepares the shutdown of the agent: says what is to be written, and
    /// where. The manager itself does not change.
    ///
    /// Fails with `NoAgent` while no agent is held. While one is held the
    /// call succeeds: the result names the file `<id>.json` and holds the
    /// JSON document of the agent in the state `Shutdown`. The caller writes
    /// the file and reports to `shutdown` how the write ended.
    pub fn prepare_shutdown(&self) -> (r: Result<RecordFile, AgentError>)
        ensures
            match self@ {
                None => r matches Err(e) && e@ == ErrorModel::NoAgent,
                Some(agent) => r matches Ok(file) && file.file_name@ == file_name_text(agent.id)
                    && file.content@ == final_record(agent).document(),
            },
    {
        match &self.agent {
            None => Err(AgentError::NoAgent),
            Some(agent) => {
                let mut record = agent.clone();
                record.state = AgentState::Shutdown;
                match record.to_json() {
                    Ok(content) => {
                        let mut file_name = agent.id.clone();
                        file_name.append(".json");
                        Ok(RecordFile { file_name, content })
                    },
                    Err(e) => Err(e),
                }
            },
        }
    }

    /// Completes the shutdown of the agent, given in `written` how the write
    /// of its record ended.
    ///
    /// Fails with `NoAgent` while no agent is held. After a failed write the
    /// result is a `PersistenceError` with the cause that `written` carries,
    /// and the agent stays as it was. After a successful write the manager
    /// holds no agent.
    ///
    /// The state of a held agent is never set to `Shutdown`: only the
    /// written record carries it, so a failed write leaves nothing to undo.
    /// The manager relies on the caller's report; it does not write itself.
    pub fn shutdown(&mut self, written: Result<(), String>) -> (r: Result<(), AgentError>)
        ensures
            (final(self)@, outcome_view(r)) == step_shutdown(old(self)@, written_view(written)),
    {
        if self.agent.is_none() {
            return Err(AgentError::NoAgent);
        }
        match written {
            Ok(()) => {
                self.agent = None;
                Ok(())
            },
            Err(cause) => Err(AgentError::PersistenceError(cause)),
        }
    }

    /// Returns the agent that the manager holds, if any.
    pub fn get_agent(&self) -> (held: Option<&Agent>)
        ensures
            match held {
                Some(agent) => self@ == Some(agent@) && agent@.well_formed(),
                None => self@ is None,
            },
    {
        proof {
            use_type_invariant(self);
        }
        self.agent.as_ref()
    }
}

} // verus!

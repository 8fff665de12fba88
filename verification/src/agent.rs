//! The agent record and its mathematical model.

use vstd::prelude::*;
use crate::config::{as_map, keys_distinct, text_pairs, Config, Entries};
use crate::document::{frame_record, json_string_literal, record_text, string_literal, texts};
use crate::error::AgentError;
use crate::state::AgentState;

verus! {

/// An agent: the one entity that the manager holds.
#[derive(Debug)]
pub struct Agent {
    /// Opaque identifier, generated when the agent is created; the name of
    /// the persisted file is built from it.
    pub id: String,
    /// The label that the caller gave the agent; never changes.
    pub name: String,
    /// The agent's skills, without duplicates, in the order in which they
    /// were added.
    pub skills: Vec<String>,
    /// The agent's configuration.
    pub config: Config,
    /// Where the agent stands in its lifecycle.
    pub state: AgentState,
}

/// The mathematical value of an [`Agent`].
pub struct AgentModel {
    pub id: Seq<char>,
    pub name: Seq<char>,
    pub skills: Seq<Seq<char>>,
    pub config: Entries,
    pub state: AgentState,
}

impl AgentModel {
    /// No skill occurs twice and no configuration key is bound twice.
    pub open spec fn well_formed(self) -> bool {
        &&& self.skills.no_duplicates()
        &&& keys_distinct(self.config)
    }

    /// The configuration as a mapping from keys to values.
    pub open spec fn settings(self) -> Map<Seq<char>, Seq<char>> {
        as_map(self.config)
    }

    /// The JSON document that persists the agent.
    pub open spec fn document(self) -> Seq<char> {
        record_text(
            json_string_literal(self.id),
            json_string_literal(self.name),
            self.skills.map_values(|skill: Seq<char>| json_string_literal(skill)),
            self.config.map_values(
                |entry: (Seq<char>, Seq<char>)|
                    (json_string_literal(entry.0), json_string_literal(entry.1)),
            ),
            json_string_literal(self.state.label()),
        )
    }
}

impl View for Agent {
    type V = AgentModel;

    open spec fn view(&self) -> AgentModel {
        AgentModel {
            id: self.id@,
            name: self.name@,
            skills: texts(self.skills@),
            config: self.config.entries(),
            state: self.state,
        }
    }
}

impl Clone for Agent {
    /// Copies the agent, field for field.
    fn clone(&self) -> (copy: Agent)
        ensures
            copy@ == self@,
    {
        let mut skills: Vec<String> = Vec::new();
        let mut i: usize = 0;
        while i < self.skills.len()
            invariant
                i <= self.skills.len(),
                skills.len() == i,
                forall|j: int| 0 <= j < i ==> (#[trigger] skills[j])@ == self.skills[j]@,
            decreases self.skills.len() - i,
        {
            skills.push(self.skills[i].clone());
            i += 1;
        }
        assert(texts(skills@) =~= texts(self.skills@));
        Agent {
            id: self.id.clone(),
            name: self.name.clone(),
            skills,
            config: self.config.clone(),
            state: self.state,
        }
    }
}

impl Agent {
    /// Renders the agent as the JSON document that persists it.
    ///
    /// The result is always `Ok`: every agent has a document.
    pub fn to_json(&self) -> (r: Result<String, AgentError>)
        ensures
            r matches Ok(text) && text@ == self@.document(),
    {
        let id = match string_literal(self.id.as_str()) {
            Ok(literal) => literal,
            Err(e) => { return Err(e); },
        };
        let name = match string_literal(self.name.as_str()) {
            Ok(literal) => literal,
            Err(e) => { return Err(e); },
        };
        let mut skills: Vec<String> = Vec::new();
        let mut i: usize = 0;
        while i < self.skills.len()
            invariant
                i <= self.skills.len(),
                skills.len() == i,
                forall|j: int|
                    0 <= j < i ==> (#[trigger] skills[j])@ == json_string_literal(
                        self.skills[j]@,
                    ),
            decreases self.skills.len() - i,
        {
            match string_literal(self.skills[i].as_str()) {
                Ok(literal) => { skills.push(literal); },
                Err(e) => { return Err(e); },
            }
            i += 1;
        }
        let pairs = self.config.pairs();
        let mut config: Vec<(String, String)> = Vec::new();
        let mut k: usize = 0;
        while k < pairs.len()
            invariant
                k <= pairs.len(),
                config.len() == k,
                forall|j: int|
                    0 <= j < k ==> (#[trigger] config[j]).0@ == json_string_literal(pairs[j].0@)
                        && config[j].1@ == json_string_literal(pairs[j].1@),
            decreases pairs.len() - k,
        {
            let key = match string_literal(pairs[k].0.as_str()) {
                Ok(literal) => literal,
                Err(e) => { return Err(e); },
            };
            let value = match string_literal(pairs[k].1.as_str()) {
                Ok(literal) => literal,
                Err(e) => { return Err(e); },
            };
            config.push((key, value));
            k += 1;
        }
        let state = match string_literal(self.state.name()) {
            Ok(literal) => literal,
            Err(e) => { return Err(e); },
        };
        proof {
            assert(texts(skills@) =~= self@.skills.map_values(
                |skill: Seq<char>| json_string_literal(skill),
            ));
            assert(text_pairs(config@) =~= text_pairs(pairs@).map_values(
                |entry: (Seq<char>, Seq<char>)|
                    (json_string_literal(entry.0), json_string_literal(entry.1)),
            ));
        }
        Ok(frame_record(id.as_str(), name.as_str(), &skills, &config, state.as_str()))
    }
}

} // verus!

//! Laws of the lifecycle, proved of the state machine that the operations
//! of the manager compute.

use vstd::prelude::*;
use crate::agent::AgentModel;
use crate::config::{lemma_upsert_is_map_insert, lemma_upsert_keeps_keys_distinct, upsert};
use crate::document::{is_plain, json_string_literal, law_plain_text_is_quoted_unchanged};
use crate::error::ErrorModel;
use crate::identity::{decimal_text, digit_text, id_text};
use crate::machine::{
    final_record, step_add_skill, step_configure, step_create, step_run, step_shutdown,
    ManagerModel,
};
use crate::state::AgentState;

verus! {

/// How often `wanted` occurs among `items`.
pub open spec fn occurrences(items: Seq<Seq<char>>, wanted: Seq<char>) -> nat
    decreases items.len(),
{
    if items.len() == 0 {
        0
    } else {
        occurrences(items.drop_last(), wanted) + if items.last() == wanted {
            1nat
        } else {
            0nat
        }
    }
}

/// What does not occur among the items occurs zero times; what occurs
/// among items without duplicates occurs once.
pub proof fn lemma_occurrences(items: Seq<Seq<char>>, wanted: Seq<char>)
    ensures
        !items.contains(wanted) ==> occurrences(items, wanted) == 0,
        items.no_duplicates() && items.contains(wanted) ==> occurrences(items, wanted) == 1,
    decreases items.len(),
{
    if items.len() > 0 {
        let front = items.drop_last();
        lemma_occurrences(front, wanted);
        let last = items.len() - 1;
        if !items.contains(wanted) {
            assert(items[last] != wanted);
            assert forall|i: int| 0 <= i < front.len() implies front[i] != wanted by {
                assert(items[i] == front[i]);
            }
        }
        if items.no_duplicates() && items.contains(wanted) {
            assert(front.no_duplicates()) by {
                assert forall|i: int, j: int|
                    0 <= i < front.len() && 0 <= j < front.len() && i != j implies front[i]
                    != front[j] by {
                    assert(items[i] != items[j]);
                }
            }
            if items[last] == wanted {
                assert forall|i: int| 0 <= i < front.len() implies front[i] != wanted by {
                    assert(items[i] != items[last]);
                }
            } else {
                let at = choose|i: int| 0 <= i < items.len() && items[i] == wanted;
                assert(front[at] == wanted);
            }
        }
    }
}

/// While an agent is held, `create` fails with `AlreadyExists` and the
/// agent stays as it was, whatever the name and the identifier asked for.
pub proof fn law_create_refused_while_agent_held(agent: AgentModel, name: Seq<char>, seed: u64)
    ensures
        step_create(Some(agent), name, seed) == (
            Some(agent),
            Err::<AgentModel, ErrorModel>(ErrorModel::AlreadyExists),
        ),
{
}

/// Adding the same skill twice in succession to a held agent: the first
/// call succeeds exactly if the agent did not have the skill, the second
/// fails with `DuplicateSkill` and changes nothing, and afterwards the
/// agent has the skill exactly once.
pub proof fn law_add_skill_twice(agent: AgentModel, skill: Seq<char>)
    requires
        agent.well_formed(),
    ensures
        ({
            let (after_first, first) = step_add_skill(Some(agent), skill);
            let (after_second, second) = step_add_skill(after_first, skill);
            &&& first is Ok <==> !agent.skills.contains(skill)
            &&& first is Err ==> first == Err::<(), ErrorModel>(ErrorModel::DuplicateSkill(skill))
            &&& second == Err::<(), ErrorModel>(ErrorModel::DuplicateSkill(skill))
            &&& after_second == after_first
            &&& after_first matches Some(now) && now.well_formed() && occurrences(
                now.skills,
                skill,
            ) == 1
        }),
{
    let (after_first, first) = step_add_skill(Some(agent), skill);
    if agent.skills.contains(skill) {
        lemma_occurrences(agent.skills, skill);
    } else {
        let now = after_first->0;
        assert(now.skills[agent.skills.len() as int] == skill);
        assert(now.skills.no_duplicates()) by {
            assert forall|i: int, j: int|
                0 <= i < now.skills.len() && 0 <= j < now.skills.len() && i != j implies now.skills[i]
                != now.skills[j] by {
                if i < agent.skills.len() && j < agent.skills.len() {
                    assert(agent.skills[i] != agent.skills[j]);
                } else if i < agent.skills.len() {
                    assert(agent.skills[i] != skill);
                } else {
                    assert(agent.skills[j] != skill);
                }
            }
        }
        lemma_occurrences(now.skills, skill);
    }
}

/// Writing a configuration key twice in succession on a held agent: both
/// calls succeed, the state is `Configured` after each of them whatever it
/// was before, and afterwards the key is bound to the value written last,
/// every other key as it was before the two calls.
pub proof fn law_configure_last_write_wins(
    agent: AgentModel,
    key: Seq<char>,
    first_value: Seq<char>,
    second_value: Seq<char>,
)
    requires
        agent.well_formed(),
    ensures
        ({
            let (after_first, first) = step_configure(Some(agent), key, first_value);
            let (after_second, second) = step_configure(after_first, key, second_value);
            &&& first == Ok::<(), ErrorModel>(())
            &&& second == Ok::<(), ErrorModel>(())
            &&& after_first matches Some(once) && once.state == AgentState::Configured
                && once.settings().contains_key(key) && once.settings()[key] == first_value
            &&& after_second matches Some(twice) && twice.state == AgentState::Configured
                && twice.settings().contains_key(key) && twice.settings()[key] == second_value
                && twice.settings() == agent.settings().insert(key, second_value)
        }),
{
    let once = upsert(agent.config, key, first_value);
    lemma_upsert_keeps_keys_distinct(agent.config, key, first_value);
    lemma_upsert_is_map_insert(agent.config, key, first_value);
    lemma_upsert_is_map_insert(once, key, second_value);
    assert(agent.settings().insert(key, first_value).insert(key, second_value)
        =~= agent.settings().insert(key, second_value));
}

/// `run` on a held agent, state by state: from `Created`, `Configured` and
/// `Suspended` it succeeds and the agent is running; from `Running` it
/// fails with `AlreadyRunning`, from `Shutdown` with `AlreadyShutdown`, and
/// the agent stays as it was.
pub proof fn law_run_by_state(agent: AgentModel)
    ensures
        match agent.state {
            AgentState::Created | AgentState::Configured | AgentState::Suspended => step_run(
                Some(agent),
            ) == (
                Some(AgentModel { state: AgentState::Running, ..agent }),
                Ok::<(), ErrorModel>(()),
            ),
            AgentState::Running => step_run(Some(agent)) == (
                Some(agent),
                Err::<(), ErrorModel>(ErrorModel::AlreadyRunning),
            ),
            AgentState::Shutdown => step_run(Some(agent)) == (
                Some(agent),
                Err::<(), ErrorModel>(ErrorModel::AlreadyShutdown),
            ),
        },
{
}

/// Shutting down a held agent whose record was written leaves the manager
/// without an agent, whatever the agent's state was; the record that was
/// written is the agent in the state `Shutdown`, all else unchanged.
pub proof fn law_shutdown_clears(agent: AgentModel)
    ensures
        step_shutdown(Some(agent), Ok(())) == (None::<AgentModel>, Ok::<(), ErrorModel>(())),
        final_record(agent).state == AgentState::Shutdown,
        final_record(agent).id == agent.id,
        final_record(agent).name == agent.name,
        final_record(agent).skills == agent.skills,
        final_record(agent).config == agent.config,
{
}

/// Shutting down a held agent whose record could not be written fails
/// with a `PersistenceError` that carries the cause, and the agent stays
/// as it was: a later shutdown can still succeed.
pub proof fn law_failed_write_keeps_agent(agent: AgentModel, cause: Seq<char>)
    ensures
        step_shutdown(Some(agent), Err(cause)) == (
            Some(agent),
            Err::<(), ErrorModel>(ErrorModel::PersistenceError(cause)),
        ),
        step_shutdown(step_shutdown(Some(agent), Err(cause)).0, Ok(())) == (
            None::<AgentModel>,
            Ok::<(), ErrorModel>(()),
        ),
{
}

/// While no agent is held, `create` succeeds and every other operation
/// fails with `NoAgent`, leaving the manager without an agent. This is so
/// in a new manager and after a shutdown.
pub proof fn law_no_agent_refuses_all_but_create(
    text: Seq<char>,
    value: Seq<char>,
    seed: u64,
    written: Result<(), Seq<char>>,
)
    ensures
        step_create(None, text, seed).1 is Ok,
        step_create(None, text, seed).0 is Some,
        step_add_skill(None, text) == (None::<AgentModel>, Err::<(), ErrorModel>(ErrorModel::NoAgent)),
        step_configure(None, text, value) == (
            None::<AgentModel>,
            Err::<(), ErrorModel>(ErrorModel::NoAgent),
        ),
        step_run(None) == (None::<AgentModel>, Err::<(), ErrorModel>(ErrorModel::NoAgent)),
        step_shutdown(None, written) == (
            None::<AgentModel>,
            Err::<(), ErrorModel>(ErrorModel::NoAgent),
        ),
{
}

/// While an agent is held its identifier and its name never change, and
/// each operation changes only what it is for: `add_skill` the skills,
/// `configure` the configuration and the state, `run` the state.
pub proof fn law_operations_change_only_their_own(
    agent: AgentModel,
    text: Seq<char>,
    value: Seq<char>,
    cause: Seq<char>,
)
    ensures
        step_add_skill(Some(agent), text).0 matches Some(after) && after.id == agent.id
            && after.name == agent.name && after.config == agent.config && after.state
            == agent.state,
        step_configure(Some(agent), text, value).0 matches Some(after) && after.id == agent.id
            && after.name == agent.name && after.skills == agent.skills,
        step_run(Some(agent)).0 matches Some(after) && after.id == agent.id && after.name
            == agent.name && after.skills == agent.skills && after.config == agent.config,
        step_shutdown(Some(agent), Err(cause)).0 == Some(agent),
{
}

/// Whether an agent held `after` an operation is in the state `Suspended`
/// or `Shutdown` only if the agent held `before` was in that state.
pub open spec fn enters_no_reserved_state(before: ManagerModel, after: ManagerModel) -> bool {
    after matches Some(now) ==> (now.state == AgentState::Suspended || now.state
        == AgentState::Shutdown) ==> (before matches Some(was) && was.state == now.state)
}

/// No operation puts a held agent into the state `Suspended` or
/// `Shutdown`: an agent is found in one of them after an operation only
/// if it was in it before. In particular the state `Shutdown` is carried
/// by the written record alone.
pub proof fn law_suspended_and_shutdown_are_never_entered(
    held: ManagerModel,
    text: Seq<char>,
    value: Seq<char>,
    seed: u64,
    written: Result<(), Seq<char>>,
)
    ensures
        enters_no_reserved_state(held, step_create(held, text, seed).0),
        enters_no_reserved_state(held, step_add_skill(held, text).0),
        enters_no_reserved_state(held, step_configure(held, text, value).0),
        enters_no_reserved_state(held, step_run(held).0),
        enters_no_reserved_state(held, step_shutdown(held, written).0),
{
}

/// No digit of a number written in decimal is a character that JSON
/// escapes.
proof fn lemma_decimal_text_is_plain(n: nat)
    ensures
        forall|i: int| 0 <= i < decimal_text(n).len() ==> is_plain(#[trigger] decimal_text(n)[i]),
    decreases n,
{
    reveal_strlit("0");
    reveal_strlit("1");
    reveal_strlit("2");
    reveal_strlit("3");
    reveal_strlit("4");
    reveal_strlit("5");
    reveal_strlit("6");
    reveal_strlit("7");
    reveal_strlit("8");
    reveal_strlit("9");
    let last = digit_text(n % 10);
    assert(last.len() == 1 && is_plain(last[0]));
    if n >= 10 {
        lemma_decimal_text_is_plain(n / 10);
        let front = decimal_text(n / 10);
        assert forall|i: int| 0 <= i < decimal_text(n).len() implies is_plain(
            #[trigger] decimal_text(n)[i],
        ) by {
            if i < front.len() {
                assert(decimal_text(n)[i] == front[i]);
            } else {
                assert(decimal_text(n)[i] == last[0]);
            }
        }
    }
}

/// In a persisted record the identifier and the state stand between their
/// quotes as they are: neither holds a character that JSON escapes.
pub proof fn law_identifier_and_state_are_written_unchanged(seed: u64, state: AgentState)
    ensures
        json_string_literal(id_text(seed)) == seq!['"'] + id_text(seed) + seq!['"'],
        json_string_literal(state.label()) == seq!['"'] + state.label() + seq!['"'],
{
    reveal_strlit("agent-");
    lemma_decimal_text_is_plain(seed as nat);
    law_plain_text_is_quoted_unchanged(id_text(seed));
    reveal_strlit("Created");
    reveal_strlit("Configured");
    reveal_strlit("Running");
    reveal_strlit("Suspended");
    reveal_strlit("Shutdown");
    law_plain_text_is_quoted_unchanged(state.label());
}

/// An operation that fails leaves the manager as it was.
pub proof fn law_failure_changes_nothing(
    held: ManagerModel,
    text: Seq<char>,
    value: Seq<char>,
    seed: u64,
    written: Result<(), Seq<char>>,
)
    ensures
        step_create(held, text, seed).1 is Err ==> step_create(held, text, seed).0 == held,
        step_add_skill(held, text).1 is Err ==> step_add_skill(held, text).0 == held,
        step_configure(held, text, value).1 is Err ==> step_configure(held, text, value).0 == held,
        step_run(held).1 is Err ==> step_run(held).0 == held,
        step_shutdown(held, written).1 is Err ==> step_shutdown(held, written).0 == held,
{
}

/// Whether the agent that a manager holds, if any, is well formed.
pub open spec fn held_well_formed(held: ManagerModel) -> bool {
    match held {
        Some(agent) => agent.well_formed(),
        None => true,
    }
}

/// Every operation keeps the held agent well formed: no skill twice, no
/// configuration key twice.
pub proof fn law_operations_keep_well_formedness(
    held: ManagerModel,
    text: Seq<char>,
    value: Seq<char>,
    seed: u64,
    written: Result<(), Seq<char>>,
)
    requires
        held_well_formed(held),
    ensures
        held_well_formed(step_create(held, text, seed).0),
        held_well_formed(step_add_skill(held, text).0),
        held_well_formed(step_configure(held, text, value).0),
        held_well_formed(step_run(held).0),
        held_well_formed(step_shutdown(held, written).0),
{
    if let Some(agent) = held {
        law_add_skill_twice(agent, text);
        lemma_upsert_keeps_keys_distinct(agent.config, text, value);
    }
}

} // verus!

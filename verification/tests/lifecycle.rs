use agent_cli::{AgentCLI, AgentError, AgentState};

#[test]
fn test_create_agent() {
    let mut cli = AgentCLI::new();
    assert!(cli.create("test-agent").is_ok());
    let agent = cli.get_agent().unwrap();
    assert_eq!(agent.name, "test-agent");
    assert_eq!(agent.state, AgentState::Created);
    assert!(cli.create("another-agent").is_err());
}

#[test]
fn test_add_skill() {
    let mut cli = AgentCLI::new();
    cli.create("test-agent").unwrap();
    assert!(cli.add_skill("memory").is_ok());
    assert!(cli.add_skill("memory").is_err());
    let agent = cli.get_agent().unwrap();
    assert_eq!(agent.skills, vec!["memory"]);
}

#[test]
fn test_configure() {
    let mut cli = AgentCLI::new();
    cli.create("test-agent").unwrap();
    assert!(cli.configure("goal", "assist user").is_ok());
    let agent = cli.get_agent().unwrap();
    assert_eq!(agent.config.get("goal"), Some(&"assist user".to_string()));
    assert_eq!(agent.state, AgentState::Configured);
}

#[test]
fn test_run() {
    let mut cli = AgentCLI::new();
    cli.create("test-agent").unwrap();
    assert!(cli.run().is_ok());
    let agent = cli.get_agent().unwrap();
    assert_eq!(agent.state, AgentState::Running);
    assert!(cli.run().is_err());
}

#[test]
fn test_shutdown() {
    let mut cli = AgentCLI::new();
    cli.create("test-agent").unwrap();
    assert!(cli.prepare_shutdown().is_ok());
    assert!(cli.shutdown(Ok(())).is_ok());
    let agent = cli.get_agent();
    assert!(agent.is_none());
}

#[test]
fn new_manager_holds_no_agent() {
    let cli = AgentCLI::new();
    assert!(cli.get_agent().is_none());
}

#[test]
fn create_returns_a_copy_of_the_new_agent() {
    let mut cli = AgentCLI::new();
    let copy = cli.create_with_seed("bot", 7).unwrap();
    assert_eq!(copy.id, "agent-7");
    assert_eq!(copy.name, "bot");
    assert!(copy.skills.is_empty());
    assert_eq!(copy.config.len(), 0);
    assert_eq!(copy.state, AgentState::Created);
    let held = cli.get_agent().unwrap();
    assert_eq!(held.id, "agent-7");
    assert_eq!(held.name, "bot");
    assert!(held.skills.is_empty());
    assert_eq!(held.config.len(), 0);
    assert_eq!(held.state, AgentState::Created);
}

#[test]
fn create_accepts_an_empty_name() {
    let mut cli = AgentCLI::new();
    let copy = cli.create_with_seed("", 1).unwrap();
    assert_eq!(copy.name, "");
}

#[test]
fn create_draws_an_identifier() {
    let mut cli = AgentCLI::new();
    let copy = cli.create("bot").unwrap();
    let number = copy.id.strip_prefix("agent-").unwrap();
    let seed: u64 = number.parse().unwrap();
    assert_eq!(copy.id, format!("agent-{}", seed));
    assert_eq!(cli.get_agent().unwrap().id, copy.id);
}

#[test]
fn create_while_agent_exists_changes_nothing() {
    let mut cli = AgentCLI::new();
    cli.create_with_seed("first", 1).unwrap();
    cli.add_skill("memory").unwrap();
    cli.configure("goal", "assist").unwrap();
    cli.run().unwrap();
    assert_eq!(cli.create("second").unwrap_err(), AgentError::AlreadyExists);
    assert_eq!(cli.create_with_seed("third", 3).unwrap_err(), AgentError::AlreadyExists);
    let agent = cli.get_agent().unwrap();
    assert_eq!(agent.id, "agent-1");
    assert_eq!(agent.name, "first");
    assert_eq!(agent.skills, vec!["memory"]);
    assert_eq!(agent.config.len(), 1);
    assert_eq!(agent.config.get("goal"), Some(&"assist".to_string()));
    assert_eq!(agent.state, AgentState::Running);
}

#[test]
fn add_skill_twice_keeps_one_copy() {
    let mut cli = AgentCLI::new();
    cli.create("bot").unwrap();
    cli.add_skill("search").unwrap();
    assert_eq!(cli.add_skill("memory"), Ok(()));
    assert_eq!(
        cli.add_skill("memory"),
        Err(AgentError::DuplicateSkill("memory".to_string()))
    );
    let agent = cli.get_agent().unwrap();
    assert_eq!(agent.skills.iter().filter(|s| s.as_str() == "memory").count(), 1);
    assert_eq!(agent.skills, vec!["search", "memory"]);
}

#[test]
fn add_skill_compares_case_sensitively() {
    let mut cli = AgentCLI::new();
    cli.create("bot").unwrap();
    assert_eq!(cli.add_skill("memory"), Ok(()));
    assert_eq!(cli.add_skill("Memory"), Ok(()));
    assert_eq!(cli.add_skill(""), Ok(()));
    assert_eq!(cli.add_skill(""), Err(AgentError::DuplicateSkill(String::new())));
    assert_eq!(cli.get_agent().unwrap().skills, vec!["memory", "Memory", ""]);
}

#[test]
fn add_skill_keeps_the_state() {
    let mut cli = AgentCLI::new();
    cli.create("bot").unwrap();
    cli.add_skill("a").unwrap();
    assert_eq!(cli.get_agent().unwrap().state, AgentState::Created);
    cli.run().unwrap();
    cli.add_skill("b").unwrap();
    assert_eq!(cli.get_agent().unwrap().state, AgentState::Running);
    assert!(cli.add_skill("b").is_err());
    assert_eq!(cli.get_agent().unwrap().state, AgentState::Running);
}

#[test]
fn configure_last_write_wins() {
    let mut cli = AgentCLI::new();
    cli.create("bot").unwrap();
    cli.configure("mode", "fast").unwrap();
    assert_eq!(cli.configure("goal", "assist"), Ok(()));
    assert_eq!(cli.get_agent().unwrap().config.get("goal"), Some(&"assist".to_string()));
    assert_eq!(cli.get_agent().unwrap().state, AgentState::Configured);
    assert_eq!(cli.configure("goal", "explain"), Ok(()));
    let agent = cli.get_agent().unwrap();
    assert_eq!(agent.config.get("goal"), Some(&"explain".to_string()));
    assert_eq!(agent.config.get("mode"), Some(&"fast".to_string()));
    assert_eq!(agent.config.len(), 2);
    assert_eq!(agent.state, AgentState::Configured);
}

#[test]
fn configure_resets_a_running_agent_to_configured() {
    let mut cli = AgentCLI::new();
    cli.create("bot").unwrap();
    cli.run().unwrap();
    assert_eq!(cli.get_agent().unwrap().state, AgentState::Running);
    assert_eq!(cli.configure("goal", "assist"), Ok(()));
    assert_eq!(cli.get_agent().unwrap().state, AgentState::Configured);
    assert_eq!(cli.run(), Ok(()));
    assert_eq!(cli.get_agent().unwrap().state, AgentState::Running);
}

#[test]
fn run_from_created_and_configured() {
    let mut cli = AgentCLI::new();
    cli.create("bot").unwrap();
    assert_eq!(cli.run(), Ok(()));
    assert_eq!(cli.run(), Err(AgentError::AlreadyRunning));
    assert_eq!(cli.get_agent().unwrap().state, AgentState::Running);

    let mut other = AgentCLI::new();
    other.create("bot").unwrap();
    other.configure("k", "v").unwrap();
    assert_eq!(other.run(), Ok(()));
    assert_eq!(other.get_agent().unwrap().state, AgentState::Running);
}

#[test]
fn run_transition_by_state() {
    assert_eq!(AgentState::Created.after_run(), Ok(AgentState::Running));
    assert_eq!(AgentState::Configured.after_run(), Ok(AgentState::Running));
    assert_eq!(AgentState::Suspended.after_run(), Ok(AgentState::Running));
    assert_eq!(AgentState::Running.after_run(), Err(AgentError::AlreadyRunning));
    assert_eq!(AgentState::Shutdown.after_run(), Err(AgentError::AlreadyShutdown));
}

#[test]
fn operations_without_agent_fail_with_no_agent() {
    let mut cli = AgentCLI::new();
    assert_eq!(cli.add_skill("x"), Err(AgentError::NoAgent));
    assert_eq!(cli.configure("k", "v"), Err(AgentError::NoAgent));
    assert_eq!(cli.run(), Err(AgentError::NoAgent));
    assert_eq!(cli.prepare_shutdown().unwrap_err(), AgentError::NoAgent);
    assert_eq!(cli.shutdown(Ok(())), Err(AgentError::NoAgent));
    assert_eq!(cli.shutdown(Err("disk full".to_string())), Err(AgentError::NoAgent));
    assert!(cli.get_agent().is_none());
}

#[test]
fn add_skill_without_create_fails_with_no_agent() {
    let mut cli = AgentCLI::new();
    assert_eq!(cli.add_skill("x"), Err(AgentError::NoAgent));
}

#[test]
fn shutdown_after_shutdown_reports_no_agent() {
    let mut cli = AgentCLI::new();
    cli.create("bot").unwrap();
    assert_eq!(cli.shutdown(Ok(())), Ok(()));
    assert_eq!(cli.shutdown(Ok(())), Err(AgentError::NoAgent));
    assert_eq!(cli.run(), Err(AgentError::NoAgent));
}

#[test]
fn failed_write_leaves_the_agent_as_it_was() {
    let mut cli = AgentCLI::new();
    cli.create_with_seed("bot", 5).unwrap();
    cli.add_skill("memory").unwrap();
    cli.run().unwrap();
    assert_eq!(
        cli.shutdown(Err("permission denied".to_string())),
        Err(AgentError::PersistenceError("permission denied".to_string()))
    );
    let agent = cli.get_agent().unwrap();
    assert_eq!(agent.id, "agent-5");
    assert_eq!(agent.name, "bot");
    assert_eq!(agent.skills, vec!["memory"]);
    assert_eq!(agent.state, AgentState::Running);
    assert_eq!(cli.shutdown(Ok(())), Ok(()));
    assert!(cli.get_agent().is_none());
}

#[test]
fn prepare_shutdown_changes_nothing() {
    let mut cli = AgentCLI::new();
    cli.create_with_seed("bot", 5).unwrap();
    cli.run().unwrap();
    let file = cli.prepare_shutdown().unwrap();
    assert_eq!(file.file_name, "agent-5.json");
    let agent = cli.get_agent().unwrap();
    assert_eq!(agent.state, AgentState::Running);
    assert_eq!(agent.id, "agent-5");
}

#[test]
fn manager_can_be_used_again_after_shutdown() {
    let mut cli = AgentCLI::new();
    cli.create_with_seed("first", 1).unwrap();
    cli.add_skill("memory").unwrap();
    cli.shutdown(Ok(())).unwrap();
    let copy = cli.create_with_seed("second", 2).unwrap();
    assert_eq!(copy.id, "agent-2");
    let agent = cli.get_agent().unwrap();
    assert_eq!(agent.name, "second");
    assert!(agent.skills.is_empty());
    assert_eq!(agent.state, AgentState::Created);
}

#[test]
fn full_lifecycle_scenario() {
    let mut cli = AgentCLI::new();
    let created = cli.create("bot").unwrap();
    assert_eq!(cli.add_skill("memory"), Ok(()));
    assert_eq!(cli.configure("goal", "assist"), Ok(()));
    assert_eq!(cli.run(), Ok(()));
    let file = cli.prepare_shutdown().unwrap();
    assert_eq!(cli.shutdown(Ok(())), Ok(()));
    assert!(cli.get_agent().is_none());
    assert_eq!(file.file_name, format!("{}.json", created.id));
    assert_eq!(
        file.content,
        format!(
            "{{\"id\":\"{}\",\"name\":\"bot\",\"skills\":[\"memory\"],\"config\":{{\"goal\":\"assist\"}},\"state\":\"Shutdown\"}}",
            created.id
        )
    );
    let value: serde_json::Value = serde_json::from_str(&file.content).unwrap();
    let object = value.as_object().unwrap();
    assert_eq!(object.len(), 5);
    assert_eq!(value["name"].as_str(), Some("bot"));
    assert_eq!(value["id"].as_str(), Some(created.id.as_str()));
    assert_eq!(value["state"].as_str(), Some("Shutdown"));
    let skills = value["skills"].as_array().unwrap();
    assert_eq!(skills.len(), 1);
    assert_eq!(skills[0].as_str(), Some("memory"));
    let config = value["config"].as_object().unwrap();
    assert_eq!(config.len(), 1);
    assert_eq!(config["goal"].as_str(), Some("assist"));
}

use subagents::definition::DefinitionStore;
use subagents::definition::SubagentDefinition;
use subagents::toggles::SubagentToggleArgs;

fn definition(name: &str, enabled: bool) -> SubagentDefinition {
    SubagentDefinition {
        name: name.to_string(),
        display_name: None,
        description: None,
        system_prompt: None,
        enabled,
        allowed_tools: Vec::new(),
        context_sources: Vec::new(),
        triggers: Vec::new(),
    }
}

#[test]
fn to_map_disable_wins_over_enable() {
    let toggles = SubagentToggleArgs {
        enable: vec!["critic".to_string()],
        disable: vec!["critic".to_string()],
    };
    let map = toggles.to_map();
    assert_eq!(map.get(&"critic".to_string()), Some(false));
}

#[test]
fn to_map_applies_both_kinds() {
    let toggles = SubagentToggleArgs {
        enable: vec!["alpha".to_string(), "beta".to_string()],
        disable: vec!["gamma".to_string()],
    };
    let map = toggles.to_map();
    assert_eq!(map.get(&"alpha".to_string()), Some(true));
    assert_eq!(map.get(&"beta".to_string()), Some(true));
    assert_eq!(map.get(&"gamma".to_string()), Some(false));
    assert_eq!(map.get(&"delta".to_string()), None);
}

#[test]
fn to_cli_overrides_keeps_order_and_duplicates() {
    let toggles = SubagentToggleArgs {
        enable: vec!["alpha".to_string(), "alpha".to_string()],
        disable: vec!["beta".to_string()],
    };
    let overrides = toggles.to_cli_overrides();
    assert_eq!(
        overrides,
        vec![
            "subagents.alpha.enabled=true".to_string(),
            "subagents.alpha.enabled=true".to_string(),
            "subagents.beta.enabled=false".to_string(),
        ]
    );
}

#[test]
fn to_cli_overrides_emits_enables_before_disables() {
    let toggles = SubagentToggleArgs {
        enable: vec!["z".to_string()],
        disable: vec!["a".to_string()],
    };
    let overrides = toggles.to_cli_overrides();
    assert_eq!(overrides[0], "subagents.z.enabled=true");
    assert_eq!(overrides[1], "subagents.a.enabled=false");
}

#[test]
fn resolves_subagents_and_overrides_enabled_state() {
    let mut store = DefinitionStore::new();
    store.insert(SubagentDefinition {
        name: "critic".to_string(),
        display_name: Some("Critic".to_string()),
        description: Some("Focus on code review feedback".to_string()),
        system_prompt: Some("Provide review comments".to_string()),
        enabled: true,
        allowed_tools: vec!["apply_patch".to_string(), "diff".to_string()],
        context_sources: Vec::new(),
        triggers: vec!["/review".to_string()],
    });
    store.insert(SubagentDefinition {
        name: "tester".to_string(),
        display_name: None,
        description: None,
        system_prompt: Some("Run the test suite".to_string()),
        enabled: true,
        allowed_tools: Vec::new(),
        context_sources: Vec::new(),
        triggers: Vec::new(),
    });

    let toggles = SubagentToggleArgs {
        enable: Vec::new(),
        disable: vec!["critic".to_string()],
    };
    store.apply_toggles(&toggles.to_map());

    let critic = store
        .get(&"critic".to_string())
        .expect("critic subagent exists");
    assert!(!critic.enabled);
    assert_eq!(critic.display_name.as_deref(), Some("Critic"));
    assert_eq!(
        critic.description.as_deref(),
        Some("Focus on code review feedback")
    );
    assert_eq!(
        critic.system_prompt.as_deref(),
        Some("Provide review comments")
    );
    assert_eq!(
        critic.allowed_tools,
        vec!["apply_patch".to_string(), "diff".to_string()]
    );
    assert_eq!(critic.triggers, vec!["/review".to_string()]);

    let tester = store
        .get(&"tester".to_string())
        .expect("tester subagent exists");
    assert!(tester.enabled);
    assert_eq!(tester.system_prompt.as_deref(), Some("Run the test suite"));
}

#[test]
fn list_is_sorted_by_name() {
    let mut store = DefinitionStore::new();
    store.insert(definition("tester", true));
    store.insert(definition("critic", true));
    store.insert(definition("auditor", false));
    let names: Vec<&str> = store.list().iter().map(|d| d.name.as_str()).collect();
    assert_eq!(names, vec!["auditor", "critic", "tester"]);
}

#[test]
fn insert_replaces_definition_of_same_name() {
    let mut store = DefinitionStore::new();
    store.insert(definition("critic", true));
    store.insert(definition("critic", false));
    assert_eq!(store.len(), 1);
    assert!(!store.get(&"critic".to_string()).unwrap().enabled);
}

use std::str::FromStr;
use subagents::definition::DefinitionStore;
use subagents::definition::SubagentDefinition;
use subagents::definition::SubagentError;
use subagents::invocation::prepare_run;
use subagents::invocation::SandboxModeArg;
use subagents::invocation::SubagentRunArgs;
use subagents::overrides::assemble_overrides;
use subagents::overrides::combine_user_overrides;
use subagents::toggles::SubagentToggleArgs;

fn run_args(name: &str) -> SubagentRunArgs {
    SubagentRunArgs {
        name: name.to_string(),
        prompt: None,
        json: false,
        oss: false,
        full_auto: false,
        dangerously_bypass_approvals_and_sandbox: false,
        sandbox_mode: None,
        cwd: None,
        config_profile: None,
        model: None,
    }
}

fn critic_store() -> DefinitionStore {
    let mut store = DefinitionStore::new();
    store.insert(SubagentDefinition {
        name: "critic".to_string(),
        display_name: Some("Critic".to_string()),
        description: None,
        system_prompt: Some("Provide review comments".to_string()),
        enabled: true,
        allowed_tools: Vec::new(),
        context_sources: Vec::new(),
        triggers: Vec::new(),
    });
    store
}

#[test]
fn run_forces_enable_after_disable_toggle() {
    let store = critic_store();
    let toggles = SubagentToggleArgs {
        enable: Vec::new(),
        disable: vec!["critic".to_string()],
    };
    let descriptor = prepare_run(&run_args("critic"), &store, &Vec::new(), &toggles)
        .expect("critic subagent exists");
    assert_eq!(
        descriptor.overrides,
        vec![
            "subagents.critic.enabled=false".to_string(),
            "subagents.critic.enabled=true".to_string(),
            "base_instructions=\"Provide review comments\"".to_string(),
        ]
    );
}

#[test]
fn override_layers_keep_ascending_precedence() {
    let store = critic_store();
    let toggles = SubagentToggleArgs {
        enable: vec!["tester".to_string()],
        disable: vec!["critic".to_string()],
    };
    let root = vec!["model=o3".to_string()];
    let subcommand = vec!["approval_policy=never".to_string()];
    let user = combine_user_overrides(&root, &subcommand);
    let overrides = assemble_overrides(
        &user,
        &toggles,
        &"critic".to_string(),
        &Some("Provide review comments".to_string()),
    );
    assert_eq!(
        overrides,
        vec![
            "model=o3".to_string(),
            "approval_policy=never".to_string(),
            "subagents.tester.enabled=true".to_string(),
            "subagents.critic.enabled=false".to_string(),
            "subagents.critic.enabled=true".to_string(),
            "base_instructions=\"Provide review comments\"".to_string(),
        ]
    );
}

#[test]
fn prompt_with_quote_and_newline_round_trips() {
    let prompt = "Say \"hi\" to the user.\nThen stop.".to_string();
    let toggles = SubagentToggleArgs {
        enable: Vec::new(),
        disable: Vec::new(),
    };
    let overrides = assemble_overrides(
        &Vec::new(),
        &toggles,
        &"critic".to_string(),
        &Some(prompt.clone()),
    );
    let last = overrides.last().expect("prompt override emitted");
    let encoded = last
        .strip_prefix("base_instructions=")
        .expect("prompt override labels the base instructions");
    let document = format!("v = {encoded}");
    let table = toml::Table::from_str(&document).expect("encoded prompt parses as a TOML scalar");
    assert_eq!(table["v"].as_str(), Some(prompt.as_str()));
}

#[test]
fn unknown_subagent_fails_before_assembly() {
    let store = critic_store();
    let toggles = SubagentToggleArgs {
        enable: Vec::new(),
        disable: Vec::new(),
    };
    let result = prepare_run(&run_args("ghost"), &store, &Vec::new(), &toggles);
    match result {
        Ok(_) => panic!("an unknown subagent must not produce a descriptor"),
        Err(error) => {
            let SubagentError::UnknownSubagent { name } = &error;
            assert_eq!(name, "ghost");
            let message = error.message();
            assert_eq!(message, "unknown subagent `ghost`");
            assert!(message.contains("ghost"));
        }
    }
}

#[test]
fn argv_holds_only_selected_flags() {
    let store = critic_store();
    let toggles = SubagentToggleArgs {
        enable: Vec::new(),
        disable: Vec::new(),
    };
    let descriptor = prepare_run(&run_args("critic"), &store, &Vec::new(), &toggles)
        .expect("critic subagent exists");
    assert_eq!(descriptor.argv, vec!["codex-subagent-run".to_string()]);
}

#[test]
fn argv_emits_every_flag_in_fixed_order() {
    let store = critic_store();
    let toggles = SubagentToggleArgs {
        enable: Vec::new(),
        disable: Vec::new(),
    };
    let mut args = run_args("critic");
    args.prompt = Some("check the diff".to_string());
    args.json = true;
    args.oss = true;
    args.full_auto = true;
    args.dangerously_bypass_approvals_and_sandbox = true;
    args.sandbox_mode = Some(SandboxModeArg::WorkspaceWrite);
    args.cwd = Some("/tmp/work".to_string());
    args.config_profile = Some("ci".to_string());
    args.model = Some("o3".to_string());
    let descriptor =
        prepare_run(&args, &store, &Vec::new(), &toggles).expect("critic subagent exists");
    assert_eq!(
        descriptor.argv,
        vec![
            "codex-subagent-run".to_string(),
            "--json".to_string(),
            "--oss".to_string(),
            "--full-auto".to_string(),
            "--dangerously-bypass-approvals-and-sandbox".to_string(),
            "--sandbox".to_string(),
            "workspace-write".to_string(),
            "-m".to_string(),
            "o3".to_string(),
            "-p".to_string(),
            "ci".to_string(),
            "-C".to_string(),
            "/tmp/work".to_string(),
            "check the diff".to_string(),
        ]
    );
}

#[test]
fn sandbox_modes_use_canonical_names() {
    assert_eq!(SandboxModeArg::ReadOnly.canonical_name(), "read-only");
    assert_eq!(
        SandboxModeArg::WorkspaceWrite.canonical_name(),
        "workspace-write"
    );
    assert_eq!(
        SandboxModeArg::DangerFullAccess.canonical_name(),
        "danger-full-access"
    );
}

#[test]
fn run_without_prompt_emits_no_base_instructions() {
    let mut store = DefinitionStore::new();
    store.insert(SubagentDefinition {
        name: "tester".to_string(),
        display_name: None,
        description: None,
        system_prompt: None,
        enabled: true,
        allowed_tools: Vec::new(),
        context_sources: Vec::new(),
        triggers: Vec::new(),
    });
    let toggles = SubagentToggleArgs {
        enable: Vec::new(),
        disable: Vec::new(),
    };
    let descriptor = prepare_run(&run_args("tester"), &store, &Vec::new(), &toggles)
        .expect("tester subagent exists");
    assert_eq!(
        descriptor.overrides,
        vec!["subagents.tester.enabled=true".to_string()]
    );
}

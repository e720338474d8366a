use subagents::definition::DefinitionStore;
use subagents::definition::SubagentDefinition;
use subagents::definition::SubagentError;
use subagents::show::show_subagent;
use subagents::show::subagent_list_rows;
use subagents::show::FieldValue;
use subagents::show::ShowOutput;
use subagents::show::SubagentShowArgs;
use subagents::show::SubagentShowFormat;

fn full_store() -> DefinitionStore {
    let mut store = DefinitionStore::new();
    store.insert(SubagentDefinition {
        name: "critic".to_string(),
        display_name: Some("Critic".to_string()),
        description: Some("Focus on code review feedback".to_string()),
        system_prompt: Some("Provide review comments".to_string()),
        enabled: true,
        allowed_tools: vec!["apply_patch".to_string(), "diff".to_string()],
        context_sources: vec!["repo".to_string()],
        triggers: vec!["/review".to_string()],
    });
    store.insert(SubagentDefinition {
        name: "tester".to_string(),
        display_name: None,
        description: None,
        system_prompt: None,
        enabled: false,
        allowed_tools: Vec::new(),
        context_sources: Vec::new(),
        triggers: Vec::new(),
    });
    store
}

#[test]
fn human_format_prints_every_present_field() {
    let store = full_store();
    let args = SubagentShowArgs {
        name: "critic".to_string(),
        format: SubagentShowFormat::Human,
    };
    let output = show_subagent(&store, &args).expect("critic subagent exists");
    let ShowOutput::Human(lines) = output else {
        panic!("human format must yield the human lines");
    };
    assert_eq!(
        lines,
        vec![
            "Name: critic".to_string(),
            "Display name: Critic".to_string(),
            "Description: Focus on code review feedback".to_string(),
            "Enabled: true".to_string(),
            "System prompt:\nProvide review comments".to_string(),
            "Allowed tools: apply_patch, diff".to_string(),
            "Context sources: repo".to_string(),
            "Triggers: /review".to_string(),
        ]
    );
}

#[test]
fn human_format_marks_empty_sequences_and_omits_absent_texts() {
    let store = full_store();
    let args = SubagentShowArgs {
        name: "tester".to_string(),
        format: SubagentShowFormat::Human,
    };
    let output = show_subagent(&store, &args).expect("tester subagent exists");
    let ShowOutput::Human(lines) = output else {
        panic!("human format must yield the human lines");
    };
    assert_eq!(
        lines,
        vec![
            "Name: tester".to_string(),
            "Enabled: false".to_string(),
            "Allowed tools: (inherit default)".to_string(),
            "Context sources: (none)".to_string(),
            "Triggers: (manual)".to_string(),
        ]
    );
}

#[test]
fn json_format_always_exposes_all_fields() {
    let store = full_store();
    let args = SubagentShowArgs {
        name: "tester".to_string(),
        format: SubagentShowFormat::Json,
    };
    let output = show_subagent(&store, &args).expect("tester subagent exists");
    let ShowOutput::Json(fields) = output else {
        panic!("json format must yield the structured payload");
    };
    let keys: Vec<&str> = fields.iter().map(|f| f.key.as_str()).collect();
    assert_eq!(
        keys,
        vec![
            "name",
            "display_name",
            "description",
            "enabled",
            "system_prompt",
            "allowed_tools",
            "context_sources",
            "triggers",
        ]
    );
    assert!(matches!(&fields[0].value, FieldValue::Text(t) if t == "tester"));
    assert!(matches!(fields[1].value, FieldValue::Null));
    assert!(matches!(fields[2].value, FieldValue::Null));
    assert!(matches!(fields[3].value, FieldValue::Flag(false)));
    assert!(matches!(fields[4].value, FieldValue::Null));
    assert!(matches!(&fields[5].value, FieldValue::List(l) if l.is_empty()));
    assert!(matches!(&fields[6].value, FieldValue::List(l) if l.is_empty()));
    assert!(matches!(&fields[7].value, FieldValue::List(l) if l.is_empty()));
}

#[test]
fn json_format_carries_present_values() {
    let store = full_store();
    let args = SubagentShowArgs {
        name: "critic".to_string(),
        format: SubagentShowFormat::Json,
    };
    let output = show_subagent(&store, &args).expect("critic subagent exists");
    let ShowOutput::Json(fields) = output else {
        panic!("json format must yield the structured payload");
    };
    assert!(matches!(&fields[1].value, FieldValue::Text(t) if t == "Critic"));
    assert!(
        matches!(&fields[2].value, FieldValue::Text(t) if t == "Focus on code review feedback")
    );
    assert!(matches!(fields[3].value, FieldValue::Flag(true)));
    assert!(matches!(&fields[4].value, FieldValue::Text(t) if t == "Provide review comments"));
    assert!(
        matches!(&fields[5].value, FieldValue::List(l) if *l == vec!["apply_patch".to_string(), "diff".to_string()])
    );
    assert!(matches!(&fields[6].value, FieldValue::List(l) if *l == vec!["repo".to_string()]));
    assert!(matches!(&fields[7].value, FieldValue::List(l) if *l == vec!["/review".to_string()]));
}

#[test]
fn show_unknown_subagent_names_the_request() {
    let store = full_store();
    let args = SubagentShowArgs {
        name: "ghost".to_string(),
        format: SubagentShowFormat::Json,
    };
    match show_subagent(&store, &args) {
        Ok(_) => panic!("an unknown subagent must not produce output"),
        Err(error) => {
            let SubagentError::UnknownSubagent { name } = &error;
            assert_eq!(name, "ghost");
            assert_eq!(error.message(), "unknown subagent `ghost`");
        }
    }
}

#[test]
fn default_show_format_is_human() {
    assert_eq!(SubagentShowFormat::default(), SubagentShowFormat::Human);
}

#[test]
fn list_rows_carry_status_and_display_name() {
    let store = full_store();
    let rows = subagent_list_rows(&store);
    assert_eq!(rows.len(), 2);
    assert_eq!(rows[0].name, "critic");
    assert_eq!(rows[0].status, "yes");
    assert_eq!(rows[0].display_name.as_deref(), Some("Critic"));
    assert_eq!(rows[1].name, "tester");
    assert_eq!(rows[1].status, "no");
    assert_eq!(rows[1].display_name, None);
}

#[test]
fn empty_store_lists_no_rows() {
    let store = DefinitionStore::new();
    assert!(subagent_list_rows(&store).is_empty());
}

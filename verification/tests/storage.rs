use service_launcher::config::fork_config;
use service_launcher::query::get_process_output;
use service_launcher::state::ProcessManagerState;
use service_launcher::storage::{
    command_type_name, command_type_named, init_process_manager_from_db,
    load_all_process_configs, load_process_config, mode_name, mode_named, save_process_config,
    ProcessRecord,
};
use service_launcher::types::{CommandType, ProcessConfig, ProcessMode};

fn sample() -> ProcessConfig {
    let mut config = fork_config(
        "0b0f6a52-5d3c-4a55-9d1d-3f0c33a1a001".to_string(),
        1_700_000_000,
        "web \"quoted\"".to_string(),
        "C:\\srv\\web".to_string(),
        Some("C:\\srv\\web\\server.exe".to_string()),
        vec!["--port".to_string(), "80".to_string(), "line\nbreak \u{e9}".to_string()],
        true,
        false,
        CommandType::Executable,
    );
    config.env = vec![
        ("B_VAR".to_string(), "two".to_string()),
        ("A_VAR".to_string(), "one \"1\"".to_string()),
    ];
    config
}

fn same(a: &ProcessConfig, b: &ProcessConfig) {
    assert_eq!(a.id, b.id);
    assert_eq!(a.name, b.name);
    assert_eq!(a.mode, b.mode);
    assert_eq!(a.command_type, b.command_type);
    assert_eq!(a.command, b.command);
    assert_eq!(a.args, b.args);
    assert_eq!(a.working_dir, b.working_dir);
    assert_eq!(a.source_path, b.source_path);
    let mut a_env = a.env.clone();
    let mut b_env = b.env.clone();
    a_env.sort();
    b_env.sort();
    assert_eq!(a_env, b_env);
    assert_eq!(a.auto_restart, b.auto_restart);
    assert_eq!(a.auto_start, b.auto_start);
    assert_eq!(a.created_at, b.created_at);
}

#[test]
fn row_holds_the_fields_as_the_store_wants_them() {
    let record = save_process_config(&sample()).unwrap();
    assert_eq!(record.id, "0b0f6a52-5d3c-4a55-9d1d-3f0c33a1a001");
    assert_eq!(record.name, "web \"quoted\"");
    assert_eq!(record.mode, "fork");
    assert_eq!(record.command_type, "executable");
    assert_eq!(record.command, "C:\\srv\\web\\server.exe");
    assert_eq!(record.args, "[\"--port\",\"80\",\"line\\nbreak \u{e9}\"]");
    assert_eq!(record.working_dir, "C:\\srv\\web");
    assert_eq!(record.source_path, None);
    assert_eq!(record.env, "{\"A_VAR\":\"one \\\"1\\\"\",\"B_VAR\":\"two\"}");
    assert_eq!(record.auto_restart, 1);
    assert_eq!(record.auto_start, 0);
    assert_eq!(record.created_at, 1_700_000_000);
}

#[test]
fn saved_config_reads_back_field_for_field() {
    let config = sample();
    let loaded = load_process_config(save_process_config(&config).unwrap());
    same(&config, &loaded);
}

#[test]
fn empty_environment_and_absent_source_read_back() {
    let mut config = sample();
    config.env = vec![];
    config.args = vec![];
    let record = save_process_config(&config).unwrap();
    assert_eq!(record.env, "{}");
    assert_eq!(record.args, "[]");
    let loaded = load_process_config(record);
    same(&config, &loaded);
    assert!(loaded.env.is_empty());
    assert_eq!(loaded.source_path, None);
}

#[test]
fn imported_shell_config_reads_back() {
    let mut config = sample();
    config.mode = ProcessMode::Import;
    config.command_type = CommandType::Shell;
    config.source_path = Some("/home/me/src".to_string());
    config.auto_restart = false;
    config.auto_start = true;
    let record = save_process_config(&config).unwrap();
    assert_eq!(record.mode, "import");
    assert_eq!(record.command_type, "shell");
    assert_eq!(record.source_path, Some("/home/me/src".to_string()));
    assert_eq!(record.auto_restart, 0);
    assert_eq!(record.auto_start, 1);
    same(&config, &load_process_config(record));
}

#[test]
fn later_pair_of_a_key_is_the_one_that_is_stored() {
    let mut config = sample();
    config.env = vec![
        ("K".to_string(), "first".to_string()),
        ("K".to_string(), "second".to_string()),
    ];
    let record = save_process_config(&config).unwrap();
    assert_eq!(record.env, "{\"K\":\"second\"}");
    let loaded = load_process_config(record);
    assert_eq!(loaded.env, vec![("K".to_string(), "second".to_string())]);
}

fn record() -> ProcessRecord {
    ProcessRecord {
        id: "id".to_string(),
        name: "n".to_string(),
        mode: "fork".to_string(),
        command_type: "executable".to_string(),
        command: "c".to_string(),
        args: "[\"a\", \"b\"]".to_string(),
        working_dir: "w".to_string(),
        source_path: None,
        env: "{\"Z\": \"26\", \"A\": \"1\"}".to_string(),
        auto_restart: 0,
        auto_start: 5,
        created_at: 9,
    }
}

#[test]
fn row_is_read_as_the_rules_say() {
    let config = load_process_config(record());
    assert_eq!(config.mode, ProcessMode::Fork);
    assert_eq!(config.command_type, CommandType::Executable);
    assert_eq!(config.args, vec!["a".to_string(), "b".to_string()]);
    assert_eq!(
        config.env,
        vec![
            ("A".to_string(), "1".to_string()),
            ("Z".to_string(), "26".to_string())
        ]
    );
    assert!(!config.auto_restart);
    assert!(config.auto_start);
    assert_eq!(config.created_at, 9);
}

#[test]
fn unknown_words_read_as_import_and_executable() {
    let mut row = record();
    row.mode = "something".to_string();
    row.command_type = "".to_string();
    let config = load_process_config(row);
    assert_eq!(config.mode, ProcessMode::Import);
    assert_eq!(config.command_type, CommandType::Executable);
    assert_eq!(mode_named("fork"), ProcessMode::Fork);
    assert_eq!(mode_named("import"), ProcessMode::Import);
    assert_eq!(mode_named("Fork"), ProcessMode::Import);
    assert_eq!(command_type_named("shell"), CommandType::Shell);
    assert_eq!(command_type_named("executable"), CommandType::Executable);
    assert_eq!(command_type_named("other"), CommandType::Executable);
    assert_eq!(mode_name(ProcessMode::Fork), "fork");
    assert_eq!(mode_name(ProcessMode::Import), "import");
    assert_eq!(command_type_name(CommandType::Executable), "executable");
    assert_eq!(command_type_name(CommandType::Shell), "shell");
}

#[test]
fn text_that_is_no_json_reads_as_empty() {
    let mut row = record();
    row.args = "not json".to_string();
    row.env = "[1, 2]".to_string();
    let config = load_process_config(row);
    assert!(config.args.is_empty());
    assert!(config.env.is_empty());
    let mut row = record();
    row.args = "{\"a\": 1}".to_string();
    row.env = "{\"a\": 1}".to_string();
    let config = load_process_config(row);
    assert!(config.args.is_empty());
    assert!(config.env.is_empty());
}

#[test]
fn rows_are_loaded_in_order_and_registered_with_fresh_buffers() {
    let mut second = record();
    second.id = "other".to_string();
    second.created_at = 20;
    let configs = load_all_process_configs(vec![record(), second]);
    assert_eq!(configs.len(), 2);
    assert_eq!(configs[0].id, "id");
    assert_eq!(configs[1].id, "other");
    let mut state = ProcessManagerState::new();
    init_process_manager_from_db(&mut state, configs);
    assert_eq!(state.config_count(), 2);
    assert_eq!(state.config_at(0).id, "id");
    assert_eq!(state.config_at(1).id, "other");
    assert_eq!(get_process_output(&state, "id").unwrap(), vec![]);
    assert_eq!(get_process_output(&state, "other").unwrap(), vec![]);
}

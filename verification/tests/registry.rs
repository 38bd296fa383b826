use service_launcher::config::{
    add_process_fork, add_process_import, fork_config, plan_import, remove_process,
    update_process,
};
use service_launcher::lifecycle::{register_running_process, start_process};
use service_launcher::query::{
    clear_process_output, get_process, get_process_output, list_processes,
};
use service_launcher::runner::capture_line;
use service_launcher::state::ProcessManagerState;
use service_launcher::types::{
    CommandType, ProcessConfig, ProcessError, ProcessMode, ProcessStatus,
};

fn config(id: &str, created_at: i64) -> ProcessConfig {
    fork_config(
        id.to_string(),
        created_at,
        format!("name of {}", id),
        "/work".to_string(),
        Some("/bin/tool".to_string()),
        vec!["--flag".to_string()],
        false,
        false,
        CommandType::Executable,
    )
}

#[test]
fn fork_request_is_accepted() {
    let added = add_process_fork(
        "web".to_string(),
        "/srv/web".to_string(),
        Some("/srv/web/server".to_string()),
        vec!["--port".to_string(), "80".to_string()],
        true,
        false,
        None,
        true,
        true,
    )
    .unwrap();
    assert_eq!(added.name, "web");
    assert_eq!(added.mode, ProcessMode::Fork);
    assert_eq!(added.command_type, CommandType::Executable);
    assert_eq!(added.command, "/srv/web/server");
    assert_eq!(added.args, vec!["--port".to_string(), "80".to_string()]);
    assert_eq!(added.working_dir, "/srv/web");
    assert_eq!(added.source_path, None);
    assert!(added.env.is_empty());
    assert!(added.auto_restart);
    assert!(!added.auto_start);
    assert_eq!(added.id.len(), 36);
    assert!(added.created_at > 1_600_000_000);
}

#[test]
fn fork_request_without_executable_has_an_empty_command() {
    let added = add_process_fork(
        "later".to_string(),
        "/srv".to_string(),
        None,
        vec![],
        false,
        false,
        None,
        true,
        false,
    )
    .unwrap();
    assert_eq!(added.command, "");
}

#[test]
fn fork_request_with_missing_working_dir_is_refused() {
    let refused = add_process_fork(
        "web".to_string(),
        "/nowhere".to_string(),
        Some("/bin/true".to_string()),
        vec![],
        false,
        false,
        None,
        false,
        true,
    );
    assert_eq!(refused.unwrap_err(), ProcessError::InvalidWorkingDir);
}

#[test]
fn fork_request_with_missing_executable_is_refused() {
    let refused = add_process_fork(
        "web".to_string(),
        "/srv".to_string(),
        Some("/srv/missing".to_string()),
        vec![],
        false,
        false,
        Some(CommandType::Executable),
        true,
        false,
    );
    assert_eq!(refused.unwrap_err(), ProcessError::ExecutableNotFound);
}

#[test]
fn shell_line_is_not_looked_for() {
    let added = add_process_fork(
        "dev".to_string(),
        "/srv".to_string(),
        Some("npm run dev && echo done".to_string()),
        vec![],
        false,
        true,
        Some(CommandType::Shell),
        true,
        false,
    )
    .unwrap();
    assert_eq!(added.command_type, CommandType::Shell);
    assert_eq!(added.command, "npm run dev && echo done");
    assert!(added.auto_start);
}

#[test]
fn import_of_a_missing_folder_is_refused() {
    let refused = plan_import("/home/me/tool", false, "/data/processes");
    assert_eq!(refused.err(), Some(ProcessError::SourceFolderNotFound));
}

#[test]
fn import_of_a_folder_without_a_name_is_refused() {
    let refused = plan_import("", true, "/data/processes");
    assert_eq!(refused.err(), Some(ProcessError::SourceFolderNotFound));
    let plan = plan_import("/home/me/tool", true, "/data/processes").unwrap();
    let refused = add_process_import(
        plan,
        "tool".to_string(),
        "".to_string(),
        Some("/opt/run".to_string()),
        None,
        vec![],
        false,
        false,
        None,
        true,
    );
    assert_eq!(refused.unwrap_err(), ProcessError::SourceFolderNotFound);
}

#[test]
fn update_leaves_an_imported_process_in_its_copy() {
    let mut state = ProcessManagerState::new();
    let plan = plan_import("/home/me/tool", true, "/data/processes").unwrap();
    let target = plan.target_dir.clone();
    let imported = add_process_import(
        plan,
        "tool".to_string(),
        "/home/me/tool".to_string(),
        Some("/opt/run".to_string()),
        None,
        vec![],
        false,
        false,
        None,
        true,
    )
    .unwrap();
    let id = imported.id.clone();
    state.register_config(imported);
    let updated = update_process(
        &mut state,
        &id,
        "renamed".to_string(),
        Some("/somewhere/else".to_string()),
        None,
        vec![],
        false,
        false,
        None,
        false,
        false,
    )
    .unwrap();
    assert_eq!(updated.name, "renamed");
    assert_eq!(updated.working_dir, target);
    assert_eq!(updated.source_path, Some("/home/me/tool".to_string()));
    assert_eq!(updated.mode, ProcessMode::Import);
}

#[test]
fn import_works_in_its_managed_copy() {
    let plan = plan_import("/home/me/tool", true, "/data/processes").unwrap();
    let id = plan.id.clone();
    let target = plan.target_dir.clone();
    assert_eq!(
        std::path::Path::new(&target),
        std::path::Path::new("/data/processes").join(&id)
    );
    let added = add_process_import(
        plan,
        "tool".to_string(),
        "/home/me/tool".to_string(),
        None,
        Some(format!("{}/run.sh", target)),
        vec!["-v".to_string()],
        false,
        true,
        None,
        false,
    )
    .unwrap();
    assert_eq!(added.id, id);
    assert_eq!(added.mode, ProcessMode::Import);
    assert_eq!(added.working_dir, target);
    assert_eq!(added.source_path, Some("/home/me/tool".to_string()));
    assert_eq!(added.command, format!("{}/run.sh", target));
    assert_eq!(added.args, vec!["-v".to_string()]);
    assert!(added.auto_start);
}

#[test]
fn import_prefers_the_executable_that_was_named() {
    let plan = plan_import("/home/me/tool", true, "/data/processes").unwrap();
    let added = add_process_import(
        plan,
        "tool".to_string(),
        "/home/me/tool".to_string(),
        Some("/opt/run".to_string()),
        Some("/other".to_string()),
        vec![],
        false,
        false,
        None,
        true,
    )
    .unwrap();
    assert_eq!(added.command, "/opt/run");
}

#[test]
fn import_without_anything_to_run_is_refused() {
    let plan = plan_import("/home/me/tool", true, "/data/processes").unwrap();
    let refused = add_process_import(
        plan,
        "tool".to_string(),
        "/home/me/tool".to_string(),
        None,
        None,
        vec![],
        false,
        false,
        None,
        false,
    );
    assert_eq!(refused.unwrap_err(), ProcessError::NoExecutableFound);
}

#[test]
fn import_with_missing_named_executable_is_refused() {
    let plan = plan_import("/home/me/tool", true, "/data/processes").unwrap();
    let refused = add_process_import(
        plan,
        "tool".to_string(),
        "/home/me/tool".to_string(),
        Some("/gone".to_string()),
        Some("/found".to_string()),
        vec![],
        false,
        false,
        None,
        false,
    );
    assert_eq!(refused.unwrap_err(), ProcessError::ExecutableNotFound);
}

#[test]
fn registered_process_is_found_stopped_and_without_output() {
    let mut state = ProcessManagerState::new();
    state.register_config(config("a", 10));
    let info = get_process(&state, "a").unwrap();
    assert_eq!(info.id, "a");
    assert_eq!(info.name, "name of a");
    assert_eq!(info.status, ProcessStatus::Stopped);
    assert_eq!(info.pid, None);
    assert_eq!(info.started_at, None);
    assert_eq!(info.created_at, 10);
    assert!(!info.has_output);
    assert_eq!(get_process_output(&state, "a").unwrap(), vec![]);
}

#[test]
fn unknown_process_is_not_found() {
    let mut state = ProcessManagerState::new();
    assert_eq!(
        get_process(&state, "nobody").unwrap_err(),
        ProcessError::ProcessNotFound
    );
    assert_eq!(
        get_process_output(&state, "nobody").unwrap_err(),
        ProcessError::ProcessNotFound
    );
    assert_eq!(
        clear_process_output(&mut state, "nobody").unwrap_err(),
        ProcessError::ProcessNotFound
    );
    assert_eq!(
        remove_process(&mut state, "nobody").err(),
        Some(ProcessError::ProcessNotFound)
    );
}

#[test]
fn list_is_ordered_newest_first() {
    let mut state = ProcessManagerState::new();
    state.register_config(config("old", 100));
    state.register_config(config("new", 300));
    state.register_config(config("mid", 200));
    state.register_config(config("mid2", 200));
    let infos = list_processes(&mut state, &vec![]);
    let ids: Vec<&str> = infos.iter().map(|i| i.id.as_str()).collect();
    assert_eq!(ids, vec!["new", "mid", "mid2", "old"]);
}

#[test]
fn list_forgets_processes_that_exited() {
    let mut state = ProcessManagerState::new();
    state.register_config(config("a", 1));
    state.register_config(config("b", 2));
    let a = start_process(&mut state, "a").unwrap();
    register_running_process(&mut state, "a", 11, a, 1000);
    let b = start_process(&mut state, "b").unwrap();
    register_running_process(&mut state, "b", 22, b, 2000);
    let infos = list_processes(&mut state, &vec!["a".to_string()]);
    assert_eq!(infos[0].id, "b");
    assert_eq!(infos[0].status, ProcessStatus::Running);
    assert_eq!(infos[0].pid, Some(22));
    assert_eq!(infos[0].started_at, Some(2000));
    assert_eq!(infos[1].id, "a");
    assert_eq!(infos[1].status, ProcessStatus::Stopped);
    assert_eq!(infos[1].pid, None);
    assert!(state.running("a").is_none());
    assert!(state.running("b").is_some());
}

#[test]
fn removing_an_imported_process_deletes_its_copy() {
    let mut state = ProcessManagerState::new();
    let plan = plan_import("/home/me/tool", true, "/data/processes").unwrap();
    let imported = add_process_import(
        plan,
        "tool".to_string(),
        "/home/me/tool".to_string(),
        Some("/opt/run".to_string()),
        None,
        vec![],
        false,
        false,
        None,
        true,
    )
    .unwrap();
    let id = imported.id.clone();
    state.register_config(imported);
    let removal = remove_process(&mut state, &id).unwrap();
    assert!(removal.delete_managed_copy);
    assert_eq!(removal.config.id, id);
    assert!(state.config(&id).is_none());
    assert!(state.output(&id).is_none());
}

#[test]
fn removing_a_forked_process_leaves_the_files_alone() {
    let mut state = ProcessManagerState::new();
    state.register_config(config("a", 1));
    state.register_config(config("b", 2));
    let a = start_process(&mut state, "a").unwrap();
    register_running_process(&mut state, "a", 5, a, 50);
    let removal = remove_process(&mut state, "a").unwrap();
    assert!(!removal.delete_managed_copy);
    assert!(state.config("a").is_none());
    assert!(state.running("a").is_none());
    assert!(state.output("a").is_none());
    assert!(state.config("b").is_some());
    assert!(state.output("b").is_some());
    assert_eq!(
        remove_process(&mut state, "a").err(),
        Some(ProcessError::ProcessNotFound)
    );
}

#[test]
fn update_changes_what_it_names() {
    let mut state = ProcessManagerState::new();
    state.register_config(config("a", 1));
    let updated = update_process(
        &mut state,
        "a",
        "renamed".to_string(),
        None,
        None,
        vec!["x".to_string(), "y".to_string()],
        true,
        true,
        None,
        false,
        false,
    )
    .unwrap();
    assert_eq!(updated.id, "a");
    assert_eq!(updated.name, "renamed");
    assert_eq!(updated.args, vec!["x".to_string(), "y".to_string()]);
    assert!(updated.auto_restart);
    assert!(updated.auto_start);
    assert_eq!(updated.working_dir, "/work");
    assert_eq!(updated.command, "/bin/tool");
    assert_eq!(updated.command_type, CommandType::Executable);
    assert_eq!(updated.created_at, 1);
    let held = state.config("a").unwrap();
    assert_eq!(held.name, "renamed");
    assert_eq!(held.args.len(), 2);
}

#[test]
fn update_can_move_and_retarget() {
    let mut state = ProcessManagerState::new();
    state.register_config(config("a", 1));
    let updated = update_process(
        &mut state,
        "a",
        "a".to_string(),
        Some("/elsewhere".to_string()),
        Some("echo hi | cat".to_string()),
        vec![],
        false,
        false,
        Some(CommandType::Shell),
        true,
        false,
    )
    .unwrap();
    assert_eq!(updated.working_dir, "/elsewhere");
    assert_eq!(updated.command, "echo hi | cat");
    assert_eq!(updated.command_type, CommandType::Shell);
}

#[test]
fn update_is_refused_as_the_rules_say() {
    let mut state = ProcessManagerState::new();
    state.register_config(config("a", 1));
    let unknown = update_process(
        &mut state,
        "b",
        "n".to_string(),
        None,
        None,
        vec![],
        false,
        false,
        None,
        true,
        true,
    );
    assert_eq!(unknown.unwrap_err(), ProcessError::ProcessNotFound);
    let bad_dir = update_process(
        &mut state,
        "a",
        "n".to_string(),
        Some("/gone".to_string()),
        None,
        vec![],
        false,
        false,
        None,
        false,
        true,
    );
    assert_eq!(bad_dir.unwrap_err(), ProcessError::InvalidWorkingDir);
    let bad_exe = update_process(
        &mut state,
        "a",
        "n".to_string(),
        None,
        Some("/gone".to_string()),
        vec![],
        false,
        false,
        None,
        true,
        false,
    );
    assert_eq!(bad_exe.unwrap_err(), ProcessError::ExecutableNotFound);
    let held = state.config("a").unwrap();
    assert_eq!(held.name, "name of a");
    assert_eq!(held.command, "/bin/tool");
}

#[test]
fn update_of_a_shell_process_does_not_look_for_the_line() {
    let mut state = ProcessManagerState::new();
    let mut shell = config("s", 1);
    shell.command_type = CommandType::Shell;
    shell.command = "make run".to_string();
    state.register_config(shell);
    // The way of launching is not named, so the one in force decides.
    let updated = update_process(
        &mut state,
        "s",
        "s".to_string(),
        None,
        Some("make run-all".to_string()),
        vec![],
        false,
        false,
        None,
        false,
        false,
    )
    .unwrap();
    assert_eq!(updated.command, "make run-all");
    // Naming the direct way brings the look back.
    let refused = update_process(
        &mut state,
        "s",
        "s".to_string(),
        None,
        Some("make run-all".to_string()),
        vec![],
        false,
        false,
        Some(CommandType::Executable),
        false,
        false,
    );
    assert_eq!(refused.unwrap_err(), ProcessError::ExecutableNotFound);
}

#[test]
fn update_leaves_a_running_instance_as_it_was_launched() {
    let mut state = ProcessManagerState::new();
    state.register_config(config("a", 1));
    let launched = start_process(&mut state, "a").unwrap();
    register_running_process(&mut state, "a", 9, launched, 90);
    update_process(
        &mut state,
        "a",
        "renamed".to_string(),
        None,
        None,
        vec![],
        false,
        false,
        None,
        false,
        false,
    )
    .unwrap();
    let run = state.running("a").unwrap();
    assert_eq!(run.pid, 9);
    assert_eq!(run.config.name, "name of a");
    assert_eq!(get_process(&state, "a").unwrap().name, "renamed");
}

#[test]
fn output_is_read_and_cleared() {
    let mut state = ProcessManagerState::new();
    state.register_config(config("a", 1));
    capture_line(&mut state, "a", "stdout", "one", 1);
    capture_line(&mut state, "a", "stderr", "two", 2);
    assert!(get_process(&state, "a").unwrap().has_output);
    assert_eq!(
        get_process_output(&state, "a").unwrap(),
        vec![
            (1, "stdout".to_string(), "one".to_string()),
            (2, "stderr".to_string(), "two".to_string())
        ]
    );
    clear_process_output(&mut state, "a").unwrap();
    assert_eq!(get_process_output(&state, "a").unwrap(), vec![]);
    assert!(!get_process(&state, "a").unwrap().has_output);
}

#[test]
fn registering_again_replaces_in_place_with_a_fresh_buffer() {
    let mut state = ProcessManagerState::new();
    state.register_config(config("a", 1));
    state.register_config(config("b", 1));
    capture_line(&mut state, "a", "stdout", "line", 1);
    let mut again = config("a", 1);
    again.name = "second".to_string();
    state.register_config(again);
    assert_eq!(state.config_count(), 2);
    assert_eq!(state.config_at(0).name, "second");
    assert_eq!(get_process_output(&state, "a").unwrap(), vec![]);
}

use service_launcher::config::fork_config;
use service_launcher::environment::{
    join, lower, lowered, merge_path, reconstruct_environment, split,
};
use service_launcher::query::get_process_output;
use service_launcher::runner::{
    build_shell_line, capture_line, capture_line_now, settle_delay, spawn_process,
    SETTLE_DELAY_MS,
};
use service_launcher::state::ProcessManagerState;
use service_launcher::types::{CommandType, ProcessConfig, ProcessError};

fn pairs(items: &[(&str, &str)]) -> Vec<(String, String)> {
    items
        .iter()
        .map(|(k, v)| (k.to_string(), v.to_string()))
        .collect()
}

fn config(command: &str, args: &[&str], command_type: CommandType) -> ProcessConfig {
    fork_config(
        "id".to_string(),
        1,
        "name".to_string(),
        "/work".to_string(),
        Some(command.to_string()),
        args.iter().map(|a| a.to_string()).collect(),
        false,
        false,
        command_type,
    )
}

#[test]
fn empty_command_is_refused() {
    let refused = spawn_process(&config("", &[], CommandType::Executable), vec![], None, ':');
    assert_eq!(refused.err(), Some(ProcessError::EmptyCommand));
    let refused = spawn_process(&config("", &["x"], CommandType::Shell), vec![], None, ':');
    assert_eq!(refused.err(), Some(ProcessError::EmptyCommand));
}

#[test]
fn executable_is_run_directly_after_ending_others_of_its_name() {
    let plan = spawn_process(
        &config("/opt/tools/server", &["--port", "80"], CommandType::Executable),
        pairs(&[("HOME", "/root")]),
        None,
        ':',
    )
    .unwrap();
    assert_eq!(plan.command_type, CommandType::Executable);
    assert_eq!(plan.program, "/opt/tools/server");
    assert_eq!(plan.args, vec!["--port".to_string(), "80".to_string()]);
    assert_eq!(plan.working_dir, "/work");
    assert_eq!(plan.env, pairs(&[("HOME", "/root")]));
    assert_eq!(plan.terminate_same_name, Some("server".to_string()));
}

#[test]
fn shell_line_is_command_and_arguments_in_one() {
    let plan = spawn_process(
        &config("npm run dev", &["--", "--host", "0.0.0.0"], CommandType::Shell),
        vec![],
        None,
        ':',
    )
    .unwrap();
    assert_eq!(plan.command_type, CommandType::Shell);
    assert_eq!(plan.program, "npm run dev -- --host 0.0.0.0");
    assert!(plan.args.is_empty());
    assert_eq!(plan.terminate_same_name, None);
    assert_eq!(build_shell_line("echo", &vec![]), "echo");
    assert_eq!(
        build_shell_line("echo", &vec!["a".to_string(), "".to_string(), "b".to_string()]),
        "echo a  b"
    );
}

#[test]
fn overrides_of_the_configuration_go_on_top() {
    let mut with_env = config("/bin/tool", &[], CommandType::Executable);
    with_env.env = pairs(&[("MODE", "prod"), ("EXTRA", "1"), ("MODE", "test")]);
    let plan = spawn_process(
        &with_env,
        pairs(&[("HOME", "/root"), ("MODE", "dev")]),
        None,
        ':',
    )
    .unwrap();
    assert_eq!(
        plan.env,
        pairs(&[("HOME", "/root"), ("MODE", "test"), ("EXTRA", "1")])
    );
}

#[test]
fn environment_of_the_user_fills_the_gaps() {
    let env = reconstruct_environment(
        pairs(&[("SystemRoot", "C:\\Windows"), ("Path", "C:\\Windows;C:\\Tools")]),
        Some(pairs(&[
            ("SYSTEMROOT", "D:\\Other"),
            ("JAVA_HOME", "C:\\Java"),
            ("PATH", "c:\\tools;C:\\Users\\me\\bin;;C:\\USERS\\ME\\BIN"),
        ])),
        &pairs(&[("JAVA_HOME", "C:\\Java17"), ("NEW", "x")]),
        ';',
    );
    assert_eq!(
        env,
        pairs(&[
            ("SystemRoot", "C:\\Windows"),
            ("Path", "C:\\Windows;C:\\Tools;C:\\Users\\me\\bin"),
            ("JAVA_HOME", "C:\\Java17"),
            ("NEW", "x"),
        ])
    );
}

#[test]
fn without_an_environment_of_the_user_nothing_is_merged() {
    let env = reconstruct_environment(pairs(&[("A", "1")]), None, &vec![], ':');
    assert_eq!(env, pairs(&[("A", "1")]));
}

#[test]
fn search_paths_become_their_union() {
    assert_eq!(merge_path("/bin:/usr/bin", "/usr/bin:/opt/bin", ':'), "/bin:/usr/bin:/opt/bin");
    assert_eq!(merge_path("/bin", "", ':'), "/bin");
    assert_eq!(merge_path("", "/bin", ':'), ":/bin");
    assert_eq!(merge_path("/a:/a", "/A:/b:/B", ':'), "/a:/a:/b");
}

#[test]
fn split_and_join_are_inverse() {
    assert_eq!(split("a;b;;c", ';'), vec!["a", "b", "", "c"]);
    assert_eq!(split("", ';'), vec![""]);
    assert_eq!(split(";", ';'), vec!["", ""]);
    assert_eq!(split("abc", ';'), vec!["abc"]);
    assert_eq!(
        join(&vec!["a".to_string(), "".to_string(), "c".to_string()], ';'),
        "a;;c"
    );
    assert_eq!(join(&vec![], ';'), "");
    assert_eq!(join(&split("x;y;z", ';'), ';'), "x;y;z");
}

#[test]
fn letters_are_lowered_one_alphabet_only() {
    assert_eq!(lower('A'), 'a');
    assert_eq!(lower('Z'), 'z');
    assert_eq!(lower('a'), 'a');
    assert_eq!(lower('['), '[');
    assert_eq!(lower('@'), '@');
    assert_eq!(lower('\u{c9}'), '\u{c9}');
    assert_eq!(lowered("PaTh_1 \u{c9}"), "path_1 \u{c9}");
}

#[test]
fn settle_delay_is_taken_only_after_ending_something() {
    assert_eq!(SETTLE_DELAY_MS, 500);
    assert_eq!(settle_delay(0), 0);
    assert_eq!(settle_delay(1), 500);
    assert_eq!(settle_delay(7), 500);
}

#[test]
fn captured_line_is_cleaned_stored_and_told() {
    let mut state = ProcessManagerState::new();
    state.register_config(config("/bin/tool", &[], CommandType::Executable));
    let event = capture_line(&mut state, "id", "stderr", "\u{1b}[31mfailed\u{1b}[0m", 1234);
    assert_eq!(event.id, "id");
    assert_eq!(event.output_type, "stderr");
    assert_eq!(event.line, "failed");
    assert_eq!(event.timestamp, 1234);
    assert_eq!(
        get_process_output(&state, "id").unwrap(),
        vec![(1234, "stderr".to_string(), "failed".to_string())]
    );
}

#[test]
fn line_of_a_removed_process_is_told_but_not_stored() {
    let mut state = ProcessManagerState::new();
    let event = capture_line(&mut state, "gone", "stdout", "late", 5);
    assert_eq!(event.id, "gone");
    assert_eq!(event.line, "late");
    assert!(state.output("gone").is_none());
}

#[test]
fn two_workers_do_not_disturb_each_other() {
    let mut state = ProcessManagerState::new();
    let mut a = config("/bin/a", &[], CommandType::Executable);
    a.id = "a".to_string();
    let mut b = config("/bin/b", &[], CommandType::Executable);
    b.id = "b".to_string();
    state.register_config(a);
    state.register_config(b);
    for i in 0..1500i64 {
        capture_line(&mut state, "a", "stdout", &format!("a{}", i), i);
        if i % 3 == 0 {
            capture_line(&mut state, "b", "stderr", &format!("b{}", i), i);
        }
    }
    let a_lines = get_process_output(&state, "a").unwrap();
    let b_lines = get_process_output(&state, "b").unwrap();
    assert_eq!(a_lines.len(), 1000);
    assert_eq!(b_lines.len(), 500);
    assert_eq!(a_lines[0].2, "a500");
    assert_eq!(a_lines[999].2, "a1499");
    assert_eq!(b_lines[0].2, "b0");
    assert_eq!(b_lines[499].2, "b1497");
    assert!(a_lines.iter().all(|l| l.1 == "stdout"));
    assert!(b_lines.iter().all(|l| l.1 == "stderr"));
}

#[test]
fn line_taken_in_now_carries_the_time_of_the_clock() {
    let mut state = ProcessManagerState::new();
    state.register_config(config("/bin/tool", &[], CommandType::Executable));
    let event = capture_line_now(&mut state, "id", "stdout", "tick\u{1b}[K");
    assert_eq!(event.line, "tick");
    assert!(event.timestamp > 1_600_000_000_000);
    assert_eq!(
        get_process_output(&state, "id").unwrap(),
        vec![(event.timestamp, "stdout".to_string(), "tick".to_string())]
    );
}

use service_launcher::paths::{managed_copy_dir, AppPaths};
use service_launcher::system_theme::{
    accent_color_changed, color_hex, get_accent_color, get_system_accent_color_hex,
    titlebar_color_value,
};
use service_launcher::text::{byte_len, copy_pairs, copy_strings, str_eq};
use service_launcher::types::ProcessError;
use service_launcher::config::plan_import;
use service_launcher::utils::{
    current_timestamp, current_timestamp_millis, executable_mode, launchable_extension,
};
use std::path::Path;

#[test]
fn directories_lie_below_the_data_directory() {
    let paths = AppPaths::new("/home/me/.local/share/app".to_string());
    assert_eq!(
        Path::new(&paths.data_dir()),
        Path::new("/home/me/.local/share/app").join("Data")
    );
    assert_eq!(
        Path::new(&paths.logs_dir()),
        Path::new("/home/me/.local/share/app").join("Logs")
    );
    assert_eq!(
        Path::new(&paths.processes_dir()),
        Path::new("/home/me/.local/share/app").join("processes")
    );
    assert_ne!(paths.data_dir(), paths.app_data_dir);
    assert_ne!(paths.data_dir(), paths.logs_dir());
}

#[test]
fn managed_copy_is_named_by_the_identifier() {
    let dir = managed_copy_dir("/data/processes", "abc");
    assert_eq!(Path::new(&dir), Path::new("/data/processes").join("abc"));
    assert!(dir.ends_with("abc"));
    assert!(dir.len() > "/data/processes".len());
}

#[test]
fn colors_are_written_in_lower_case_hex() {
    assert_eq!(color_hex(0, 0, 0), "#000000");
    assert_eq!(color_hex(255, 255, 255), "#ffffff");
    assert_eq!(color_hex(0x12, 0xab, 0x0f), "#12ab0f");
    assert_eq!(color_hex(1, 16, 160), "#0110a0");
    assert_eq!(
        get_system_accent_color_hex(Some((0, 120, 215))),
        Some("#0078d7".to_string())
    );
    assert_eq!(get_system_accent_color_hex(None), None);
}

#[test]
fn accent_color_carries_both_forms() {
    let accent = get_accent_color(Some((10, 200, 255))).unwrap();
    assert_eq!((accent.r, accent.g, accent.b), (10, 200, 255));
    assert_eq!(accent.hex, "#0ac8ff");
    assert!(get_accent_color(None).is_none());
}

#[test]
fn accent_color_change_is_seen() {
    assert!(!accent_color_changed(None, None));
    assert!(!accent_color_changed(Some((1, 2, 3)), Some((1, 2, 3))));
    assert!(accent_color_changed(Some((1, 2, 3)), Some((1, 2, 4))));
    assert!(accent_color_changed(None, Some((0, 0, 0))));
    assert!(accent_color_changed(Some((0, 0, 0)), None));
}

#[test]
fn titlebar_color_has_red_lowest() {
    assert_eq!(titlebar_color_value(0, 0, 0), 0);
    assert_eq!(titlebar_color_value(1, 2, 3), 0x030201);
    assert_eq!(titlebar_color_value(255, 0, 0), 0xff);
    assert_eq!(titlebar_color_value(0, 255, 0), 0xff00);
    assert_eq!(titlebar_color_value(0, 0, 255), 0xff0000);
    assert_eq!(titlebar_color_value(255, 255, 255), 0xffffff);
}

#[test]
fn identifiers_have_the_hyphenated_shape() {
    let id = plan_import("/src", true, "/data").unwrap().id;
    assert_eq!(id.len(), 36);
    for (i, c) in id.chars().enumerate() {
        if i == 8 || i == 13 || i == 18 || i == 23 {
            assert_eq!(c, '-');
        } else {
            assert!(c.is_ascii_digit() || ('a'..='f').contains(&c));
        }
    }
    assert_ne!(plan_import("/src", true, "/data").unwrap().id, id);
}

#[test]
fn clock_reads_a_time_after_the_epoch() {
    let seconds = current_timestamp();
    let millis = current_timestamp_millis();
    assert!(seconds > 1_600_000_000);
    assert!(millis / 1000 >= seconds);
    assert!(millis / 1000 - seconds <= 2);
}

#[test]
fn files_to_run_are_told_by_name_or_mode() {
    assert!(launchable_extension("exe"));
    assert!(launchable_extension("EXE"));
    assert!(launchable_extension("Bat"));
    assert!(launchable_extension("cmd"));
    assert!(!launchable_extension("txt"));
    assert!(!launchable_extension(""));
    assert!(!launchable_extension("exe2"));
    assert!(executable_mode(0o755));
    assert!(executable_mode(0o100));
    assert!(executable_mode(0o001));
    assert!(!executable_mode(0o644));
    assert!(!executable_mode(0));
}

#[test]
fn errors_say_what_is_wrong() {
    assert_eq!(ProcessError::ProcessNotFound.message(), "Process not found");
    assert_eq!(
        ProcessError::AlreadyRunning.message(),
        "Process is already running"
    );
    assert_eq!(ProcessError::NotRunning.message(), "Process is not running");
    assert_eq!(
        ProcessError::ConfigNotFound.message(),
        "Process config not found"
    );
    assert_eq!(
        ProcessError::ExecutableNotFound.message(),
        "Executable file not found"
    );
    assert_eq!(
        ProcessError::SourceFolderNotFound.message(),
        "Source folder not found"
    );
    assert_eq!(
        ProcessError::NoExecutableFound.message(),
        "No executable found in the folder"
    );
    assert_eq!(
        ProcessError::InvalidWorkingDir.message(),
        "Working directory not found"
    );
    assert_eq!(ProcessError::EmptyCommand.message(), "Command is empty");
    assert_eq!(
        ProcessError::ExitedImmediately.message(),
        "Process exited immediately"
    );
    assert_eq!(
        ProcessError::StatusCheckFailed.message(),
        "Failed to check process status"
    );
}

#[test]
fn strings_are_measured_compared_and_copied() {
    assert_eq!(byte_len(""), 0);
    assert_eq!(byte_len("abc"), 3);
    assert_eq!(byte_len("\u{e9}\u{1F600}"), 6);
    assert!(str_eq("same", "same"));
    assert!(str_eq("", ""));
    assert!(!str_eq("same", "Same"));
    assert!(!str_eq("same", "same "));
    let strings = vec!["a".to_string(), "".to_string(), "\u{e9}".to_string()];
    assert_eq!(copy_strings(&strings), strings);
    let pairs = vec![("k".to_string(), "v".to_string())];
    assert_eq!(copy_pairs(&pairs), pairs);
}

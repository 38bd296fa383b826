//! Registering, changing and removing the configurations of processes.
//!
//! The caller looks at the file system and says what it saw; the rules of
//! what is accepted are here.

use vstd::prelude::*;
use vstd::string::*;

use crate::paths::{managed_copy_dir, managed_copy_path};
use crate::state::{reconfigured, unregistered, ProcessManagerState, StateView};
use crate::table::{lemma_position, lookup};
use crate::text::{copy_optional, copy_pairs};
use crate::types::{CommandType, ConfigView, ProcessConfig, ProcessError, ProcessMode};
use crate::utils::{current_timestamp, is_process_id, new_process_id};

verus! {

/// The way of launching that a request asks for: the one it names, or the
/// one in force where it names none.
pub open spec fn effective_type(requested: Option<CommandType>, current: CommandType)
    -> CommandType {
    match requested {
        Some(named) => named,
        None => current,
    }
}

/// Computes [`effective_type`].
pub fn choose_type(requested: Option<CommandType>, current: CommandType) -> (chosen: CommandType)
    ensures
        chosen == effective_type(requested, current),
{
    match requested {
        Some(named) => named,
        None => current,
    }
}

/// Whether the executable of a request is refused: it is to be run directly,
/// a path was given, and nothing is there. A line for the shell is never
/// looked at.
pub open spec fn executable_refused(command_type: CommandType, supplied: bool, exists: bool)
    -> bool {
    command_type == CommandType::Executable && supplied && !exists
}

/// The text that may be absent, or the empty text.
pub open spec fn text_or_empty(text: Option<Seq<char>>) -> Seq<char> {
    match text {
        Some(present) => present,
        None => Seq::empty(),
    }
}

/// Why a request to register an executable in place is refused, if it is.
pub open spec fn fork_refusal(
    command_type: CommandType,
    working_dir_is_dir: bool,
    executable_supplied: bool,
    executable_exists: bool,
) -> Option<ProcessError> {
    if !working_dir_is_dir {
        Some(ProcessError::InvalidWorkingDir)
    } else if executable_refused(command_type, executable_supplied, executable_exists) {
        Some(ProcessError::ExecutableNotFound)
    } else {
        None
    }
}

/// The configuration of an executable registered in place.
pub open spec fn fork_config_of(
    id: Seq<char>,
    created_at: i64,
    name: Seq<char>,
    working_dir: Seq<char>,
    executable_path: Option<Seq<char>>,
    args: Seq<Seq<char>>,
    auto_restart: bool,
    auto_start: bool,
    command_type: CommandType,
) -> ConfigView {
    ConfigView {
        id,
        name,
        mode: ProcessMode::Fork,
        command_type,
        command: text_or_empty(executable_path),
        args,
        working_dir,
        source_path: None,
        env: Seq::empty(),
        auto_restart,
        auto_start,
        created_at,
    }
}

/// The text that may be absent, or an empty string.
fn or_empty(text: Option<String>) -> (present: String)
    ensures
        present@ == text_or_empty(text.deep_view()),
{
    match text {
        Some(held) => held,
        None => String::new(),
    }
}

/// Builds the configuration of an executable registered in place.
pub fn fork_config(
    id: String,
    created_at: i64,
    name: String,
    working_dir: String,
    executable_path: Option<String>,
    args: Vec<String>,
    auto_restart: bool,
    auto_start: bool,
    command_type: CommandType,
) -> (config: ProcessConfig)
    ensures
        config@ == fork_config_of(
            id@,
            created_at,
            name@,
            working_dir@,
            executable_path.deep_view(),
            args.deep_view(),
            auto_restart,
            auto_start,
            command_type,
        ),
{
    let env: Vec<(String, String)> = Vec::new();
    assert(env.deep_view() =~= Seq::<(Seq<char>, Seq<char>)>::empty());
    ProcessConfig {
        id,
        name,
        mode: ProcessMode::Fork,
        command_type,
        command: or_empty(executable_path),
        args,
        working_dir,
        source_path: None,
        env,
        auto_restart,
        auto_start,
        created_at,
    }
}

/// Accepts or refuses a request to register an executable in place.
/// `working_dir_is_dir` says whether the working directory exists and is a
/// directory, `executable_exists` whether the executable path, where one was
/// given, leads to something. An accepted request gets a fresh identifier
/// and the time of the clock.
pub fn add_process_fork(
    name: String,
    working_dir: String,
    executable_path: Option<String>,
    args: Vec<String>,
    auto_restart: bool,
    auto_start: bool,
    command_type: Option<CommandType>,
    working_dir_is_dir: bool,
    executable_exists: bool,
) -> (added: Result<ProcessConfig, ProcessError>)
    ensures
        match added {
            Ok(config) => fork_refusal(
                effective_type(command_type, CommandType::Executable),
                working_dir_is_dir,
                executable_path is Some,
                executable_exists,
            ) is None && is_process_id(config.id@) && config@ == fork_config_of(
                config.id@,
                config.created_at,
                name@,
                working_dir@,
                executable_path.deep_view(),
                args.deep_view(),
                auto_restart,
                auto_start,
                effective_type(command_type, CommandType::Executable),
            ),
            Err(error) => fork_refusal(
                effective_type(command_type, CommandType::Executable),
                working_dir_is_dir,
                executable_path is Some,
                executable_exists,
            ) == Some(error),
        },
{
    let chosen = choose_type(command_type, CommandType::Executable);
    if !working_dir_is_dir {
        return Err(ProcessError::InvalidWorkingDir);
    }
    if chosen == CommandType::Executable && executable_path.is_some() && !executable_exists {
        return Err(ProcessError::ExecutableNotFound);
    }
    let id = new_process_id();
    let created_at: i64 = current_timestamp();
    Ok(
        fork_config(
            id,
            created_at,
            name,
            working_dir,
            executable_path,
            args,
            auto_restart,
            auto_start,
            chosen,
        ),
    )
}

/// Where the copy of a folder to import goes.
pub struct ImportPlan {
    /// The identifier that the process will have.
    pub id: String,
    /// The directory to copy the folder into.
    pub target_dir: String,
}

/// Accepts or refuses the folder of a request to import. `source_is_dir`
/// says whether it exists and is a directory; a folder without a name is
/// refused whatever was seen. An accepted folder gets a fresh identifier and,
/// below `processes_dir`, the directory named by it.
pub fn plan_import(source_folder: &str, source_is_dir: bool, processes_dir: &str) -> (plan: Result<
    ImportPlan,
    ProcessError,
>)
    ensures
        match plan {
            Ok(import) => source_is_dir && source_folder@.len() > 0 && is_process_id(import.id@)
                && import.target_dir@ == managed_copy_path(processes_dir@, import.id@),
            Err(error) => (!source_is_dir || source_folder@.len() == 0) && error
                == ProcessError::SourceFolderNotFound,
        },
{
    if !source_is_dir || source_folder.is_empty() {
        return Err(ProcessError::SourceFolderNotFound);
    }
    let id = new_process_id();
    let target_dir = managed_copy_dir(processes_dir, id.as_str());
    Ok(ImportPlan { id, target_dir })
}

/// The command of an imported process: the path that was given, or else the
/// executable that was found in the copy.
pub open spec fn import_command(
    executable_path: Option<Seq<char>>,
    found_executable: Option<Seq<char>>,
) -> Option<Seq<char>> {
    match executable_path {
        Some(path) => Some(path),
        None => found_executable,
    }
}

/// Why a request to import is refused once the folder was copied, if it is.
pub open spec fn import_refusal(
    source_folder: Seq<char>,
    command_type: CommandType,
    executable_supplied: bool,
    executable_exists: bool,
    executable_found: bool,
) -> Option<ProcessError> {
    if source_folder.len() == 0 {
        Some(ProcessError::SourceFolderNotFound)
    } else if executable_refused(command_type, executable_supplied, executable_exists) {
        Some(ProcessError::ExecutableNotFound)
    } else if !executable_supplied && !executable_found {
        Some(ProcessError::NoExecutableFound)
    } else {
        None
    }
}

/// The configuration of an imported process.
pub open spec fn import_config_of(
    id: Seq<char>,
    created_at: i64,
    name: Seq<char>,
    target_dir: Seq<char>,
    source_folder: Seq<char>,
    command: Seq<char>,
    args: Seq<Seq<char>>,
    auto_restart: bool,
    auto_start: bool,
    command_type: CommandType,
) -> ConfigView {
    ConfigView {
        id,
        name,
        mode: ProcessMode::Import,
        command_type,
        command,
        args,
        working_dir: target_dir,
        source_path: Some(source_folder),
        env: Seq::empty(),
        auto_restart,
        auto_start,
        created_at,
    }
}

/// Builds the configuration of an imported process.
pub fn import_config(
    plan: ImportPlan,
    created_at: i64,
    name: String,
    source_folder: String,
    command: String,
    args: Vec<String>,
    auto_restart: bool,
    auto_start: bool,
    command_type: CommandType,
) -> (config: ProcessConfig)
    ensures
        config@ == import_config_of(
            plan.id@,
            created_at,
            name@,
            plan.target_dir@,
            source_folder@,
            command@,
            args.deep_view(),
            auto_restart,
            auto_start,
            command_type,
        ),
{
    let env: Vec<(String, String)> = Vec::new();
    assert(env.deep_view() =~= Seq::<(Seq<char>, Seq<char>)>::empty());
    ProcessConfig {
        id: plan.id,
        name,
        mode: ProcessMode::Import,
        command_type,
        command,
        args,
        working_dir: plan.target_dir,
        source_path: Some(source_folder),
        env,
        auto_restart,
        auto_start,
        created_at,
    }
}

/// Accepts or refuses a request to import, once the folder was copied as
/// `plan` says. `executable_exists` says whether the executable path, where
/// one was given, leads to something; `found_executable` is what a look into
/// the copy found to run. The process works in the copy and remembers the
/// folder it came from, which has to have a name.
pub fn add_process_import(
    plan: ImportPlan,
    name: String,
    source_folder: String,
    executable_path: Option<String>,
    found_executable: Option<String>,
    args: Vec<String>,
    auto_restart: bool,
    auto_start: bool,
    command_type: Option<CommandType>,
    executable_exists: bool,
) -> (added: Result<ProcessConfig, ProcessError>)
    ensures
        match added {
            Ok(config) => ({
                &&& import_refusal(
                    source_folder@,
                    effective_type(command_type, CommandType::Executable),
                    executable_path is Some,
                    executable_exists,
                    found_executable is Some,
                ) is None
                &&& source_folder@.len() > 0
                &&& import_command(executable_path.deep_view(), found_executable.deep_view())
                    matches Some(command)
                &&& config@ == import_config_of(
                    plan.id@,
                    config.created_at,
                    name@,
                    plan.target_dir@,
                    source_folder@,
                    command,
                    args.deep_view(),
                    auto_restart,
                    auto_start,
                    effective_type(command_type, CommandType::Executable),
                )
            }),
            Err(error) => import_refusal(
                source_folder@,
                effective_type(command_type, CommandType::Executable),
                executable_path is Some,
                executable_exists,
                found_executable is Some,
            ) == Some(error),
        },
{
    let chosen = choose_type(command_type, CommandType::Executable);
    if source_folder.as_str().is_empty() {
        return Err(ProcessError::SourceFolderNotFound);
    }
    if chosen == CommandType::Executable && executable_path.is_some() && !executable_exists {
        return Err(ProcessError::ExecutableNotFound);
    }
    let command = match executable_path {
        Some(path) => path,
        None => match found_executable {
            Some(found) => found,
            None => {
                return Err(ProcessError::NoExecutableFound);
            },
        },
    };
    let created_at: i64 = current_timestamp();
    Ok(
        import_config(
            plan,
            created_at,
            name,
            source_folder,
            command,
            args,
            auto_restart,
            auto_start,
            chosen,
        ),
    )
}

/// What is left to do once a process was removed from the state.
pub struct Removal {
    /// The configuration that was registered.
    pub config: ProcessConfig,
    /// Whether the process owns a managed copy that is now to be deleted.
    pub delete_managed_copy: bool,
}

/// Removes a process: its live entry goes in any case, and an identifier
/// that is not registered is then refused. The managed copy is to be deleted
/// exactly where the process was imported.
pub fn remove_process(state: &mut ProcessManagerState, id: &str) -> (removal: Result<
    Removal,
    ProcessError,
>)
    requires
        old(state).wf(),
    ensures
        final(state).wf(),
        final(state)@ == unregistered(old(state)@, id@),
        match removal {
            Ok(done) => lookup(old(state)@.configs, id@) == Some(done.config@)
                && done.delete_managed_copy == (done.config.mode == ProcessMode::Import),
            Err(error) => error == ProcessError::ProcessNotFound && lookup(
                old(state)@.configs,
                id@,
            ) is None,
        },
{
    match state.unregister(id) {
        Some(config) => {
            let delete_managed_copy = config.mode == ProcessMode::Import;
            Ok(Removal { config, delete_managed_copy })
        },
        None => Err(ProcessError::ProcessNotFound),
    }
}

/// Whether a request to change a process moves its working directory: it
/// names one, and the process was registered in place. An imported process
/// stays in its managed copy.
pub open spec fn moves_working_dir(mode: ProcessMode, working_dir_supplied: bool) -> bool {
    working_dir_supplied && mode == ProcessMode::Fork
}

/// Why a request to change a process is refused, if it is. Only what the
/// request changes is looked at: a working directory to move to has to be a
/// directory, and an executable that is given has to exist where the process
/// will be run directly, by the way of launching that the request names or,
/// where it names none, the one in force.
pub open spec fn update_refusal(
    state: StateView,
    id: Seq<char>,
    working_dir_supplied: bool,
    working_dir_is_dir: bool,
    command_type: Option<CommandType>,
    executable_supplied: bool,
    executable_exists: bool,
) -> Option<ProcessError> {
    match lookup(state.configs, id) {
        None => Some(ProcessError::ProcessNotFound),
        Some(config) => if moves_working_dir(config.mode, working_dir_supplied)
            && !working_dir_is_dir {
            Some(ProcessError::InvalidWorkingDir)
        } else if executable_refused(
            effective_type(command_type, config.command_type),
            executable_supplied,
            executable_exists,
        ) {
            Some(ProcessError::ExecutableNotFound)
        } else {
            None
        },
    }
}

/// The text that a request names, or the one in force.
pub open spec fn text_or(requested: Option<Seq<char>>, current: Seq<char>) -> Seq<char> {
    match requested {
        Some(named) => named,
        None => current,
    }
}

/// A configuration after a change: name, arguments and the two flags are
/// those of the request; the way of launching and the command are those of
/// the request where it names them, and so is the working directory of a
/// process that was registered in place; all else stays.
pub open spec fn updated_config(
    config: ConfigView,
    name: Seq<char>,
    working_dir: Option<Seq<char>>,
    executable_path: Option<Seq<char>>,
    args: Seq<Seq<char>>,
    auto_restart: bool,
    auto_start: bool,
    command_type: Option<CommandType>,
) -> ConfigView {
    ConfigView {
        id: config.id,
        name,
        mode: config.mode,
        command_type: effective_type(command_type, config.command_type),
        command: text_or(executable_path, config.command),
        args,
        working_dir: if moves_working_dir(config.mode, working_dir is Some) {
            text_or(working_dir, config.working_dir)
        } else {
            config.working_dir
        },
        source_path: config.source_path,
        env: config.env,
        auto_restart,
        auto_start,
        created_at: config.created_at,
    }
}

/// The text that a request names, or a copy of the one in force.
fn named_or(requested: Option<String>, current: &String) -> (text: String)
    ensures
        text@ == text_or(requested.deep_view(), current@),
{
    match requested {
        Some(named) => named,
        None => current.clone(),
    }
}

/// Changes the configuration of a registered process, or refuses as
/// [`update_refusal`] says and leaves the state as it was. A process that is
/// alive goes on as it was launched. `working_dir_is_dir` and
/// `executable_exists` say what was seen of the paths that the request names.
pub fn update_process(
    state: &mut ProcessManagerState,
    id: &str,
    name: String,
    working_dir: Option<String>,
    executable_path: Option<String>,
    args: Vec<String>,
    auto_restart: bool,
    auto_start: bool,
    command_type: Option<CommandType>,
    working_dir_is_dir: bool,
    executable_exists: bool,
) -> (updated: Result<ProcessConfig, ProcessError>)
    requires
        old(state).wf(),
    ensures
        final(state).wf(),
        match updated {
            Ok(config) => ({
                &&& update_refusal(
                    old(state)@,
                    id@,
                    working_dir is Some,
                    working_dir_is_dir,
                    command_type,
                    executable_path is Some,
                    executable_exists,
                ) is None
                &&& final(state)@ == reconfigured(old(state)@, config@)
                &&& lookup(old(state)@.configs, id@) matches Some(current)
                &&& config@ == updated_config(
                    current,
                    name@,
                    working_dir.deep_view(),
                    executable_path.deep_view(),
                    args.deep_view(),
                    auto_restart,
                    auto_start,
                    command_type,
                )
            }),
            Err(error) => update_refusal(
                old(state)@,
                id@,
                working_dir is Some,
                working_dir_is_dir,
                command_type,
                executable_path is Some,
                executable_exists,
            ) == Some(error) && final(state)@ == old(state)@,
        },
{
    proof {
        lemma_position(state@.configs, id@);
    }
    let current = match state.config(id) {
        Some(held) => held,
        None => {
            return Err(ProcessError::ProcessNotFound);
        },
    };
    let moves = working_dir.is_some() && current.mode == ProcessMode::Fork;
    if moves && !working_dir_is_dir {
        return Err(ProcessError::InvalidWorkingDir);
    }
    let chosen = choose_type(command_type, current.command_type);
    if chosen == CommandType::Executable && executable_path.is_some() && !executable_exists {
        return Err(ProcessError::ExecutableNotFound);
    }
    let changed = ProcessConfig {
        id: current.id.clone(),
        name,
        mode: current.mode,
        command_type: chosen,
        command: named_or(executable_path, &current.command),
        args,
        working_dir: if moves {
            named_or(working_dir, &current.working_dir)
        } else {
            current.working_dir.clone()
        },
        source_path: copy_optional(&current.source_path),
        env: copy_pairs(&current.env),
        auto_restart,
        auto_start,
        created_at: current.created_at,
    };
    let answer = changed.duplicate();
    let _ = state.replace_config(changed);
    Ok(answer)
}

/// What holds of every configuration that this module hands out: an
/// imported process remembers a folder with a name and works in its managed
/// copy, the directory named by its identifier below `processes_dir`.
pub open spec fn import_is_managed(config: ConfigView, processes_dir: Seq<char>) -> bool {
    config.mode == ProcessMode::Import ==> {
        &&& config.source_path matches Some(folder)
        &&& folder.len() > 0
        &&& config.working_dir == managed_copy_path(processes_dir, config.id)
    }
}

/// A change keeps a configuration as [`import_is_managed`] says.
pub proof fn law_import_stays_managed(
    config: ConfigView,
    processes_dir: Seq<char>,
    name: Seq<char>,
    working_dir: Option<Seq<char>>,
    executable_path: Option<Seq<char>>,
    args: Seq<Seq<char>>,
    auto_restart: bool,
    auto_start: bool,
    command_type: Option<CommandType>,
)
    requires
        import_is_managed(config, processes_dir),
    ensures
        import_is_managed(
            updated_config(
                config,
                name,
                working_dir,
                executable_path,
                args,
                auto_restart,
                auto_start,
                command_type,
            ),
            processes_dir,
        ),
{
}

} // verus!

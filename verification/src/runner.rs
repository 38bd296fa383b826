//! Turning a configuration into a launch, and taking in what the launched
//! process prints.

use vstd::prelude::*;
use vstd::string::*;

use crate::environment::{launch_environment, reconstruct_environment};
use crate::normalize::{normalized, strip_control_sequences};
use crate::output::{
    after_appends, law_appends_keep_newest, retained, stored_entry, within_caps, OutputEntry,
};
use crate::paths::{file_name, path_file_name};
use crate::state::{output_appended, ProcessManagerState, StateView};
use crate::table::{lemma_lookup_inserted, lemma_position, lookup, position};
use crate::text::copy_strings;
use crate::types::{
    CommandType, ConfigView, OutputEventView, ProcessConfig, ProcessError, ProcessOutputEvent,
};
use crate::utils::current_timestamp_millis;

verus! {

/// How long the system is given to let go of what a process held, once
/// others of its name were ended, in milliseconds.
pub const SETTLE_DELAY_MS: u64 = 500;

/// How one process is to be launched.
#[derive(Clone, Debug)]
pub struct LaunchPlan {
    /// Whether `program` is run directly or handed to the shell as a line.
    pub command_type: CommandType,
    /// The program to run, or the line for the shell.
    pub program: String,
    /// The arguments of the program; none for a line.
    pub args: Vec<String>,
    /// The directory to run in.
    pub working_dir: String,
    /// The whole environment of the process.
    pub env: Vec<(String, String)>,
    /// The file name of which every other running process is to be ended
    /// first.
    pub terminate_same_name: Option<String>,
}

/// A [`LaunchPlan`] as the contracts see it.
pub struct LaunchPlanView {
    pub command_type: CommandType,
    pub program: Seq<char>,
    pub args: Seq<Seq<char>>,
    pub working_dir: Seq<char>,
    pub env: Seq<(Seq<char>, Seq<char>)>,
    pub terminate_same_name: Option<Seq<char>>,
}

impl View for LaunchPlan {
    type V = LaunchPlanView;

    open spec fn view(&self) -> LaunchPlanView {
        LaunchPlanView {
            command_type: self.command_type,
            program: self.program@,
            args: self.args.deep_view(),
            working_dir: self.working_dir@,
            env: self.env.deep_view(),
            terminate_same_name: self.terminate_same_name.deep_view(),
        }
    }
}

/// The line for the shell: the command, then each argument behind a space.
pub open spec fn shell_line(command: Seq<char>, args: Seq<Seq<char>>) -> Seq<char>
    decreases args.len(),
{
    if args.len() == 0 {
        command
    } else {
        shell_line(command, args.drop_last()).push(' ') + args.last()
    }
}

/// Computes [`shell_line`].
pub fn build_shell_line(command: &str, args: &Vec<String>) -> (line: String)
    ensures
        line@ == shell_line(command@, args.deep_view()),
{
    let mut line: String = command.to_owned();
    let mut at: usize = 0;
    assert(args.deep_view().take(0) =~= Seq::<Seq<char>>::empty());
    while at < args.len()
        invariant
            at <= args.len(),
            line@ == shell_line(command@, args.deep_view().take(at as int)),
        decreases args.len() - at,
    {
        proof {
            let seen = args.deep_view().take(at + 1);
            assert(seen.drop_last() =~= args.deep_view().take(at as int));
            assert(seen.last() == args[at as int]@);
        }
        line.push(' ');
        line.append(args[at].as_str());
        at = at + 1;
    }
    assert(args.deep_view().take(args.len() as int) =~= args.deep_view());
    line
}

/// The launch of a configuration with a command. A process that is run
/// directly gets its command and arguments as they are, and others of its
/// file name are to be ended first; a line for the shell is the command and
/// the arguments in one, and nothing is to be ended.
pub open spec fn launch_plan_of(
    config: ConfigView,
    own_env: Seq<(Seq<char>, Seq<char>)>,
    user_env: Option<Seq<(Seq<char>, Seq<char>)>>,
    separator: char,
) -> LaunchPlanView {
    LaunchPlanView {
        command_type: config.command_type,
        program: match config.command_type {
            CommandType::Executable => config.command,
            CommandType::Shell => shell_line(config.command, config.args),
        },
        args: match config.command_type {
            CommandType::Executable => config.args,
            CommandType::Shell => Seq::empty(),
        },
        working_dir: config.working_dir,
        env: launch_environment(own_env, user_env, config.env, separator),
        terminate_same_name: match config.command_type {
            CommandType::Executable => path_file_name(config.command),
            CommandType::Shell => None,
        },
    }
}

/// Plans the launch of a configuration, or refuses one without a command.
/// `own_env` is the environment of the supervisor itself, `user_env` the
/// environment that the platform keeps for the user, where it keeps one, and
/// `separator` what stands between the pieces of a search path.
pub fn spawn_process(
    config: &ProcessConfig,
    own_env: Vec<(String, String)>,
    user_env: Option<Vec<(String, String)>>,
    separator: char,
) -> (plan: Result<LaunchPlan, ProcessError>)
    ensures
        match plan {
            Ok(launch) => config.command@.len() > 0 && launch@ == launch_plan_of(
                config@,
                own_env.deep_view(),
                user_env.deep_view(),
                separator,
            ),
            Err(error) => config.command@.len() == 0 && error == ProcessError::EmptyCommand,
        },
{
    if config.command.as_str().is_empty() {
        return Err(ProcessError::EmptyCommand);
    }
    let env = reconstruct_environment(own_env, user_env, &config.env, separator);
    match config.command_type {
        CommandType::Executable => Ok(
            LaunchPlan {
                command_type: CommandType::Executable,
                program: config.command.clone(),
                args: copy_strings(&config.args),
                working_dir: config.working_dir.clone(),
                env,
                terminate_same_name: file_name(config.command.as_str()),
            },
        ),
        CommandType::Shell => {
            let args: Vec<String> = Vec::new();
            assert(args.deep_view() =~= Seq::<Seq<char>>::empty());
            Ok(
                LaunchPlan {
                    command_type: CommandType::Shell,
                    program: build_shell_line(config.command.as_str(), &config.args),
                    args,
                    working_dir: config.working_dir.clone(),
                    env,
                    terminate_same_name: None,
                },
            )
        },
    }
}

/// How long to wait before the launch, in milliseconds: the settle delay
/// where other processes of the name were ended, no time where none was.
pub fn settle_delay(ended: u32) -> (millis: u64)
    ensures
        millis == if ended > 0 {
            SETTLE_DELAY_MS
        } else {
            0
        },
{
    if ended > 0 {
        SETTLE_DELAY_MS
    } else {
        0
    }
}

/// The event that tells of a captured line.
pub open spec fn output_event_of(
    id: Seq<char>,
    output_type: Seq<char>,
    line: Seq<char>,
    timestamp: i64,
) -> OutputEventView {
    OutputEventView { id, output_type, line: normalized(line), timestamp }
}

/// Takes in one line that a process printed: the line loses its terminal
/// control sequences and goes into the buffer of the process, where it has
/// one. The event to publish is handed out whether it has one or not.
pub fn capture_line(
    state: &mut ProcessManagerState,
    id: &str,
    output_type: &str,
    line: &str,
    timestamp: i64,
) -> (event: ProcessOutputEvent)
    requires
        old(state).wf(),
    ensures
        final(state).wf(),
        final(state)@ == output_appended(
            old(state)@,
            id@,
            timestamp,
            output_type@,
            normalized(line@),
        ),
        event@ == output_event_of(id@, output_type@, line@, timestamp),
{
    let clean = strip_control_sequences(line);
    let _ = state.append_output(id, timestamp, output_type.to_owned(), clean.clone());
    ProcessOutputEvent {
        id: id.to_owned(),
        output_type: output_type.to_owned(),
        line: clean,
        timestamp,
    }
}

/// Takes in one line as [`capture_line`] does, at the time of the clock in
/// milliseconds.
pub fn capture_line_now(
    state: &mut ProcessManagerState,
    id: &str,
    output_type: &str,
    line: &str,
) -> (event: ProcessOutputEvent)
    requires
        old(state).wf(),
    ensures
        final(state).wf(),
        final(state)@ == output_appended(
            old(state)@,
            id@,
            event.timestamp,
            output_type@,
            normalized(line@),
        ),
        event@ == output_event_of(id@, output_type@, line@, event.timestamp),
{
    let timestamp: i64 = current_timestamp_millis();
    capture_line(state, id, output_type, line, timestamp)
}

/// A line that is taken in for one process leaves the buffers of all others,
/// the registry and the live processes as they are.
pub proof fn law_capture_touches_one_buffer(
    state: StateView,
    id: Seq<char>,
    timestamp: i64,
    output_type: Seq<char>,
    line: Seq<char>,
)
    ensures
        ({
            let after = output_appended(state, id, timestamp, output_type, line);
            &&& after.configs == state.configs
            &&& after.processes == state.processes
            &&& after.outputs.len() == state.outputs.len()
            &&& forall|other: Seq<char>|
                other != id ==> #[trigger] lookup(after.outputs, other) == lookup(
                    state.outputs,
                    other,
                )
            &&& lookup(state.outputs, id) matches Some(held) ==> lookup(after.outputs, id) == Some(
                retained(held.push(stored_entry(timestamp, output_type, line))),
            )
        }),
{
    lemma_position(state.outputs, id);
    match lookup(state.outputs, id) {
        Some(held) => {
            lemma_lookup_inserted(
                state.outputs,
                id,
                retained(held.push(stored_entry(timestamp, output_type, line))),
            );
        },
        None => {},
    }
}

/// Lines that are taken in for two different processes end in the same state
/// in whichever order they come.
pub proof fn law_captures_commute(
    state: StateView,
    first: Seq<char>,
    first_entry: (i64, Seq<char>, Seq<char>),
    second: Seq<char>,
    second_entry: (i64, Seq<char>, Seq<char>),
)
    requires
        first != second,
    ensures
        output_appended(
            output_appended(state, first, first_entry.0, first_entry.1, first_entry.2),
            second,
            second_entry.0,
            second_entry.1,
            second_entry.2,
        ) == output_appended(
            output_appended(state, second, second_entry.0, second_entry.1, second_entry.2),
            first,
            first_entry.0,
            first_entry.1,
            first_entry.2,
        ),
{
    let one = output_appended(state, first, first_entry.0, first_entry.1, first_entry.2);
    let two = output_appended(state, second, second_entry.0, second_entry.1, second_entry.2);
    law_capture_touches_one_buffer(state, first, first_entry.0, first_entry.1, first_entry.2);
    law_capture_touches_one_buffer(state, second, second_entry.0, second_entry.1, second_entry.2);
    lemma_position(state.outputs, first);
    lemma_position(state.outputs, second);
    lemma_position(one.outputs, second);
    lemma_position(two.outputs, first);
    let one_two = output_appended(one, second, second_entry.0, second_entry.1, second_entry.2);
    let two_one = output_appended(two, first, first_entry.0, first_entry.1, first_entry.2);
    lemma_same_place(state.outputs, one.outputs, first, second);
    lemma_same_place(state.outputs, two.outputs, second, first);
    assert(one_two.outputs =~= two_one.outputs);
}

/// Replacing what stands under one key leaves every other key in its place.
proof fn lemma_same_place(
    before: Seq<(Seq<char>, Seq<OutputEntry>)>,
    after: Seq<(Seq<char>, Seq<OutputEntry>)>,
    changed: Seq<char>,
    other: Seq<char>,
)
    requires
        changed != other,
        after == before || exists|kept: Seq<OutputEntry>|
            position(before, changed) is Some && after == before.update(
                position(before, changed).unwrap(),
                (changed, kept),
            ),
    ensures
        position(after, other) == position(before, other),
{
    if after != before {
        lemma_position(before, changed);
        lemma_position(before, other);
        let at = position(before, changed).unwrap();
        match position(before, other) {
            Some(place) => {
                assert(after[place] == before[place]);
                assert forall|j: int| 0 <= j < place && j < after.len() implies (
                #[trigger] after[j]).0 != other by {
                    assert(before[j].0 != other);
                }
                crate::table::lemma_position_found(after, other, place);
            },
            None => {
                assert forall|j: int| 0 <= j < after.len() implies (#[trigger] after[j]).0
                    != other by {
                    assert(before[j].0 != other);
                }
                crate::table::lemma_position_none(after, other);
            },
        }
    }
}

/// One captured line: the process it came from, its time, its stream kind
/// and its text.
pub struct Captured {
    pub id: Seq<char>,
    pub timestamp: i64,
    pub output_type: Seq<char>,
    pub line: Seq<char>,
}

/// The state after each of the lines was taken in, in order.
pub open spec fn captured_all(state: StateView, lines: Seq<Captured>) -> StateView
    decreases lines.len(),
{
    if lines.len() == 0 {
        state
    } else {
        output_appended(
            captured_all(state, lines.drop_last()),
            lines.last().id,
            lines.last().timestamp,
            lines.last().output_type,
            lines.last().line,
        )
    }
}

/// Of the lines, those of one process, in order, as its buffer stores them.
pub open spec fn lines_of(lines: Seq<Captured>, id: Seq<char>) -> Seq<OutputEntry>
    decreases lines.len(),
{
    if lines.len() == 0 {
        Seq::empty()
    } else if lines.last().id == id {
        lines_of(lines.drop_last(), id).push(
            stored_entry(lines.last().timestamp, lines.last().output_type, lines.last().line),
        )
    } else {
        lines_of(lines.drop_last(), id)
    }
}

/// However the lines of several processes are interleaved, the buffer of
/// each holds in the end what it would hold had its own lines come alone:
/// the newest of them, as many as fit both caps.
pub proof fn law_interleaving_keeps_each_buffer(
    state: StateView,
    lines: Seq<Captured>,
    id: Seq<char>,
    held: Seq<OutputEntry>,
)
    requires
        lookup(state.outputs, id) == Some(held),
        within_caps(held),
    ensures
        lookup(captured_all(state, lines).outputs, id) == Some(
            after_appends(held, lines_of(lines, id)),
        ),
        after_appends(held, lines_of(lines, id)) == retained(held + lines_of(lines, id)),
    decreases lines.len(),
{
    law_appends_keep_newest(held, lines_of(lines, id));
    if lines.len() > 0 {
        let last = lines.last();
        let before = captured_all(state, lines.drop_last());
        let after = output_appended(before, last.id, last.timestamp, last.output_type, last.line);
        law_interleaving_keeps_each_buffer(state, lines.drop_last(), id, held);
        law_capture_touches_one_buffer(
            before,
            last.id,
            last.timestamp,
            last.output_type,
            last.line,
        );
        assert(captured_all(state, lines) == after);
        if last.id != id {
            assert(lookup(after.outputs, id) == lookup(before.outputs, id));
        } else {
            let own = lines_of(lines, id);
            assert(own.drop_last() =~= lines_of(lines.drop_last(), id));
            assert(own.last() == stored_entry(last.timestamp, last.output_type, last.line));
        }
    }
}

} // verus!

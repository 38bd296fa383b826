//! Starting and stopping processes, and bringing up those that follow the
//! application.

use vstd::prelude::*;
use vstd::string::*;

use crate::state::{
    all_stopped, output_cleared, running_registered, running_removed, well_formed,
    ProcessManagerState, StateView,
};
use crate::table::{
    entry_view, lemma_lookup_inserted, lemma_lookup_removed, lemma_position, lookup, removed,
};
use crate::types::{
    snapshot, snapshot_of, ProcessConfig, ProcessError, ProcessInfo, RunningProcess, RunningView,
};

verus! {

/// How long a process that was started with the application is given before
/// it is looked at again, in milliseconds.
pub const READINESS_DELAY_MS: u64 = 100;

/// Why a start of `id` is refused, if it is: the process is alive, or
/// nothing is registered under the identifier.
pub open spec fn start_refusal(state: StateView, id: Seq<char>) -> Option<ProcessError> {
    if lookup(state.processes, id) is Some {
        Some(ProcessError::AlreadyRunning)
    } else if lookup(state.configs, id) is None {
        Some(ProcessError::ConfigNotFound)
    } else {
        None
    }
}

/// The state after a start of `id` was asked for: the output of an earlier
/// run is gone where the start goes ahead, and nothing has changed where it
/// is refused.
pub open spec fn start_requested(state: StateView, id: Seq<char>) -> StateView {
    if start_refusal(state, id) is None {
        output_cleared(state, id)
    } else {
        state
    }
}

/// Why a stop of `id` is refused, if it is: the process is not alive.
pub open spec fn stop_refusal(state: StateView, id: Seq<char>) -> Option<ProcessError> {
    if lookup(state.processes, id) is Some {
        None
    } else {
        Some(ProcessError::NotRunning)
    }
}

/// The first half of a start: refuses what [`start_refusal`] names, and
/// otherwise clears the output of the earlier run and hands out the
/// configuration to launch.
pub fn start_process(state: &mut ProcessManagerState, id: &str) -> (plan: Result<
    ProcessConfig,
    ProcessError,
>)
    requires
        old(state).wf(),
    ensures
        final(state).wf(),
        final(state)@ == start_requested(old(state)@, id@),
        match plan {
            Ok(config) => start_refusal(old(state)@, id@) is None && lookup(
                old(state)@.configs,
                id@,
            ) == Some(config@),
            Err(error) => start_refusal(old(state)@, id@) == Some(error),
        },
{
    if state.running(id).is_some() {
        return Err(ProcessError::AlreadyRunning);
    }
    let config = match state.config(id) {
        Some(held) => held.duplicate(),
        None => {
            return Err(ProcessError::ConfigNotFound);
        },
    };
    let _ = state.clear_output(id);
    Ok(config)
}

/// The second half of a start: enters the launched process as alive.
pub fn register_running_process(
    state: &mut ProcessManagerState,
    id: &str,
    pid: u32,
    config: ProcessConfig,
    started_at: i64,
)
    requires
        old(state).wf(),
    ensures
        final(state).wf(),
        final(state)@ == running_registered(
            old(state)@,
            id@,
            RunningView { pid, config: config@, started_at },
        ),
{
    let key: String = id.to_owned();
    state.insert_running(key, RunningProcess { pid, config, started_at });
}

/// The snapshot that a start answers with: running, with the process
/// identifier and the start time, and no output yet.
pub fn started_info(config: &ProcessConfig, pid: u32, started_at: i64) -> (info: ProcessInfo)
    ensures
        info@ == snapshot_of(config@, Some((pid, started_at)), false),
{
    snapshot(config, Some((pid, started_at)), false)
}

/// Takes a process out of those that are alive and hands out its entry, so
/// that the caller can end it. Refuses a process that is not alive and
/// leaves the state as it was.
pub fn stop_process(state: &mut ProcessManagerState, id: &str) -> (taken: Result<
    RunningProcess,
    ProcessError,
>)
    requires
        old(state).wf(),
    ensures
        final(state).wf(),
        match taken {
            Ok(run) => stop_refusal(old(state)@, id@) is None && lookup(
                old(state)@.processes,
                id@,
            ) == Some(run@) && final(state)@ == running_removed(old(state)@, id@),
            Err(error) => stop_refusal(old(state)@, id@) == Some(error) && final(state)@ == old(
                state,
            )@,
        },
{
    proof {
        lemma_position(state@.processes, id@);
    }
    match state.take_running(id) {
        Some(run) => Ok(run),
        None => {
            assert(removed(old(state)@.processes, id@) == old(state)@.processes);
            Err(ProcessError::NotRunning)
        },
    }
}

/// Takes every process out of those that are alive, so that the caller can
/// end each of them.
pub fn kill_all_processes(state: &mut ProcessManagerState) -> (taken: Vec<(String, RunningProcess)>)
    requires
        old(state).wf(),
    ensures
        final(state).wf(),
        final(state)@ == all_stopped(old(state)@),
        taken@.map_values(|entry: (String, RunningProcess)| entry_view(entry)) == old(
            state,
        )@.processes,
{
    state.take_all_running()
}

/// A start of a process that is registered and not alive goes ahead and
/// enters exactly one live process; a second start before a stop is refused
/// as already running and leaves the state as it is.
pub proof fn law_start_enters_one_process(state: StateView, id: Seq<char>, run: RunningView)
    requires
        well_formed(state),
        lookup(state.processes, id) is None,
        lookup(state.configs, id) is Some,
    ensures
        start_refusal(state, id) is None,
        ({
            let started = running_registered(start_requested(state, id), id, run);
            &&& started.processes == state.processes.push((id, run))
            &&& lookup(started.processes, id) == Some(run)
            &&& well_formed(started)
            &&& start_refusal(started, id) == Some(ProcessError::AlreadyRunning)
            &&& start_requested(started, id) == started
        }),
{
    let cleared = start_requested(state, id);
    lemma_lookup_inserted(state.outputs, id, Seq::empty());
    lemma_position(state.processes, id);
    lemma_lookup_inserted(cleared.processes, id, run);
    lemma_cleared_is_well_formed(state, id);
}

/// Clearing a buffer keeps a state well formed.
pub proof fn lemma_cleared_is_well_formed(state: StateView, id: Seq<char>)
    requires
        well_formed(state),
    ensures
        well_formed(output_cleared(state, id)),
{
    lemma_lookup_inserted(state.outputs, id, Seq::empty());
    let cleared = output_cleared(state, id);
    assert forall|other: Seq<char>| #[trigger] lookup(cleared.configs, other) is Some implies lookup(
        cleared.outputs,
        other,
    ) is Some by {
        assert(lookup(state.configs, other) is Some);
        assert(lookup(state.outputs, other) is Some);
    }
}

/// A stop of a process that is not alive is refused as not running and
/// changes nothing; a stop of one that is alive takes it out of the live
/// processes and nothing else, after which a start of it goes ahead where it
/// is registered.
pub proof fn law_stop_then_start(state: StateView, id: Seq<char>)
    requires
        well_formed(state),
    ensures
        lookup(state.processes, id) is None ==> stop_refusal(state, id) == Some(
            ProcessError::NotRunning,
        ) && running_removed(state, id) == state,
        lookup(state.processes, id) is Some ==> ({
            let stopped = running_removed(state, id);
            &&& stop_refusal(state, id) is None
            &&& lookup(stopped.processes, id) is None
            &&& stopped.processes.len() == state.processes.len() - 1
            &&& forall|other: Seq<char>|
                other != id ==> #[trigger] lookup(stopped.processes, other) == lookup(
                    state.processes,
                    other,
                )
            &&& well_formed(stopped)
            &&& lookup(state.configs, id) is Some ==> start_refusal(stopped, id) is None
        }),
{
    lemma_position(state.processes, id);
    lemma_lookup_removed(state.processes, id);
}

} // verus!

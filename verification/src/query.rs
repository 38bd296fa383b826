//! Snapshots of what is registered and what is alive.

use vstd::prelude::*;
use vstd::seq_lib::*;
use vstd::string::*;

use crate::output::entries_of;
use crate::state::{output_cleared, running_removed, ProcessManagerState, StateView};
use crate::table::lookup;
use crate::types::{snapshot, snapshot_of, ConfigView, InfoView, ProcessError, ProcessInfo};

verus! {

/// The process identifier and the start time of a process, where it is alive.
pub open spec fn live_of(state: StateView, id: Seq<char>) -> Option<(u32, i64)> {
    match lookup(state.processes, id) {
        Some(run) => Some((run.pid, run.started_at)),
        None => None,
    }
}

/// Whether the buffer of a process holds a line.
pub open spec fn has_output(state: StateView, id: Seq<char>) -> bool {
    match lookup(state.outputs, id) {
        Some(entries) => entries.len() > 0,
        None => false,
    }
}

/// The snapshot of the process registered under `id` with `config`.
pub open spec fn info_of(state: StateView, id: Seq<char>, config: ConfigView) -> InfoView {
    snapshot_of(config, live_of(state, id), has_output(state, id))
}

/// The snapshots of all registered processes, in the order of the registry.
pub open spec fn snapshots(state: StateView) -> Seq<InfoView> {
    state.configs.map_values(|entry: (Seq<char>, ConfigView)| info_of(state, entry.0, entry.1))
}

/// The state after the processes named in `exited` were taken out of those
/// that are alive.
pub open spec fn reaped(state: StateView, exited: Seq<Seq<char>>) -> StateView
    decreases exited.len(),
{
    if exited.len() == 0 {
        state
    } else {
        reaped(running_removed(state, exited[0]), exited.drop_first())
    }
}

/// `at` is where a snapshot created at `created_at` goes into `sorted`:
/// behind every snapshot that is as new or newer, before the first older one.
pub open spec fn is_slot(sorted: Seq<InfoView>, created_at: i64, at: int) -> bool {
    &&& 0 <= at <= sorted.len()
    &&& forall|j: int| 0 <= j < at ==> (#[trigger] sorted[j]).created_at >= created_at
    &&& at < sorted.len() ==> sorted[at].created_at < created_at
}

/// The place that [`is_slot`] describes.
pub open spec fn slot(sorted: Seq<InfoView>, created_at: i64) -> int {
    choose|at: int| is_slot(sorted, created_at, at)
}

/// The snapshots ordered by creation time, newest first; snapshots created
/// at the same time keep their order.
pub open spec fn newest_first(infos: Seq<InfoView>) -> Seq<InfoView>
    decreases infos.len(),
{
    if infos.len() == 0 {
        infos
    } else {
        let sorted = newest_first(infos.drop_last());
        sorted.insert(slot(sorted, infos.last().created_at), infos.last())
    }
}

/// No snapshot stands before a newer one.
pub open spec fn descending(infos: Seq<InfoView>) -> bool {
    forall|i: int, j: int|
        0 <= i < j < infos.len() ==> (#[trigger] infos[i]).created_at >= (
        #[trigger] infos[j]).created_at
}

/// The snapshots that a vector of them stands for.
pub open spec fn info_views(infos: Seq<ProcessInfo>) -> Seq<InfoView> {
    infos.map_values(|info: ProcessInfo| info@)
}

proof fn lemma_slot_exists(sorted: Seq<InfoView>, created_at: i64, upto: int)
    requires
        0 <= upto <= sorted.len(),
        forall|j: int| 0 <= j < upto ==> (#[trigger] sorted[j]).created_at >= created_at,
    ensures
        exists|at: int| is_slot(sorted, created_at, at),
    decreases sorted.len() - upto,
{
    if upto == sorted.len() || sorted[upto].created_at < created_at {
        assert(is_slot(sorted, created_at, upto));
    } else {
        lemma_slot_exists(sorted, created_at, upto + 1);
    }
}

/// There is one place where a snapshot goes, and [`slot`] names it.
pub proof fn lemma_slot(sorted: Seq<InfoView>, created_at: i64, at: int)
    requires
        is_slot(sorted, created_at, at),
    ensures
        slot(sorted, created_at) == at,
{
    let chosen = slot(sorted, created_at);
    assert(is_slot(sorted, created_at, chosen));
    if chosen < at {
        assert(sorted[chosen].created_at >= created_at);
    }
    if at < chosen {
        assert(sorted[at].created_at >= created_at);
    }
}

/// The list that [`newest_first`] gives holds the snapshots it was given,
/// each as often as it was given, and none of them before a newer one.
pub proof fn law_newest_first_is_sorted(infos: Seq<InfoView>)
    ensures
        newest_first(infos).len() == infos.len(),
        newest_first(infos).to_multiset() == infos.to_multiset(),
        descending(newest_first(infos)),
    decreases infos.len(),
{
    broadcast use group_to_multiset_ensures;

    if infos.len() == 0 {
    } else {
        let rest = infos.drop_last();
        let last = infos.last();
        law_newest_first_is_sorted(rest);
        let sorted = newest_first(rest);
        lemma_slot_exists(sorted, last.created_at, 0);
        let at = slot(sorted, last.created_at);
        assert(is_slot(sorted, last.created_at, at));
        let grown = sorted.insert(at, last);
        sorted.insert_ensures(at, last);
        assert(grown.remove(at) =~= sorted);
        assert(grown[at] == last);
        assert(grown.to_multiset().remove(last) == sorted.to_multiset());
        assert(grown.to_multiset() =~= sorted.to_multiset().insert(last));
        assert(infos =~= rest.push(last));
        assert(infos.to_multiset() =~= rest.to_multiset().insert(last));
        assert forall|i: int, j: int| 0 <= i < j < grown.len() implies (
        #[trigger] grown[i]).created_at >= (#[trigger] grown[j]).created_at by {
            if j < at {
                assert(grown[i] == sorted[i] && grown[j] == sorted[j]);
            } else if j == at {
                assert(grown[i] == sorted[i]);
            } else if i < at {
                assert(grown[i] == sorted[i] && grown[j] == sorted[j - 1]);
                if at < j - 1 {
                    assert(sorted[at].created_at >= sorted[j - 1].created_at);
                }
            } else if i == at {
                assert(grown[j] == sorted[j - 1]);
                if at < j - 1 {
                    assert(sorted[at].created_at >= sorted[j - 1].created_at);
                }
            } else {
                assert(grown[i] == sorted[i - 1] && grown[j] == sorted[j - 1]);
            }
        }
    }
}

/// The snapshot of the configuration at a place of the registry.
fn snapshot_at(state: &ProcessManagerState, at: usize) -> (info: ProcessInfo)
    requires
        state.wf(),
        at < state@.configs.len(),
    ensures
        info@ == snapshots(state@)[at as int],
{
    let id = state.config_id_at(at);
    let config = state.config_at(at);
    let live: Option<(u32, i64)> = match state.running(id.as_str()) {
        Some(run) => Some((run.pid, run.started_at)),
        None => None,
    };
    let has_lines = match state.output(id.as_str()) {
        Some(buffer) => !buffer.is_empty(),
        None => false,
    };
    snapshot(config, live, has_lines)
}

/// Puts a snapshot into a list that is ordered newest first, where
/// [`slot`] says.
fn insert_by_age(sorted: &mut Vec<ProcessInfo>, info: ProcessInfo)
    ensures
        info_views(final(sorted)@) == info_views(old(sorted)@).insert(
            slot(info_views(old(sorted)@), info.created_at),
            info@,
        ),
{
    let mut at: usize = 0;
    while at < sorted.len() && sorted[at].created_at >= info.created_at
        invariant
            at <= sorted.len(),
            forall|j: int| 0 <= j < at ==> (#[trigger] info_views(sorted@)[j]).created_at >= info.created_at,
        decreases sorted.len() - at,
    {
        at = at + 1;
    }
    proof {
        assert(is_slot(info_views(sorted@), info.created_at, at as int));
        lemma_slot(info_views(sorted@), info.created_at, at as int);
    }
    sorted.insert(at, info);
    assert(info_views(sorted@) =~= info_views(old(sorted)@).insert(at as int, info@));
}

/// Forgets the processes that were seen to have exited, then gives the
/// snapshots of all registered processes, newest first.
pub fn list_processes(state: &mut ProcessManagerState, exited: &Vec<String>) -> (infos: Vec<
    ProcessInfo,
>)
    requires
        old(state).wf(),
    ensures
        final(state).wf(),
        final(state)@ == reaped(old(state)@, exited.deep_view()),
        info_views(infos@) == newest_first(snapshots(final(state)@)),
{
    let mut gone: usize = 0;
    assert(exited.deep_view().skip(0) =~= exited.deep_view());
    while gone < exited.len()
        invariant
            gone <= exited.len(),
            state.wf(),
            reaped(state@, exited.deep_view().skip(gone as int)) == reaped(
                old(state)@,
                exited.deep_view(),
            ),
        decreases exited.len() - gone,
    {
        proof {
            let left = exited.deep_view().skip(gone as int);
            assert(left[0] == exited[gone as int]@);
            assert(left.drop_first() =~= exited.deep_view().skip(gone + 1));
        }
        let _ = state.take_running(exited[gone].as_str());
        gone = gone + 1;
    }
    let mut infos: Vec<ProcessInfo> = Vec::new();
    let mut at: usize = 0;
    let count: usize = state.config_count();
    assert(info_views(infos@) =~= newest_first(snapshots(state@).take(0)));
    while at < count
        invariant
            at <= count,
            count == state@.configs.len(),
            state.wf(),
            info_views(infos@) == newest_first(snapshots(state@).take(at as int)),
        decreases count - at,
    {
        let info = snapshot_at(state, at);
        proof {
            let seen = snapshots(state@).take(at + 1);
            assert(seen.drop_last() =~= snapshots(state@).take(at as int));
            assert(seen.last() == info@);
        }
        insert_by_age(&mut infos, info);
        at = at + 1;
    }
    assert(snapshots(state@).take(count as int) =~= snapshots(state@));
    infos
}

/// The snapshot of one process.
pub fn get_process(state: &ProcessManagerState, id: &str) -> (found: Result<
    ProcessInfo,
    ProcessError,
>)
    requires
        state.wf(),
    ensures
        match found {
            Ok(info) => lookup(state@.configs, id@) matches Some(config) && info@ == info_of(
                state@,
                id@,
                config,
            ),
            Err(error) => error == ProcessError::ProcessNotFound && lookup(state@.configs, id@)
                is None,
        },
{
    match state.config(id) {
        Some(config) => {
            let live: Option<(u32, i64)> = match state.running(id) {
                Some(run) => Some((run.pid, run.started_at)),
                None => None,
            };
            let has_lines = match state.output(id) {
                Some(buffer) => !buffer.is_empty(),
                None => false,
            };
            Ok(snapshot(config, live, has_lines))
        },
        None => Err(ProcessError::ProcessNotFound),
    }
}

/// The lines that the buffer of a process holds, oldest first: time, stream
/// kind and text of each.
pub fn get_process_output(state: &ProcessManagerState, id: &str) -> (found: Result<
    Vec<(i64, String, String)>,
    ProcessError,
>)
    requires
        state.wf(),
    ensures
        match found {
            Ok(lines) => lookup(state@.outputs, id@) == Some(entries_of(lines@)),
            Err(error) => error == ProcessError::ProcessNotFound && lookup(state@.outputs, id@)
                is None,
        },
{
    match state.output(id) {
        Some(buffer) => {
            let held = buffer.lines();
            let mut lines: Vec<(i64, String, String)> = Vec::new();
            let mut at: usize = 0;
            while at < held.len()
                invariant
                    at <= held.len(),
                    lines.len() == at,
                    forall|i: int| 0 <= i < at ==> #[trigger] lines[i] == held[i],
                decreases held.len() - at,
            {
                lines.push((held[at].0, held[at].1.clone(), held[at].2.clone()));
                at = at + 1;
            }
            assert(lines@ =~= held@);
            Ok(lines)
        },
        None => Err(ProcessError::ProcessNotFound),
    }
}

/// Empties the buffer of a process. The process, where it is alive, goes on.
pub fn clear_process_output(state: &mut ProcessManagerState, id: &str) -> (cleared: Result<
    (),
    ProcessError,
>)
    requires
        old(state).wf(),
    ensures
        final(state).wf(),
        final(state)@ == output_cleared(old(state)@, id@),
        match cleared {
            Ok(_) => lookup(old(state)@.outputs, id@) is Some,
            Err(error) => error == ProcessError::ProcessNotFound && lookup(
                old(state)@.outputs,
                id@,
            ) is None,
        },
{
    if state.clear_output(id) {
        Ok(())
    } else {
        Err(ProcessError::ProcessNotFound)
    }
}

} // verus!

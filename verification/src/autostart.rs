//! Bringing up, one after the other, the processes that follow the
//! application.

use vstd::prelude::*;
use vstd::string::*;

use crate::lifecycle::{start_refusal, start_requested};
use crate::state::ProcessManagerState;
use crate::table::lookup;
use crate::types::{ConfigView, ProcessConfig, ProcessError};

verus! {

/// The identifiers of the configurations that are flagged to start with the
/// application, in the order of the registry.
pub open spec fn flagged(configs: Seq<(Seq<char>, ConfigView)>) -> Seq<Seq<char>>
    decreases configs.len(),
{
    if configs.len() == 0 {
        Seq::empty()
    } else if configs.last().1.auto_start {
        flagged(configs.drop_last()).push(configs.last().0)
    } else {
        flagged(configs.drop_last())
    }
}

/// Collects the identifiers that [`flagged`] names.
pub fn auto_start_ids(state: &ProcessManagerState) -> (ids: Vec<String>)
    ensures
        ids.deep_view() == flagged(state@.configs),
{
    let mut ids: Vec<String> = Vec::new();
    let count: usize = state.config_count();
    let mut at: usize = 0;
    assert(state@.configs.take(0) =~= Seq::empty());
    assert(ids.deep_view() =~= flagged(state@.configs.take(0)));
    while at < count
        invariant
            at <= count,
            count == state@.configs.len(),
            ids.deep_view() == flagged(state@.configs.take(at as int)),
        decreases count - at,
    {
        let ghost seen = state@.configs.take(at + 1);
        assert(seen.drop_last() =~= state@.configs.take(at as int));
        assert(seen.last() == state@.configs[at as int]);
        if state.config_at(at).auto_start {
            let ghost before = ids.deep_view();
            ids.push(state.config_id_at(at).clone());
            assert(ids.deep_view() =~= before.push(state@.configs[at as int].0));
        }
        at = at + 1;
    }
    assert(state@.configs.take(count as int) =~= state@.configs);
    ids
}

/// The first half of a start that belongs to the bringing up: a process
/// that is alive is left alone (`None`), an identifier without a
/// configuration is refused, and otherwise the output of the earlier run is
/// cleared and the configuration to launch handed out.
pub fn start_if_stopped(state: &mut ProcessManagerState, id: &str) -> (plan: Result<
    Option<ProcessConfig>,
    ProcessError,
>)
    requires
        old(state).wf(),
    ensures
        final(state).wf(),
        final(state)@ == start_requested(old(state)@, id@),
        match plan {
            Ok(Some(config)) => start_refusal(old(state)@, id@) is None && lookup(
                old(state)@.configs,
                id@,
            ) == Some(config@),
            Ok(None) => lookup(old(state)@.processes, id@) is Some,
            Err(error) => error == ProcessError::ConfigNotFound && start_refusal(
                old(state)@,
                id@,
            ) == Some(error),
        },
{
    if state.running(id).is_some() {
        return Ok(None);
    }
    let config = match state.config(id) {
        Some(held) => held.duplicate(),
        None => {
            return Err(ProcessError::ConfigNotFound);
        },
    };
    let _ = state.clear_output(id);
    Ok(Some(config))
}

/// What was seen of a launched process when the readiness delay was over.
#[derive(Clone, Copy, Debug, PartialEq, Eq, Structural)]
pub enum ProbeOutcome {
    /// The process is alive.
    StillRunning,
    /// The process has ended.
    Exited,
    /// The system could not say.
    Unknown,
}

/// Whether a launched process counts as started: one that is alive does; one
/// that has ended, or of which nothing can be said, does not.
pub fn readiness(outcome: ProbeOutcome) -> (verdict: Result<(), ProcessError>)
    ensures
        match outcome {
            ProbeOutcome::StillRunning => verdict is Ok,
            ProbeOutcome::Exited => verdict == Err::<(), ProcessError>(
                ProcessError::ExitedImmediately,
            ),
            ProbeOutcome::Unknown => verdict == Err::<(), ProcessError>(
                ProcessError::StatusCheckFailed,
            ),
        },
{
    match outcome {
        ProbeOutcome::StillRunning => Ok(()),
        ProbeOutcome::Exited => Err(ProcessError::ExitedImmediately),
        ProbeOutcome::Unknown => Err(ProcessError::StatusCheckFailed),
    }
}

/// Of `ids`, those whose attempt succeeded, in order. `outcomes` holds one
/// flag for each attempt made so far.
pub open spec fn started_among(ids: Seq<Seq<char>>, outcomes: Seq<bool>) -> Seq<Seq<char>>
    decreases outcomes.len(),
{
    if outcomes.len() == 0 || outcomes.len() > ids.len() {
        Seq::empty()
    } else if outcomes.last() {
        started_among(ids, outcomes.drop_last()).push(ids[outcomes.len() - 1])
    } else {
        started_among(ids, outcomes.drop_last())
    }
}

/// A walk over the identifiers to bring up: each is attempted once, in
/// order, whatever became of those before it.
pub struct AutoStartSequence {
    ids: Vec<String>,
    outcomes: Vec<bool>,
    started: Vec<String>,
}

impl AutoStartSequence {
    /// The identifiers to attempt.
    pub closed spec fn ids(&self) -> Seq<Seq<char>> {
        self.ids.deep_view()
    }

    /// What became of the attempts made so far, one flag each.
    pub closed spec fn outcomes(&self) -> Seq<bool> {
        self.outcomes@
    }

    /// No more attempts were recorded than there are identifiers, and the
    /// identifiers that started are those whose attempt succeeded.
    pub closed spec fn wf(&self) -> bool {
        &&& self.outcomes@.len() <= self.ids@.len()
        &&& self.started.deep_view() == started_among(self.ids.deep_view(), self.outcomes@)
    }

    /// A walk that has attempted nothing yet.
    pub fn new(ids: Vec<String>) -> (sequence: Self)
        ensures
            sequence.wf(),
            sequence.ids() == ids.deep_view(),
            sequence.outcomes() == Seq::<bool>::empty(),
    {
        let sequence = AutoStartSequence { ids, outcomes: Vec::new(), started: Vec::new() };
        assert(sequence.started.deep_view() =~= Seq::<Seq<char>>::empty());
        sequence
    }

    /// The identifier to attempt next, or `None` when all were attempted.
    pub fn next_id(&self) -> (next: Option<&String>)
        requires
            self.wf(),
        ensures
            match next {
                Some(id) => self.outcomes().len() < self.ids().len() && id@ == self.ids()[self.outcomes().len() as int],
                None => self.outcomes().len() == self.ids().len(),
            },
    {
        if self.outcomes.len() < self.ids.len() {
            Some(&self.ids[self.outcomes.len()])
        } else {
            None
        }
    }

    /// Records what became of the attempt on the identifier that
    /// [`Self::next_id`] gave. The walk goes on either way.
    pub fn record(&mut self, succeeded: bool)
        requires
            old(self).wf(),
            old(self).outcomes().len() < old(self).ids().len(),
        ensures
            final(self).wf(),
            final(self).ids() == old(self).ids(),
            final(self).outcomes() == old(self).outcomes().push(succeeded),
    {
        let at: usize = self.outcomes.len();
        let ghost before = self.started.deep_view();
        if succeeded {
            self.started.push(self.ids[at].clone());
            assert(self.started.deep_view() =~= before.push(self.ids[at as int]@));
        }
        self.outcomes.push(succeeded);
        assert(self.outcomes@.drop_last() =~= old(self).outcomes@);
    }

    /// The identifiers that started, in the order in which they were
    /// attempted.
    pub fn started(&self) -> (started: &Vec<String>)
        requires
            self.wf(),
        ensures
            started.deep_view() == started_among(self.ids(), self.outcomes()),
    {
        &self.started
    }
}

/// Every outcome that was recorded belongs to the identifier at its place:
/// an attempt that fails keeps no later identifier from being attempted, and
/// exactly those that succeeded are reported as started.
pub proof fn law_every_id_is_attempted(ids: Seq<Seq<char>>, outcomes: Seq<bool>)
    requires
        outcomes.len() <= ids.len(),
    ensures
        forall|id: Seq<char>|
            #[trigger] started_among(ids, outcomes).contains(id) <==> exists|at: int|
                0 <= at < outcomes.len() && outcomes[at] && ids[at] == id,
        started_among(ids, outcomes).len() <= outcomes.len(),
    decreases outcomes.len(),
{
    if outcomes.len() == 0 {
    } else {
        let earlier = outcomes.drop_last();
        law_every_id_is_attempted(ids, earlier);
        let before = started_among(ids, earlier);
        let last = outcomes.len() - 1;
        assert forall|id: Seq<char>| #[trigger]
            started_among(ids, outcomes).contains(id) <==> exists|at: int|
                0 <= at < outcomes.len() && outcomes[at] && ids[at] == id by {
            let now = started_among(ids, outcomes);
            if now.contains(id) {
                let place = choose|place: int| 0 <= place < now.len() && now[place] == id;
                if outcomes.last() && place == now.len() - 1 {
                    assert(outcomes[last] && ids[last] == id);
                } else {
                    assert(before[place] == id);
                    assert(before.contains(id));
                    let at = choose|at: int| 0 <= at < earlier.len() && earlier[at] && ids[at] == id;
                    assert(outcomes[at] && ids[at] == id);
                }
            }
            if exists|at: int| 0 <= at < outcomes.len() && outcomes[at] && ids[at] == id {
                let at = choose|at: int| 0 <= at < outcomes.len() && outcomes[at] && ids[at] == id;
                if at == last {
                    assert(now[now.len() - 1] == id);
                } else {
                    assert(earlier[at] && ids[at] == id);
                    assert(before.contains(id));
                    let place = choose|place: int| 0 <= place < before.len() && before[place] == id;
                    assert(now[place] == id);
                }
            }
        }
    }
}

} // verus!

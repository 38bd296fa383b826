//! The state that the supervisor keeps: what is registered, what is alive
//! and what each process has printed.

use vstd::prelude::*;
use vstd::string::*;

use crate::output::{stored_entry, retained, OutputEntry, ProcessOutput};
use crate::table::{
    distinct_keys, entry_view, inserted, lemma_lookup_inserted, lemma_lookup_removed,
    lemma_position, lookup, removed, Table,
};
use crate::types::{ConfigView, ProcessConfig, RunningProcess, RunningView};

verus! {

/// The state as the contracts see it: three tables keyed by identifier.
pub struct StateView {
    /// The registered configurations, in the order in which they came.
    pub configs: Seq<(Seq<char>, ConfigView)>,
    /// The processes that are alive.
    pub processes: Seq<(Seq<char>, RunningView)>,
    /// What each process has printed.
    pub outputs: Seq<(Seq<char>, Seq<OutputEntry>)>,
}

/// Every configuration stands under its own identifier.
pub open spec fn keyed_by_id(configs: Seq<(Seq<char>, ConfigView)>) -> bool {
    forall|i: int| 0 <= i < configs.len() ==> (#[trigger] configs[i]).0 == configs[i].1.id
}

/// Every registered identifier has an output buffer.
pub open spec fn covered(
    configs: Seq<(Seq<char>, ConfigView)>,
    outputs: Seq<(Seq<char>, Seq<OutputEntry>)>,
) -> bool {
    forall|id: Seq<char>| #[trigger] lookup(configs, id) is Some ==> lookup(outputs, id) is Some
}

/// What holds of every state: no identifier stands twice in a table, every
/// configuration stands under its own identifier and has a buffer.
pub open spec fn well_formed(state: StateView) -> bool {
    &&& distinct_keys(state.configs)
    &&& distinct_keys(state.processes)
    &&& distinct_keys(state.outputs)
    &&& keyed_by_id(state.configs)
    &&& covered(state.configs, state.outputs)
}

/// The state with nothing in it.
pub open spec fn empty_state() -> StateView {
    StateView { configs: Seq::empty(), processes: Seq::empty(), outputs: Seq::empty() }
}

/// The state after a configuration was registered: it stands under its
/// identifier, beside a fresh empty buffer.
pub open spec fn registered(state: StateView, config: ConfigView) -> StateView {
    StateView {
        configs: inserted(state.configs, config.id, config),
        processes: state.processes,
        outputs: inserted(state.outputs, config.id, Seq::<OutputEntry>::empty()),
    }
}

/// The state after the configuration of a registered process was replaced.
pub open spec fn reconfigured(state: StateView, config: ConfigView) -> StateView {
    StateView {
        configs: inserted(state.configs, config.id, config),
        processes: state.processes,
        outputs: state.outputs,
    }
}

/// The state after a process was removed: its live entry is gone, and where
/// it was registered, so are its configuration and its buffer.
pub open spec fn unregistered(state: StateView, id: Seq<char>) -> StateView {
    if lookup(state.configs, id) is Some {
        StateView {
            configs: removed(state.configs, id),
            processes: removed(state.processes, id),
            outputs: removed(state.outputs, id),
        }
    } else {
        StateView {
            configs: state.configs,
            processes: removed(state.processes, id),
            outputs: state.outputs,
        }
    }
}

/// The state after the buffer of a process was emptied, where it has one.
pub open spec fn output_cleared(state: StateView, id: Seq<char>) -> StateView {
    if lookup(state.outputs, id) is Some {
        StateView {
            configs: state.configs,
            processes: state.processes,
            outputs: inserted(state.outputs, id, Seq::<OutputEntry>::empty()),
        }
    } else {
        state
    }
}

/// The state after a line was appended to the buffer of a process, where it
/// has one.
pub open spec fn output_appended(
    state: StateView,
    id: Seq<char>,
    timestamp: i64,
    output_type: Seq<char>,
    line: Seq<char>,
) -> StateView {
    match lookup(state.outputs, id) {
        Some(held) => StateView {
            configs: state.configs,
            processes: state.processes,
            outputs: inserted(
                state.outputs,
                id,
                retained(held.push(stored_entry(timestamp, output_type, line))),
            ),
        },
        None => state,
    }
}

/// The state after a process was entered as alive.
pub open spec fn running_registered(state: StateView, id: Seq<char>, run: RunningView)
    -> StateView {
    StateView {
        configs: state.configs,
        processes: inserted(state.processes, id, run),
        outputs: state.outputs,
    }
}

/// The state after a process was taken out of those that are alive.
pub open spec fn running_removed(state: StateView, id: Seq<char>) -> StateView {
    StateView {
        configs: state.configs,
        processes: removed(state.processes, id),
        outputs: state.outputs,
    }
}

/// The state after every process was taken out of those that are alive.
pub open spec fn all_stopped(state: StateView) -> StateView {
    StateView { configs: state.configs, processes: Seq::empty(), outputs: state.outputs }
}

/// The state of the supervisor.
pub struct ProcessManagerState {
    configs: Table<ProcessConfig>,
    processes: Table<RunningProcess>,
    outputs: Table<ProcessOutput>,
}

impl View for ProcessManagerState {
    type V = StateView;

    closed spec fn view(&self) -> StateView {
        StateView {
            configs: self.configs@,
            processes: self.processes@,
            outputs: self.outputs@,
        }
    }
}

impl Default for ProcessManagerState {
    /// A state with nothing registered.
    fn default() -> (state: Self)
        ensures
            state.wf(),
            state@ == empty_state(),
    {
        ProcessManagerState::new()
    }
}

impl ProcessManagerState {
    /// Every buffer is within its caps.
    pub closed spec fn buffers_wf(&self) -> bool {
        forall|i: int|
            0 <= i < self.outputs.items().len() ==> (#[trigger] self.outputs.items()[i]).1.wf()
    }

    /// The state is one that the operations of this library lead to.
    pub open spec fn wf(&self) -> bool {
        well_formed(self@) && self.buffers_wf()
    }

    /// A state with nothing registered.
    pub fn new() -> (state: Self)
        ensures
            state.wf(),
            state@ == empty_state(),
    {
        let state = ProcessManagerState {
            configs: Table::new(),
            processes: Table::new(),
            outputs: Table::new(),
        };
        proof {
            assert forall|id: Seq<char>| #[trigger] lookup(state@.configs, id) is Some implies lookup(
                state@.outputs,
                id,
            ) is Some by {
                lemma_position(state@.configs, id);
            }
        }
        state
    }

    /// The configuration registered under an identifier.
    pub fn config(&self, id: &str) -> (found: Option<&ProcessConfig>)
        ensures
            match found {
                Some(config) => lookup(self@.configs, id@) == Some(config@),
                None => lookup(self@.configs, id@) is None,
            },
    {
        self.configs.get(id)
    }

    /// The live entry of a process.
    pub fn running(&self, id: &str) -> (found: Option<&RunningProcess>)
        ensures
            match found {
                Some(run) => lookup(self@.processes, id@) == Some(run@),
                None => lookup(self@.processes, id@) is None,
            },
    {
        self.processes.get(id)
    }

    /// The buffer of a process.
    pub fn output(&self, id: &str) -> (found: Option<&ProcessOutput>)
        requires
            self.wf(),
        ensures
            match found {
                Some(buffer) => lookup(self@.outputs, id@) == Some(buffer@) && buffer.wf(),
                None => lookup(self@.outputs, id@) is None,
            },
    {
        self.outputs.get(id)
    }

    /// Registers a configuration under its identifier, with a fresh buffer.
    pub fn register_config(&mut self, config: ProcessConfig)
        requires
            old(self).wf(),
        ensures
            final(self).wf(),
            final(self)@ == registered(old(self)@, config@),
    {
        let id = config.id.clone();
        let id_again = config.id.clone();
        proof {
            lemma_lookup_inserted(self@.configs, config.id@, config@);
            lemma_lookup_inserted(self@.outputs, config.id@, Seq::<OutputEntry>::empty());
            lemma_position(self@.outputs, config.id@);
            lemma_position(self@.configs, config.id@);
        }
        self.configs.insert(id, config);
        self.outputs.insert(id_again, ProcessOutput::new());
    }

    /// Replaces the configuration of a registered process. A configuration
    /// whose identifier is not registered changes nothing. Says whether it
    /// was registered.
    pub fn replace_config(&mut self, config: ProcessConfig) -> (replaced: bool)
        requires
            old(self).wf(),
        ensures
            final(self).wf(),
            replaced == (lookup(old(self)@.configs, config.id@) is Some),
            final(self)@ == if replaced {
                reconfigured(old(self)@, config@)
            } else {
                old(self)@
            },
    {
        if !self.configs.contains_key(config.id.as_str()) {
            return false;
        }
        let id = config.id.clone();
        proof {
            lemma_lookup_inserted(self@.configs, config.id@, config@);
            lemma_position(self@.configs, config.id@);
        }
        self.configs.insert(id, config);
        true
    }

    /// Takes a process out of every table. Returns its configuration, where
    /// it was registered.
    pub fn unregister(&mut self, id: &str) -> (config: Option<ProcessConfig>)
        requires
            old(self).wf(),
        ensures
            final(self).wf(),
            final(self)@ == unregistered(old(self)@, id@),
            match config {
                Some(held) => lookup(old(self)@.configs, id@) == Some(held@),
                None => lookup(old(self)@.configs, id@) is None,
            },
    {
        proof {
            lemma_lookup_removed(self@.configs, id@);
            lemma_lookup_removed(self@.outputs, id@);
            lemma_lookup_removed(self@.processes, id@);
            lemma_position(self@.outputs, id@);
            lemma_position(self@.configs, id@);
        }
        let _ = self.processes.remove(id);
        let config = self.configs.remove(id);
        if config.is_some() {
            let _ = self.outputs.remove(id);
        }
        config
    }

    /// Enters a process as alive.
    pub fn insert_running(&mut self, id: String, run: RunningProcess)
        requires
            old(self).wf(),
        ensures
            final(self).wf(),
            final(self)@ == running_registered(old(self)@, id@, run@),
    {
        proof {
            lemma_lookup_inserted(self@.processes, id@, run@);
        }
        self.processes.insert(id, run);
    }

    /// Takes a process out of those that are alive.
    pub fn take_running(&mut self, id: &str) -> (run: Option<RunningProcess>)
        requires
            old(self).wf(),
        ensures
            final(self).wf(),
            final(self)@ == running_removed(old(self)@, id@),
            match run {
                Some(held) => lookup(old(self)@.processes, id@) == Some(held@),
                None => lookup(old(self)@.processes, id@) is None,
            },
    {
        proof {
            lemma_lookup_removed(self@.processes, id@);
        }
        self.processes.remove(id)
    }

    /// Empties the buffer of a process. Says whether it has one.
    pub fn clear_output(&mut self, id: &str) -> (present: bool)
        requires
            old(self).wf(),
        ensures
            final(self).wf(),
            final(self)@ == output_cleared(old(self)@, id@),
            present == (lookup(old(self)@.outputs, id@) is Some),
    {
        proof {
            lemma_lookup_inserted(self@.outputs, id@, Seq::<OutputEntry>::empty());
            lemma_position(self@.outputs, id@);
        }
        match self.outputs.find(id) {
            Some(at) => {
                let buffer = self.outputs.value_mut(at);
                buffer.clear();
                assert(self.outputs@ =~= inserted(
                    old(self)@.outputs,
                    id@,
                    Seq::<OutputEntry>::empty(),
                ));
                true
            },
            None => false,
        }
    }

    /// Appends a captured line to the buffer of a process. Says whether it
    /// has one.
    pub fn append_output(&mut self, id: &str, timestamp: i64, output_type: String, line: String)
        -> (present: bool)
        requires
            old(self).wf(),
        ensures
            final(self).wf(),
            final(self)@ == output_appended(old(self)@, id@, timestamp, output_type@, line@),
            present == (lookup(old(self)@.outputs, id@) is Some),
    {
        proof {
            lemma_position(self@.outputs, id@);
        }
        match self.outputs.find(id) {
            Some(at) => {
                let ghost held = self@.outputs[at as int].1;
                let ghost kept = retained(held.push(stored_entry(timestamp, output_type@, line@)));
                proof {
                    lemma_lookup_inserted(self@.outputs, id@, kept);
                }
                let buffer = self.outputs.value_mut(at);
                buffer.push_line(timestamp, output_type, line);
                assert(self.outputs@ =~= inserted(old(self)@.outputs, id@, kept));
                true
            },
            None => false,
        }
    }

    /// The number of registered configurations.
    pub fn config_count(&self) -> (count: usize)
        ensures
            count == self@.configs.len(),
    {
        self.configs.len()
    }

    /// The configuration at a place of the registry.
    pub fn config_at(&self, at: usize) -> (config: &ProcessConfig)
        requires
            at < self@.configs.len(),
        ensures
            config@ == self@.configs[at as int].1,
    {
        self.configs.value_at(at)
    }

    /// The identifier at a place of the registry.
    pub fn config_id_at(&self, at: usize) -> (id: &String)
        requires
            at < self@.configs.len(),
        ensures
            id@ == self@.configs[at as int].0,
    {
        self.configs.key_at(at)
    }

    /// Takes every process out of those that are alive, each with its
    /// identifier.
    pub fn take_all_running(&mut self) -> (taken: Vec<(String, RunningProcess)>)
        requires
            old(self).wf(),
        ensures
            final(self).wf(),
            final(self)@ == all_stopped(old(self)@),
            taken@.map_values(|entry: (String, RunningProcess)| entry_view(entry)) == old(
                self,
            )@.processes,
    {
        self.processes.take_all()
    }
}

} // verus!

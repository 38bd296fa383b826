//! The row that the store keeps for each configuration.
//!
//! The store itself is reached by the application. Here a configuration is
//! turned into the plain row that is written, and a row that was read is
//! turned back. The list of arguments and the environment are kept as JSON
//! text, which `serde_json` writes and reads.

use vstd::prelude::*;
use vstd::string::*;

use crate::state::{registered, ProcessManagerState, StateView};
use crate::table::distinct_keys;
use crate::text::{copy_optional, str_eq};
use crate::types::{CommandType, ConfigView, ProcessConfig, ProcessMode};

verus! {

/// The error of `serde_json`.
#[verifier::external_type_specification]
#[verifier::external_body]
pub struct ExJsonError(serde_json::Error);

/// The JSON text that `serde_json::to_string` writes for a list of strings,
/// or `None` where it fails on the list.
pub uninterp spec fn json_of_strings(items: Seq<Seq<char>>) -> Option<Seq<char>>;

/// The list of strings that `serde_json::from_str` reads from a text, where
/// the text is the JSON of one.
pub uninterp spec fn strings_of_json(text: Seq<char>) -> Option<Seq<Seq<char>>>;

/// The JSON text that `serde_json::to_string` writes for a map from strings
/// to strings that holds these pairs, a later pair replacing an earlier one
/// of the same key, or `None` where it fails on the map.
pub uninterp spec fn json_of_pairs(pairs: Seq<(Seq<char>, Seq<char>)>) -> Option<Seq<char>>;

/// The pairs of the map from strings to strings that `serde_json::from_str`
/// reads from a text, in the order of their keys, where the text is the JSON
/// of one.
pub uninterp spec fn pairs_of_json(text: Seq<char>) -> Option<Seq<(Seq<char>, Seq<char>)>>;

/// The mapping that a list of pairs stands for: a later pair replaces an
/// earlier one of the same key.
pub open spec fn mapping_of(pairs: Seq<(Seq<char>, Seq<char>)>) -> Map<Seq<char>, Seq<char>>
    decreases pairs.len(),
{
    if pairs.len() == 0 {
        Map::empty()
    } else {
        mapping_of(pairs.drop_last()).insert(pairs.last().0, pairs.last().1)
    }
}

/// Calls `serde_json::to_string` on a list of strings. Whether the call
/// succeeds and what it writes depend on the list alone, so the contract
/// gives the outcome its name; the crate documents that writing fails only
/// where a `Serialize` impl fails or a map has keys that are no strings.
/// Where the call succeeds, the contract also claims that
/// `serde_json::from_str` reads the same list back from the text.
#[verifier::external_body]
fn encode_strings(items: &Vec<String>) -> (text: Result<String, serde_json::Error>)
    ensures
        match text {
            Ok(json) => json_of_strings(items.deep_view()) == Some(json@) && strings_of_json(json@)
                == Some(items.deep_view()),
            Err(_) => json_of_strings(items.deep_view()) is None,
        },
{
    serde_json::to_string(items)
}

/// Calls `serde_json::from_str` for a list of strings. The contract names
/// what was read, and claims that the call fails exactly where the text is
/// not the JSON of such a list.
#[verifier::external_body]
fn decode_strings(text: &str) -> (items: Result<Vec<String>, serde_json::Error>)
    ensures
        match items {
            Ok(read) => strings_of_json(text@) == Some(read.deep_view()),
            Err(_) => strings_of_json(text@) is None,
        },
{
    serde_json::from_str(text)
}

/// Calls `serde_json::to_string` on the pairs gathered into a map of `std`,
/// which keeps one value for each key, the last one given. Whether the call
/// succeeds and what it writes depend on the pairs alone, so the contract
/// gives the outcome its name. Where the call succeeds, the contract also
/// claims that `serde_json::from_str` reads the same mapping back from the
/// text.
#[verifier::external_body]
fn encode_pairs(pairs: &Vec<(String, String)>) -> (text: Result<String, serde_json::Error>)
    ensures
        match text {
            Ok(json) => json_of_pairs(pairs.deep_view()) == Some(json@) && (pairs_of_json(json@)
                matches Some(read) && mapping_of(read) == mapping_of(pairs.deep_view())),
            Err(_) => json_of_pairs(pairs.deep_view()) is None,
        },
{
    let map: std::collections::BTreeMap<&String, &String> = pairs.iter().map(
        |pair| (&pair.0, &pair.1),
    ).collect();
    serde_json::to_string(&map)
}

/// Calls `serde_json::from_str` for a map from strings to strings, and
/// hands out its pairs in the order of the map of `std` that they were read
/// into. The contract names what was read, claims that no key comes twice,
/// and that the call fails exactly where the text is not the JSON of such a
/// map.
#[verifier::external_body]
fn decode_pairs(text: &str) -> (pairs: Result<Vec<(String, String)>, serde_json::Error>)
    ensures
        match pairs {
            Ok(read) => pairs_of_json(text@) == Some(read.deep_view()) && distinct_keys(
                read.deep_view(),
            ),
            Err(_) => pairs_of_json(text@) is None,
        },
{
    serde_json::from_str::<std::collections::BTreeMap<String, String>>(text).map(
        |map| map.into_iter().collect(),
    )
}

/// Writes out what `serde_json` says of a failure, with the `Display` of
/// its error. Nothing is claimed of the text.
#[verifier::external_body]
fn error_text(error: &serde_json::Error) -> (text: String) {
    error.to_string()
}

/// The row of one configuration.
#[derive(Clone, Debug)]
pub struct ProcessRecord {
    pub id: String,
    pub name: String,
    /// `fork` or `import`.
    pub mode: String,
    /// `executable` or `shell`.
    pub command_type: String,
    pub command: String,
    /// The arguments as the JSON of a list.
    pub args: String,
    pub working_dir: String,
    pub source_path: Option<String>,
    /// The environment as the JSON of a map.
    pub env: String,
    /// Zero or one.
    pub auto_restart: i32,
    /// Zero or one.
    pub auto_start: i32,
    pub created_at: i64,
}

/// A [`ProcessRecord`] as the contracts see it.
pub struct RecordView {
    pub id: Seq<char>,
    pub name: Seq<char>,
    pub mode: Seq<char>,
    pub command_type: Seq<char>,
    pub command: Seq<char>,
    pub args: Seq<char>,
    pub working_dir: Seq<char>,
    pub source_path: Option<Seq<char>>,
    pub env: Seq<char>,
    pub auto_restart: i32,
    pub auto_start: i32,
    pub created_at: i64,
}

impl View for ProcessRecord {
    type V = RecordView;

    open spec fn view(&self) -> RecordView {
        RecordView {
            id: self.id@,
            name: self.name@,
            mode: self.mode@,
            command_type: self.command_type@,
            command: self.command@,
            args: self.args@,
            working_dir: self.working_dir@,
            source_path: self.source_path.deep_view(),
            env: self.env@,
            auto_restart: self.auto_restart,
            auto_start: self.auto_start,
            created_at: self.created_at,
        }
    }
}

impl ProcessRecord {
    /// A copy with the same contents.
    pub fn duplicate(&self) -> (copy: ProcessRecord)
        ensures
            copy@ == self@,
    {
        ProcessRecord {
            id: self.id.clone(),
            name: self.name.clone(),
            mode: self.mode.clone(),
            command_type: self.command_type.clone(),
            command: self.command.clone(),
            args: self.args.clone(),
            working_dir: self.working_dir.clone(),
            source_path: copy_optional(&self.source_path),
            env: self.env.clone(),
            auto_restart: self.auto_restart,
            auto_start: self.auto_start,
            created_at: self.created_at,
        }
    }
}

/// The word under which a mode is stored.
pub open spec fn mode_word(mode: ProcessMode) -> Seq<char> {
    match mode {
        ProcessMode::Fork => "fork"@,
        ProcessMode::Import => "import"@,
    }
}

/// The mode that a stored word stands for: `fork` for itself, anything else
/// for an import.
pub open spec fn mode_of_word(word: Seq<char>) -> ProcessMode {
    if word == "fork"@ {
        ProcessMode::Fork
    } else {
        ProcessMode::Import
    }
}

/// The word under which a way of launching is stored.
pub open spec fn command_type_word(command_type: CommandType) -> Seq<char> {
    match command_type {
        CommandType::Executable => "executable"@,
        CommandType::Shell => "shell"@,
    }
}

/// The way of launching that a stored word stands for: `shell` for itself,
/// anything else for running directly.
pub open spec fn command_type_of_word(word: Seq<char>) -> CommandType {
    if word == "shell"@ {
        CommandType::Shell
    } else {
        CommandType::Executable
    }
}

/// The number under which a flag is stored.
pub open spec fn flag_number(flag: bool) -> i32 {
    if flag {
        1
    } else {
        0
    }
}

/// The row of a configuration, given the JSON of its arguments and of its
/// environment.
pub open spec fn record_of(config: ConfigView, args_json: Seq<char>, env_json: Seq<char>)
    -> RecordView {
    RecordView {
        id: config.id,
        name: config.name,
        mode: mode_word(config.mode),
        command_type: command_type_word(config.command_type),
        command: config.command,
        args: args_json,
        working_dir: config.working_dir,
        source_path: config.source_path,
        env: env_json,
        auto_restart: flag_number(config.auto_restart),
        auto_start: flag_number(config.auto_start),
        created_at: config.created_at,
    }
}

/// What a text that is no JSON of the wanted kind is read as: nothing.
pub open spec fn read_or_empty<T>(read: Option<Seq<T>>) -> Seq<T> {
    match read {
        Some(items) => items,
        None => Seq::empty(),
    }
}

/// The configuration that a row stands for. Arguments or an environment
/// that cannot be read count as empty.
pub open spec fn config_of(record: RecordView) -> ConfigView {
    ConfigView {
        id: record.id,
        name: record.name,
        mode: mode_of_word(record.mode),
        command_type: command_type_of_word(record.command_type),
        command: record.command,
        args: read_or_empty(strings_of_json(record.args)),
        working_dir: record.working_dir,
        source_path: record.source_path,
        env: read_or_empty(pairs_of_json(record.env)),
        auto_restart: record.auto_restart != 0,
        auto_start: record.auto_start != 0,
        created_at: record.created_at,
    }
}

/// Two configurations that differ at most in how their environments are
/// written down: all else is the same, field for field, and the
/// environments are the same mapping.
pub open spec fn same_config(a: ConfigView, b: ConfigView) -> bool {
    &&& a.id == b.id
    &&& a.name == b.name
    &&& a.mode == b.mode
    &&& a.command_type == b.command_type
    &&& a.command == b.command
    &&& a.args == b.args
    &&& a.working_dir == b.working_dir
    &&& a.source_path == b.source_path
    &&& mapping_of(a.env) == mapping_of(b.env)
    &&& a.auto_restart == b.auto_restart
    &&& a.auto_start == b.auto_start
    &&& a.created_at == b.created_at
}

/// Computes [`mode_word`].
pub fn mode_name(mode: ProcessMode) -> (word: &'static str)
    ensures
        word@ == mode_word(mode),
{
    match mode {
        ProcessMode::Fork => "fork",
        ProcessMode::Import => "import",
    }
}

/// Computes [`mode_of_word`].
pub fn mode_named(word: &str) -> (mode: ProcessMode)
    ensures
        mode == mode_of_word(word@),
{
    if str_eq(word, "fork") {
        ProcessMode::Fork
    } else {
        ProcessMode::Import
    }
}

/// Computes [`command_type_word`].
pub fn command_type_name(command_type: CommandType) -> (word: &'static str)
    ensures
        word@ == command_type_word(command_type),
{
    match command_type {
        CommandType::Executable => "executable",
        CommandType::Shell => "shell",
    }
}

/// Computes [`command_type_of_word`].
pub fn command_type_named(word: &str) -> (command_type: CommandType)
    ensures
        command_type == command_type_of_word(word@),
{
    if str_eq(word, "shell") {
        CommandType::Shell
    } else {
        CommandType::Executable
    }
}

/// The stored words are told apart when they are read.
pub proof fn lemma_words_read_back(mode: ProcessMode, command_type: CommandType)
    ensures
        mode_of_word(mode_word(mode)) == mode,
        command_type_of_word(command_type_word(command_type)) == command_type,
{
    reveal_strlit("fork");
    reveal_strlit("import");
    reveal_strlit("executable");
    reveal_strlit("shell");
    assert("fork"@.len() != "import"@.len());
    assert("executable"@.len() != "shell"@.len());
}

/// Builds the row of a configuration from the JSON of its arguments and of
/// its environment.
pub fn record_with(config: &ProcessConfig, args_json: String, env_json: String) -> (record:
    ProcessRecord)
    ensures
        record@ == record_of(config@, args_json@, env_json@),
{
    ProcessRecord {
        id: config.id.clone(),
        name: config.name.clone(),
        mode: mode_name(config.mode).to_owned(),
        command_type: command_type_name(config.command_type).to_owned(),
        command: config.command.clone(),
        args: args_json,
        working_dir: config.working_dir.clone(),
        source_path: copy_optional(&config.source_path),
        env: env_json,
        auto_restart: if config.auto_restart {
            1
        } else {
            0
        },
        auto_start: if config.auto_start {
            1
        } else {
            0
        },
        created_at: config.created_at,
    }
}

/// Builds the configuration that a row stands for from what was read of its
/// arguments and of its environment.
pub fn config_with(record: ProcessRecord, args: Vec<String>, env: Vec<(String, String)>) -> (config:
    ProcessConfig)
    ensures
        config@ == (ConfigView {
            args: args.deep_view(),
            env: env.deep_view(),
            ..config_of(record@)
        }),
{
    ProcessConfig {
        mode: mode_named(record.mode.as_str()),
        command_type: command_type_named(record.command_type.as_str()),
        id: record.id,
        name: record.name,
        command: record.command,
        args,
        working_dir: record.working_dir,
        source_path: record.source_path,
        env,
        auto_restart: record.auto_restart != 0,
        auto_start: record.auto_start != 0,
        created_at: record.created_at,
    }
}

/// Whether a configuration can be written as a row: `serde_json` writes
/// both its arguments and its environment.
pub open spec fn can_be_saved(config: ConfigView) -> bool {
    json_of_strings(config.args) is Some && json_of_pairs(config.env) is Some
}

/// The row of a configuration that can be written.
pub open spec fn saved_record(config: ConfigView) -> RecordView {
    record_of(config, json_of_strings(config.args).unwrap(), json_of_pairs(config.env).unwrap())
}

/// The row to write for a configuration, where `serde_json` writes its
/// arguments and its environment, and otherwise what `serde_json` says of
/// the failure, of the arguments first. A row that is handed out reads back
/// as the configuration it was made from.
pub fn save_process_config(config: &ProcessConfig) -> (row: Result<ProcessRecord, String>)
    ensures
        row is Ok <==> can_be_saved(config@),
        row matches Ok(record) ==> record@ == saved_record(config@) && same_config(
            config_of(record@),
            config@,
        ),
{
    let args_json = match encode_strings(&config.args) {
        Ok(json) => json,
        Err(error) => {
            return Err(error_text(&error));
        },
    };
    let env_json = match encode_pairs(&config.env) {
        Ok(json) => json,
        Err(error) => {
            return Err(error_text(&error));
        },
    };
    proof {
        lemma_words_read_back(config.mode, config.command_type);
    }
    Ok(record_with(config, args_json, env_json))
}

/// The configuration that a row stands for.
pub fn load_process_config(record: ProcessRecord) -> (config: ProcessConfig)
    ensures
        config@ == config_of(record@),
{
    let args: Vec<String> = match decode_strings(record.args.as_str()) {
        Ok(read) => read,
        Err(_) => {
            let none: Vec<String> = Vec::new();
            assert(none.deep_view() =~= Seq::<Seq<char>>::empty());
            none
        },
    };
    let env: Vec<(String, String)> = match decode_pairs(record.env.as_str()) {
        Ok(read) => read,
        Err(_) => {
            let none: Vec<(String, String)> = Vec::new();
            assert(none.deep_view() =~= Seq::<(Seq<char>, Seq<char>)>::empty());
            none
        },
    };
    config_with(record, args, env)
}

/// The configurations that rows stand for, in the order of the rows.
pub fn load_all_process_configs(records: Vec<ProcessRecord>) -> (configs: Vec<ProcessConfig>)
    ensures
        configs.len() == records.len(),
        forall|i: int| 0 <= i < records.len() ==> (#[trigger] configs[i])@ == config_of(records[i]@),
{
    let mut configs: Vec<ProcessConfig> = Vec::new();
    let mut at: usize = 0;
    while at < records.len()
        invariant
            at <= records.len(),
            configs.len() == at,
            forall|i: int| 0 <= i < at ==> (#[trigger] configs[i])@ == config_of(records[i]@),
        decreases records.len() - at,
    {
        configs.push(load_process_config(records[at].duplicate()));
        at = at + 1;
    }
    configs
}

/// The state after each of the configurations was registered, in order.
pub open spec fn registered_all(state: StateView, configs: Seq<ConfigView>) -> StateView
    decreases configs.len(),
{
    if configs.len() == 0 {
        state
    } else {
        registered(registered_all(state, configs.drop_last()), configs.last())
    }
}

/// The configurations as the contracts see them.
pub open spec fn config_views(configs: Seq<ProcessConfig>) -> Seq<ConfigView> {
    configs.map_values(|config: ProcessConfig| config@)
}

/// Registers the configurations that were loaded from the store, each with
/// a fresh buffer.
pub fn init_process_manager_from_db(state: &mut ProcessManagerState, configs: Vec<ProcessConfig>)
    requires
        old(state).wf(),
    ensures
        final(state).wf(),
        final(state)@ == registered_all(old(state)@, config_views(configs@)),
{
    let mut at: usize = 0;
    assert(config_views(configs@).take(0) =~= Seq::<ConfigView>::empty());
    while at < configs.len()
        invariant
            at <= configs.len(),
            state.wf(),
            state@ == registered_all(old(state)@, config_views(configs@).take(at as int)),
        decreases configs.len() - at,
    {
        proof {
            let seen = config_views(configs@).take(at + 1);
            assert(seen.drop_last() =~= config_views(configs@).take(at as int));
            assert(seen.last() == configs[at as int]@);
        }
        state.register_config(configs[at].duplicate());
        at = at + 1;
    }
    assert(config_views(configs@).take(configs.len() as int) =~= config_views(configs@));
}

} // verus!

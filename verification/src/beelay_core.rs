//! The core: it keeps the last known state of every switch in a cache file and answers commands.
//! The loop that waits for commands, sleeps, and touches files is left to the caller; every
//! decision of that loop is made here.
use vstd::hash_map::StringHashMap;
use vstd::pervasive::unreached;
use vstd::prelude::*;

use crate::common::{
    common_error_text, state_name_is_exact, state_name_round_trip, state_named,
    status_name_is_exact, status_name_round_trip, status_named, str_to_switch_state,
    str_to_switch_status, switch_state_to_str, switch_status_to_str, unresolved_message,
    BeelayCommonError, SwitchState, SwitchStatus,
};
use crate::text::{
    ascii_lowercase, ascii_lowercase_is_idempotent, ascii_lowercase_text, chars_of, copy_texts,
    decimal, decimal_text, join, join_texts, join_undoes_split, lists_are_joined_piece_by_piece,
    same_text, split, split_has_a_field, split_text, split_undoes_join,
    text_without_separator_is_one_field, texts, texts_are_cut_at_a_separator,
};

verus! {

/// What kind of fault an error of the core is.
#[derive(Debug, PartialEq, Eq, Structural, Clone, Copy)]
pub enum BeelayCoreErrorType {
    InvalidSwitch,
    InternalError,
}

/// An error of the core.
#[derive(Debug)]
pub struct BeelayCoreError {
    message: String,
    error_type: BeelayCoreErrorType,
}

/// The message and the kind of an error of the core.
pub struct CoreErrorView {
    pub message: Seq<char>,
    pub error_type: BeelayCoreErrorType,
}

impl CoreErrorView {
    /// How the error is shown.
    pub open spec fn text(self) -> Seq<char> {
        "BeelayCoreError: "@ + self.message
    }
}

impl View for BeelayCoreError {
    type V = CoreErrorView;

    closed spec fn view(&self) -> CoreErrorView {
        CoreErrorView { message: self.message@, error_type: self.error_type }
    }
}

impl BeelayCoreError {
    /// An error with the given message and kind.
    pub fn new(message: &str, error_type: BeelayCoreErrorType) -> (r: BeelayCoreError)
        ensures
            r@ == (CoreErrorView { message: message@, error_type }),
    {
        BeelayCoreError { message: message.to_owned(), error_type }
    }

    /// The kind of the error.
    pub fn get_type(&self) -> (r: BeelayCoreErrorType)
        ensures
            r == self@.error_type,
    {
        self.error_type
    }

    /// The text in which the error is shown.
    pub fn to_string(&self) -> (r: String)
        ensures
            r@ == self@.text(),
    {
        "BeelayCoreError: ".to_owned().concat(self.message.as_str())
    }
}

/// What the core can be asked to do.
#[derive(Clone)]
pub enum Command {
    Ping,
    Get { switch_name: String },
    SetState { switch_name: String, state: SwitchState, delay: u16 },
    EnumerateSwitches,
    Stop,
    Reset,
}

/// A command with its strings as characters.
pub enum CommandView {
    Ping,
    Get { switch_name: Seq<char> },
    SetState { switch_name: Seq<char>, state: SwitchState, delay: u16 },
    EnumerateSwitches,
    Stop,
    Reset,
}

impl View for Command {
    type V = CommandView;

    open spec fn view(&self) -> CommandView {
        match self {
            Command::Ping => CommandView::Ping,
            Command::Get { switch_name } => CommandView::Get { switch_name: switch_name@ },
            Command::SetState { switch_name, state, delay } => CommandView::SetState {
                switch_name: switch_name@,
                state: *state,
                delay: *delay,
            },
            Command::EnumerateSwitches => CommandView::EnumerateSwitches,
            Command::Stop => CommandView::Stop,
            Command::Reset => CommandView::Reset,
        }
    }
}

impl CommandView {
    /// How the command is shown.
    pub open spec fn text(self) -> Seq<char> {
        match self {
            CommandView::Ping => "Command::Ping"@,
            CommandView::Get { switch_name } => {
                "Command::Get{ switch_name: "@ + switch_name + " }"@
            },
            CommandView::SetState { switch_name, state, delay } => {
                "Command::Set{ switch_name: "@ + switch_name + ", state: "@ + state.label()
                    + ", delay: "@ + decimal(delay as nat) + " }"@
            },
            CommandView::EnumerateSwitches => "Command::EnumerateSwitches"@,
            CommandView::Stop => "Command::Stop"@,
            CommandView::Reset => "Command::Reset"@,
        }
    }
}

impl Command {
    /// The text in which the command is shown.
    pub fn to_string(&self) -> (r: String)
        ensures
            r@ == self@.text(),
    {
        match self {
            Command::Ping => "Command::Ping".to_owned(),
            Command::Get { switch_name } => {
                "Command::Get{ switch_name: ".to_owned().concat(switch_name.as_str()).concat(" }")
            },
            Command::SetState { switch_name, state, delay } => {
                "Command::Set{ switch_name: ".to_owned().concat(switch_name.as_str()).concat(
                    ", state: ",
                ).concat(state.to_string().as_str()).concat(", delay: ").concat(
                    decimal_text(*delay).as_str(),
                ).concat(" }")
            },
            Command::EnumerateSwitches => "Command::EnumerateSwitches".to_owned(),
            Command::Stop => "Command::Stop".to_owned(),
            Command::Reset => "Command::Reset".to_owned(),
        }
    }
}

/// What the core answers.
#[derive(Clone)]
pub enum CommandResponse {
    Ack,
    SwitchState { name: String, state: Option<SwitchState>, status: SwitchStatus },
    SwitchEnumeration { switches: Vec<String> },
    Error { error: String },
}

/// A response with its strings as characters.
pub enum CommandResponseView {
    Ack,
    SwitchState { name: Seq<char>, state: Option<SwitchState>, status: SwitchStatus },
    SwitchEnumeration { switches: Seq<Seq<char>> },
    Error { error: Seq<char> },
}

impl View for CommandResponse {
    type V = CommandResponseView;

    open spec fn view(&self) -> CommandResponseView {
        match self {
            CommandResponse::Ack => CommandResponseView::Ack,
            CommandResponse::SwitchState { name, state, status } => {
                CommandResponseView::SwitchState { name: name@, state: *state, status: *status }
            },
            CommandResponse::SwitchEnumeration { switches } => {
                CommandResponseView::SwitchEnumeration { switches: texts(switches@) }
            },
            CommandResponse::Error { error } => CommandResponseView::Error { error: error@ },
        }
    }
}

/// How a state that may be unknown is shown.
pub open spec fn optional_state_label(state: Option<SwitchState>) -> Seq<char> {
    match state {
        Some(state) => state.label(),
        None => "None"@,
    }
}

impl CommandResponseView {
    /// How the response is shown.
    pub open spec fn text(self) -> Seq<char> {
        match self {
            CommandResponseView::Ack => "CommandResponse::Ack"@,
            CommandResponseView::SwitchState { name, state, status } => {
                "CommandResponse::SwitchState{ switch_name: "@ + name + ", state: "@
                    + optional_state_label(state) + ", status: "@ + status.label() + " }"@
            },
            CommandResponseView::SwitchEnumeration { switches } => {
                "CommandResponse::SwitchEnumeration{ switches: ["@ + join(switches, ", "@)
                    + "] }"@
            },
            CommandResponseView::Error { error } => {
                "CommandResponse::Error{ error: "@ + error + " }"@
            },
        }
    }
}

impl CommandResponse {
    /// Whether the response is a bare acknowledgement.
    pub fn is_ack(&self) -> (r: bool)
        ensures
            r == (self@ is Ack),
    {
        match self {
            CommandResponse::Ack => true,
            _ => false,
        }
    }

    /// The text in which the response is shown.
    pub fn to_string(&self) -> (r: String)
        ensures
            r@ == self@.text(),
    {
        match self {
            CommandResponse::Ack => "CommandResponse::Ack".to_owned(),
            CommandResponse::SwitchState { name, state, status } => {
                let state_text = match state {
                    Some(state) => state.to_string(),
                    None => "None".to_owned(),
                };
                "CommandResponse::SwitchState{ switch_name: ".to_owned().concat(
                    name.as_str(),
                ).concat(", state: ").concat(state_text.as_str()).concat(", status: ").concat(
                    status.to_string().as_str(),
                ).concat(" }")
            },
            CommandResponse::SwitchEnumeration { switches } => {
                "CommandResponse::SwitchEnumeration{ switches: [".to_owned().concat(
                    join_texts(switches, ", ").as_str(),
                ).concat("] }")
            },
            CommandResponse::Error { error } => {
                "CommandResponse::Error{ error: ".to_owned().concat(error.as_str()).concat(" }")
            },
        }
    }
}

/// What a cache file holds for a state and its status.
pub open spec fn cache_text(state: SwitchState, status: SwitchStatus) -> Seq<char> {
    state.text() + ","@ + status.text()
}

/// The fields of a cache file; capital letters count as small ones.
pub open spec fn cache_fields(contents: Seq<char>) -> Seq<Seq<char>> {
    split(ascii_lowercase(contents), ',')
}

/// Whether a cache file names a state and then breaks off before the status.
pub open spec fn cache_breaks_off(contents: Seq<char>) -> bool {
    cache_fields(contents).len() < 2 && state_named(cache_fields(contents)[0]) is Some
}

/// What a cache file says, or the message about the field that says nothing known. Fields after
/// the second are passed over.
pub open spec fn cache_reading(contents: Seq<char>) -> Result<
    (SwitchState, SwitchStatus),
    Seq<char>,
> {
    let fields = cache_fields(contents);
    match state_named(fields[0]) {
        None => Err(unresolved_message(fields[0])),
        Some(state) => match status_named(fields[1]) {
            None => Err(unresolved_message(fields[1])),
            Some(status) => Ok((state, status)),
        },
    }
}

/// Composes what a cache file holds.
pub fn cache_file_contents(state: SwitchState, status: SwitchStatus) -> (r: Result<
    String,
    BeelayCommonError,
>)
    ensures
        r is Ok,
        r->Ok_0@ == cache_text(state, status),
{
    let state_str = match switch_state_to_str(state) {
        Ok(text) => text,
        Err(err) => {
            return Err(err);
        },
    };
    let status_str = match switch_status_to_str(status) {
        Ok(text) => text,
        Err(err) => {
            return Err(err);
        },
    };
    Ok(state_str.concat(",").concat(status_str.as_str()))
}

/// Whether a cache file breaks off before the status.
pub fn cache_file_breaks_off(contents: &str) -> (r: bool)
    ensures
        r == cache_breaks_off(contents@),
{
    let fields = split_text(ascii_lowercase_text(contents).as_str(), ',');
    proof {
        split_has_a_field(ascii_lowercase(contents@), ',');
        assert(texts(fields@).len() == fields@.len());
        assert(texts(fields@)[0] == fields@[0]@);
    }
    fields.len() < 2 && match str_to_switch_state(fields[0].as_str()) {
        Ok(_) => true,
        Err(_) => false,
    }
}

/// Reads a cache file: `None` stands for a file that does not exist, which leaves the state
/// unknown.
pub fn read_cache_file(contents: Option<&str>) -> (r: Result<
    (Option<SwitchState>, SwitchStatus),
    BeelayCommonError,
>)
    requires
        contents matches Some(text) ==> !cache_breaks_off(text@),
    ensures
        match (contents, r) {
            (None, Ok(found)) => found == (None::<SwitchState>, SwitchStatus::Confirmed),
            (None, Err(_)) => false,
            (Some(text), Ok((state, status))) => {
                &&& state is Some
                &&& cache_reading(text@) == Ok::<(SwitchState, SwitchStatus), Seq<char>>(
                    (state.unwrap(), status),
                )
            },
            (Some(text), Err(err)) => {
                cache_reading(text@) == Err::<(SwitchState, SwitchStatus), Seq<char>>(err@)
            },
        },
{
    match contents {
        None => Ok((None, SwitchStatus::Confirmed)),
        Some(text) => {
            let fields = split_text(ascii_lowercase_text(text).as_str(), ',');
            proof {
                split_has_a_field(ascii_lowercase(text@), ',');
                assert(texts(fields@).len() == fields@.len());
                assert forall|i: int| 0 <= i < fields@.len() implies texts(fields@)[i]
                    == fields@[i]@ by {}
            }
            let state = match str_to_switch_state(fields[0].as_str()) {
                Ok(state) => state,
                Err(err) => {
                    return Err(err);
                },
            };
            match str_to_switch_status(fields[1].as_str()) {
                Ok(status) => Ok((Some(state), status)),
                Err(err) => Err(err),
            }
        },
    }
}

/// The cache file of a switch: the file of that name in the directory, or the name itself where
/// it is an absolute path.
pub open spec fn cache_path(dir: Seq<char>, name: Seq<char>) -> Seq<char> {
    if name.len() > 0 && name[0] == '/' {
        name
    } else if dir.len() == 0 || dir.last() == '/' {
        dir + name
    } else {
        dir + "/"@ + name
    }
}

/// Composes the path of a switch's cache file.
pub fn cache_file_path(dir: &str, name: &str) -> (r: String)
    ensures
        r@ == cache_path(dir@, name@),
{
    let name_chars = chars_of(name);
    if name_chars.len() > 0 && name_chars[0] == '/' {
        return name.to_owned();
    }
    let dir_chars = chars_of(dir);
    if dir_chars.len() == 0 || dir_chars[dir_chars.len() - 1] == '/' {
        dir.to_owned().concat(name)
    } else {
        dir.to_owned().concat("/").concat(name)
    }
}

/// The core's switches, their cache files, and whether it takes further commands.
pub struct BeelayCore {
    switch_names: Vec<String>,
    cache_files: StringHashMap<String>,
    running: bool,
}

/// The core with its strings as characters.
#[verifier::ext_equal]
pub struct CoreView {
    pub switch_names: Seq<Seq<char>>,
    pub cache_files: Map<Seq<char>, Seq<char>>,
    pub running: bool,
}

impl View for BeelayCore {
    type V = CoreView;

    closed spec fn view(&self) -> CoreView {
        CoreView {
            switch_names: texts(self.switch_names@),
            cache_files: self.cache_files@.map_values(|file: String| file@),
            running: self.running,
        }
    }
}

/// A core that has just been built.
pub open spec fn new_core(switch_names: Seq<Seq<char>>, dir: Seq<char>) -> CoreView {
    CoreView {
        switch_names,
        cache_files: Map::new(
            |name: Seq<char>| switch_names.contains(name),
            |name: Seq<char>| cache_path(dir, name),
        ),
        running: true,
    }
}

/// Builds the core for the given switches, with their cache files in the given directory.
pub fn build_core(switch_names: &Vec<String>, switch_cache_dir: &str) -> (r: BeelayCore)
    ensures
        r@ == new_core(texts(switch_names@), switch_cache_dir@),
        r@.well_formed(),
{
    let mut cache_files: StringHashMap<String> = StringHashMap::new();
    let mut i: usize = 0;
    while i < switch_names.len()
        invariant
            i <= switch_names@.len(),
            forall|name: Seq<char>|
                #[trigger] cache_files@.contains_key(name) <==> texts(switch_names@).take(
                    i as int,
                ).contains(name),
            forall|name: Seq<char>| #[trigger]
                cache_files@.contains_key(name) ==> cache_files@[name]@ == cache_path(
                    switch_cache_dir@,
                    name,
                ),
        decreases switch_names@.len() - i,
    {
        let ghost names = texts(switch_names@);
        let ghost before = cache_files@;
        let file = cache_file_path(switch_cache_dir, switch_names[i].as_str());
        cache_files.insert(switch_names[i].clone(), file);
        proof {
            let next = names.take(i + 1);
            let earlier = names.take(i as int);
            assert(names[i as int] == switch_names@[i as int]@);
            assert forall|name: Seq<char>|
                #[trigger] cache_files@.contains_key(name) <==> next.contains(name) by {
                if next.contains(name) {
                    let k = choose|k: int| 0 <= k < next.len() && next[k] == name;
                    if k < i {
                        assert(earlier[k] == name);
                    }
                }
                if earlier.contains(name) {
                    let k = choose|k: int| 0 <= k < earlier.len() && earlier[k] == name;
                    assert(next[k] == name);
                }
                if name == names[i as int] {
                    assert(next[i as int] == name);
                }
            }
        }
        i += 1;
    }
    assert(texts(switch_names@).take(i as int) =~= texts(switch_names@));
    let r = BeelayCore { switch_names: copy_texts(switch_names), cache_files, running: true };
    assert(r@ =~= new_core(texts(switch_names@), switch_cache_dir@));
    r
}

/// What the caller has to do about a command.
pub enum CoreAction {
    /// Send the response.
    Reply { resp: CommandResponse },
    /// Read the cache file and let [`answer_get`] compose the response.
    ReadCache { switch_name: String, cache_file: String },
    /// Send the response, and after `delay` seconds command the switch and then write the cache
    /// file.
    ScheduleSet {
        switch_name: String,
        state: SwitchState,
        delay: u16,
        cache_file: String,
        resp: CommandResponse,
    },
}

/// An action with its strings as characters.
pub enum CoreActionView {
    Reply { resp: CommandResponseView },
    ReadCache { switch_name: Seq<char>, cache_file: Seq<char> },
    ScheduleSet {
        switch_name: Seq<char>,
        state: SwitchState,
        delay: u16,
        cache_file: Seq<char>,
        resp: CommandResponseView,
    },
}

impl View for CoreAction {
    type V = CoreActionView;

    open spec fn view(&self) -> CoreActionView {
        match self {
            CoreAction::Reply { resp } => CoreActionView::Reply { resp: resp@ },
            CoreAction::ReadCache { switch_name, cache_file } => CoreActionView::ReadCache {
                switch_name: switch_name@,
                cache_file: cache_file@,
            },
            CoreAction::ScheduleSet { switch_name, state, delay, cache_file, resp } => {
                CoreActionView::ScheduleSet {
                    switch_name: switch_name@,
                    state: *state,
                    delay: *delay,
                    cache_file: cache_file@,
                    resp: resp@,
                }
            },
        }
    }
}

/// The error about a switch that the core does not know.
pub open spec fn no_cache_file(switch_name: Seq<char>) -> CoreErrorView {
    CoreErrorView {
        message: "Could not resolve cache file for switch name, "@ + switch_name,
        error_type: BeelayCoreErrorType::InternalError,
    }
}

/// The error about a switch that the core does not know.
fn no_cache_file_err(switch_name: &str) -> (r: BeelayCoreError)
    ensures
        r@ == no_cache_file(switch_name@),
{
    let message = "Could not resolve cache file for switch name, ".to_owned().concat(switch_name);
    BeelayCoreError::new(message.as_str(), BeelayCoreErrorType::InternalError)
}

/// What the core does about a command: the action, or the error that ends its run.
pub open spec fn core_action(core: CoreView, command: CommandView) -> Result<
    CoreActionView,
    CoreErrorView,
> {
    match command {
        CommandView::Ping | CommandView::Stop => Ok(
            CoreActionView::Reply { resp: CommandResponseView::Ack },
        ),
        CommandView::Reset => arbitrary(),
        CommandView::Get { switch_name } => if core.cache_files.contains_key(switch_name) {
            Ok(
                CoreActionView::ReadCache {
                    switch_name,
                    cache_file: core.cache_files[switch_name],
                },
            )
        } else {
            Ok(
                CoreActionView::Reply {
                    resp: CommandResponseView::Error { error: no_cache_file(switch_name).text() },
                },
            )
        },
        CommandView::SetState { switch_name, state, delay } => if core.cache_files.contains_key(
            switch_name,
        ) {
            Ok(
                CoreActionView::ScheduleSet {
                    switch_name,
                    state,
                    delay,
                    cache_file: core.cache_files[switch_name],
                    resp: CommandResponseView::SwitchState {
                        name: switch_name,
                        state: Some(state),
                        status: SwitchStatus::Transitioning,
                    },
                },
            )
        } else {
            Err(no_cache_file(switch_name))
        },
        CommandView::EnumerateSwitches => Ok(
            CoreActionView::Reply {
                resp: CommandResponseView::SwitchEnumeration { switches: core.switch_names },
            },
        ),
    }
}

/// The core after a command.
pub open spec fn core_after(core: CoreView, command: CommandView) -> CoreView {
    CoreView { running: core.running && !(command is Stop), ..core }
}

/// What is left of a file that was read: its contents, or `None` for a file that does not exist.
pub open spec fn optional_text(contents: Option<String>) -> Option<Seq<char>> {
    match contents {
        Some(text) => Some(text@),
        None => None,
    }
}

/// The response to a request for a switch's state, from what reading its cache file gave: the
/// file's contents, `None` for no file, or the text of an error.
pub open spec fn get_response(
    switch_name: Seq<char>,
    read: Result<Option<Seq<char>>, Seq<char>>,
) -> CommandResponseView {
    match read {
        Err(error) => CommandResponseView::Error { error },
        Ok(None) => CommandResponseView::SwitchState {
            name: switch_name,
            state: None,
            status: SwitchStatus::Confirmed,
        },
        Ok(Some(contents)) => match cache_reading(contents) {
            Ok((state, status)) => CommandResponseView::SwitchState {
                name: switch_name,
                state: Some(state),
                status,
            },
            Err(message) => CommandResponseView::Error { error: common_error_text(message) },
        },
    }
}

impl BeelayCore {
    /// Whether the core takes further commands.
    pub fn is_running(&self) -> (r: bool)
        ensures
            r == self@.running,
    {
        self.running
    }

    /// The cache file of a switch.
    pub fn get_cache_file(&self, switch_name: &str) -> (r: Result<String, BeelayCoreError>)
        ensures
            match r {
                Ok(file) => {
                    &&& self@.cache_files.contains_key(switch_name@)
                    &&& file@ == self@.cache_files[switch_name@]
                },
                Err(err) => {
                    &&& !self@.cache_files.contains_key(switch_name@)
                    &&& err@ == no_cache_file(switch_name@)
                },
            },
    {
        match self.cache_files.get(switch_name) {
            Some(file) => Ok(file.clone()),
            None => Err(no_cache_file_err(switch_name)),
        }
    }

    /// Decides what to do about a command. A command to stop is the only one after which the core
    /// no longer runs; one to set an unknown switch is an error that ends the run. The core has no
    /// reset.
    pub fn run_command(&mut self, command: &Command) -> (r: Result<CoreAction, BeelayCoreError>)
        requires
            !(command@ is Reset),
        ensures
            final(self)@ == core_after(old(self)@, command@),
            old(self)@.well_formed() ==> final(self)@.well_formed(),
            match r {
                Ok(action) => core_action(old(self)@, command@) == Ok::<
                    CoreActionView,
                    CoreErrorView,
                >(action@),
                Err(err) => core_action(old(self)@, command@) == Err::<
                    CoreActionView,
                    CoreErrorView,
                >(err@),
            },
    {
        match command {
            Command::Ping => Ok(CoreAction::Reply { resp: CommandResponse::Ack }),
            Command::Reset => unreached(),
            Command::Get { switch_name } => match self.get_cache_file(switch_name.as_str()) {
                Ok(cache_file) => Ok(
                    CoreAction::ReadCache { switch_name: switch_name.clone(), cache_file },
                ),
                Err(err) => Ok(
                    CoreAction::Reply { resp: CommandResponse::Error { error: err.to_string() } },
                ),
            },
            Command::SetState { switch_name, state, delay } => {
                match self.get_cache_file(switch_name.as_str()) {
                    Ok(cache_file) => Ok(
                        CoreAction::ScheduleSet {
                            switch_name: switch_name.clone(),
                            state: *state,
                            delay: *delay,
                            cache_file,
                            resp: CommandResponse::SwitchState {
                                name: switch_name.clone(),
                                state: Some(*state),
                                status: SwitchStatus::Transitioning,
                            },
                        },
                    ),
                    Err(err) => Err(err),
                }
            },
            Command::Stop => {
                self.running = false;
                Ok(CoreAction::Reply { resp: CommandResponse::Ack })
            },
            Command::EnumerateSwitches => Ok(
                CoreAction::Reply {
                    resp: CommandResponse::SwitchEnumeration {
                        switches: copy_texts(&self.switch_names),
                    },
                },
            ),
        }
    }

    /// Decides what to do about a state that the network reports: the cache file to write and
    /// what to write into it, or `None` for a switch that the core does not know.
    pub fn record_report(&self, switch_name: &str, state: SwitchState) -> (r: Option<
        (String, String),
    >)
        ensures
            match r {
                Some((file, contents)) => {
                    &&& self@.cache_files.contains_key(switch_name@)
                    &&& file@ == self@.cache_files[switch_name@]
                    &&& contents@ == cache_text(state, SwitchStatus::Confirmed)
                },
                None => !self@.cache_files.contains_key(switch_name@),
            },
    {
        match self.get_cache_file(switch_name) {
            Ok(file) => match cache_file_contents(state, SwitchStatus::Confirmed) {
                Ok(contents) => Some((file, contents)),
                Err(_) => None,
            },
            Err(_) => None,
        }
    }
}

/// What to write into the cache file of a switch once its delay is over: the commanded state,
/// not yet confirmed, where the command went out, and nothing where it did not.
pub fn record_set(state: SwitchState, commanded: bool) -> (r: Option<String>)
    ensures
        match r {
            Some(contents) => commanded && contents@ == cache_text(
                state,
                SwitchStatus::Transitioning,
            ),
            None => !commanded,
        },
{
    if !commanded {
        return None;
    }
    match cache_file_contents(state, SwitchStatus::Transitioning) {
        Ok(contents) => Some(contents),
        Err(_) => None,
    }
}

/// Composes the response to a request for a switch's state from what reading its cache file
/// gave.
pub fn answer_get(switch_name: &str, read: Result<Option<String>, String>) -> (r: CommandResponse)
    requires
        read matches Ok(Some(contents)) ==> !cache_breaks_off(contents@),
    ensures
        r@ == get_response(
            switch_name@,
            match read {
                Ok(contents) => Ok(optional_text(contents)),
                Err(error) => Err(error@),
            },
        ),
{
    match read {
        Err(error) => CommandResponse::Error { error },
        Ok(contents) => {
            let found = match &contents {
                Some(text) => read_cache_file(Some(text.as_str())),
                None => read_cache_file(None),
            };
            match found {
                Ok((state, status)) => CommandResponse::SwitchState {
                    name: switch_name.to_owned(),
                    state,
                    status,
                },
                Err(err) => CommandResponse::Error { error: err.to_string() },
            }
        },
    }
}

/// The error about a command that got no response.
pub open spec fn no_response() -> CoreErrorView {
    CoreErrorView {
        message: "None response from BeelayCoreCtrl channel"@,
        error_type: BeelayCoreErrorType::InternalError,
    }
}

/// The error about a response that does not fit its command.
pub open spec fn unexpected_response(resp: CommandResponseView) -> CoreErrorView {
    CoreErrorView {
        message: "Unexpected response from BeelayCoreCtrl channel: "@ + resp.text(),
        error_type: BeelayCoreErrorType::InternalError,
    }
}

/// The error about a response, or the lack of one, that does not fit its command.
pub open spec fn misfit(resp: Option<CommandResponse>) -> CoreErrorView {
    match resp {
        Some(resp) => unexpected_response(resp@),
        None => no_response(),
    }
}

/// The error about a response that holds no state where the state of a switch was asked for: the
/// core's word that it does not have the switch makes the switch invalid, and any other response
/// does not fit.
pub open spec fn get_fault(switch_name: Seq<char>, resp: CommandResponseView) -> CoreErrorView {
    if resp == (CommandResponseView::Error { error: no_cache_file(switch_name).text() }) {
        CoreErrorView {
            error_type: BeelayCoreErrorType::InvalidSwitch,
            ..unexpected_response(resp)
        }
    } else {
        unexpected_response(resp)
    }
}

/// The error about a request for the state of a switch that got no state, or no response.
pub open spec fn get_misfit(
    switch_name: Seq<char>,
    resp: Option<CommandResponse>,
) -> CoreErrorView {
    match resp {
        Some(resp) => get_fault(switch_name, resp@),
        None => no_response(),
    }
}

/// The caller's side of the core: which command each request sends and what its response means.
/// Sending the command and waiting for the response is left to the caller.
pub struct BeelayCoreCtrl {}

impl BeelayCoreCtrl {
    /// The command that asks for a sign of life.
    pub fn ping_command() -> (r: Command)
        ensures
            r@ == CommandView::Ping,
    {
        Command::Ping
    }

    /// What the response to [`Self::ping_command`] means.
    pub fn ping(resp: Option<CommandResponse>) -> (r: Result<(), BeelayCoreError>)
        ensures
            r is Ok <==> resp is Some && resp.unwrap()@ is Ack,
            r matches Err(err) ==> err@ == misfit(resp),
    {
        BeelayCoreCtrl::expect_ack(resp)
    }

    /// The command that sets a switch after a delay in seconds.
    pub fn set_switch_state_command(
        switch_name: &str,
        switch_state: SwitchState,
        delay: u16,
    ) -> (r: Command)
        ensures
            r@ == (CommandView::SetState { switch_name: switch_name@, state: switch_state, delay }),
    {
        Command::SetState { switch_name: switch_name.to_owned(), state: switch_state, delay }
    }

    /// What the response to [`Self::set_switch_state_command`] means.
    pub fn set_switch_state(resp: Option<CommandResponse>) -> (r: Result<(), BeelayCoreError>)
        ensures
            r is Ok <==> resp is Some && resp.unwrap()@ is SwitchState,
            r matches Err(err) ==> err@ == misfit(resp),
    {
        match resp {
            Some(CommandResponse::SwitchState { .. }) => Ok(()),
            Some(resp) => Err(BeelayCoreCtrl::unexpected_response_err(resp)),
            None => Err(BeelayCoreCtrl::none_response_err()),
        }
    }

    /// The command that asks for the state of a switch.
    pub fn get_switch_state_command(switch_name: &str) -> (r: Command)
        ensures
            r@ == (CommandView::Get { switch_name: switch_name@ }),
    {
        Command::Get { switch_name: switch_name.to_owned() }
    }

    /// What the response to [`Self::get_switch_state_command`] means.
    pub fn get_switch_state(switch_name: &str, resp: Option<CommandResponse>) -> (r: Result<
        (Option<SwitchState>, SwitchStatus),
        BeelayCoreError,
    >)
        requires
            resp matches Some(CommandResponse::SwitchState { name, .. }) ==> name@ == switch_name@,
        ensures
            match r {
                Ok((state, status)) => resp is Some && resp.unwrap()@
                    == (CommandResponseView::SwitchState { name: switch_name@, state, status }),
                Err(err) => !(resp is Some && resp.unwrap()@ is SwitchState) && err@ == get_misfit(
                    switch_name@,
                    resp,
                ),
            },
    {
        match resp {
            Some(CommandResponse::SwitchState { name, state, status }) => Ok((state, status)),
            Some(resp) => Err(BeelayCoreCtrl::no_state_err(switch_name, resp)),
            None => Err(BeelayCoreCtrl::none_response_err()),
        }
    }

    /// The command that asks for the names of all switches.
    pub fn get_switches_command() -> (r: Command)
        ensures
            r@ == CommandView::EnumerateSwitches,
    {
        Command::EnumerateSwitches
    }

    /// What the response to [`Self::get_switches_command`] means.
    pub fn get_switches(resp: Option<CommandResponse>) -> (r: Result<
        Vec<String>,
        BeelayCoreError,
    >)
        ensures
            match r {
                Ok(switches) => resp is Some && resp.unwrap()@
                    == (CommandResponseView::SwitchEnumeration { switches: texts(switches@) }),
                Err(err) => !(resp is Some && resp.unwrap()@ is SwitchEnumeration) && err@
                    == misfit(resp),
            },
    {
        match resp {
            Some(CommandResponse::SwitchEnumeration { switches }) => Ok(switches),
            Some(resp) => Err(BeelayCoreCtrl::unexpected_response_err(resp)),
            None => Err(BeelayCoreCtrl::none_response_err()),
        }
    }

    /// The command that asks for a reset.
    pub fn reset_command() -> (r: Command)
        ensures
            r@ == CommandView::Reset,
    {
        Command::Reset
    }

    /// What the response to [`Self::reset_command`] means.
    pub fn reset(resp: Option<CommandResponse>) -> (r: Result<(), BeelayCoreError>)
        ensures
            r is Ok <==> resp is Some && resp.unwrap()@ is Ack,
            r matches Err(err) ==> err@ == misfit(resp),
    {
        BeelayCoreCtrl::expect_ack(resp)
    }

    /// The command that ends the core's run.
    pub fn stop_command() -> (r: Command)
        ensures
            r@ == CommandView::Stop,
    {
        Command::Stop
    }

    /// What the response to [`Self::stop_command`] means.
    pub fn stop(resp: Option<CommandResponse>) -> (r: Result<(), BeelayCoreError>)
        ensures
            r is Ok <==> resp is Some && resp.unwrap()@ is Ack,
            r matches Err(err) ==> err@ == misfit(resp),
    {
        BeelayCoreCtrl::expect_ack(resp)
    }

    /// Takes an acknowledgement and nothing else.
    fn expect_ack(resp: Option<CommandResponse>) -> (r: Result<(), BeelayCoreError>)
        ensures
            r is Ok <==> resp is Some && resp.unwrap()@ is Ack,
            r matches Err(err) ==> err@ == misfit(resp),
    {
        match resp {
            Some(resp) => if resp.is_ack() {
                Ok(())
            } else {
                Err(BeelayCoreCtrl::unexpected_response_err(resp))
            },
            None => Err(BeelayCoreCtrl::none_response_err()),
        }
    }

    /// The error about a response that holds no state where the state of a switch was asked for.
    fn no_state_err(switch_name: &str, resp: CommandResponse) -> (r: BeelayCoreError)
        ensures
            r@ == get_fault(switch_name@, resp@),
    {
        let unknown = match &resp {
            CommandResponse::Error { error } => same_text(
                error.as_str(),
                no_cache_file_err(switch_name).to_string().as_str(),
            ),
            _ => false,
        };
        let fault = BeelayCoreCtrl::unexpected_response_err(resp);
        if unknown {
            BeelayCoreError {
                message: fault.message,
                error_type: BeelayCoreErrorType::InvalidSwitch,
            }
        } else {
            fault
        }
    }

    /// The error about a command that got no response.
    fn none_response_err() -> (r: BeelayCoreError)
        ensures
            r@ == no_response(),
    {
        BeelayCoreError::new(
            "None response from BeelayCoreCtrl channel",
            BeelayCoreErrorType::InternalError,
        )
    }

    /// The error about a response that does not fit its command.
    fn unexpected_response_err(resp: CommandResponse) -> (r: BeelayCoreError)
        ensures
            r@ == unexpected_response(resp@),
    {
        let message = "Unexpected response from BeelayCoreCtrl channel: ".to_owned().concat(
            resp.to_string().as_str(),
        );
        BeelayCoreError::new(message.as_str(), BeelayCoreErrorType::InternalError)
    }
}

impl CoreView {
    /// Whether every switch has a cache file, and nothing else has one.
    pub open spec fn well_formed(self) -> bool {
        forall|name: Seq<char>|
            #[trigger] self.cache_files.contains_key(name) <==> self.switch_names.contains(name)
    }
}

/// A core that has just been built has a cache file for every switch, and for nothing else.
pub proof fn new_core_is_well_formed(switch_names: Seq<Seq<char>>, dir: Seq<char>)
    ensures
        new_core(switch_names, dir).well_formed(),
{
}

/// A switch that the core enumerates can be read and set; any other cannot be set, and a request
/// to read it is answered with an error.
pub proof fn enumerated_switches_are_the_known_ones(
    core: CoreView,
    name: Seq<char>,
    state: SwitchState,
    delay: u16,
)
    requires
        core.well_formed(),
    ensures
        core.switch_names.contains(name) ==> {
            &&& core_action(core, CommandView::Get { switch_name: name }) matches Ok(
                CoreActionView::ReadCache { switch_name, .. },
            ) && switch_name == name
            &&& core_action(
                core,
                CommandView::SetState { switch_name: name, state, delay },
            ) matches Ok(CoreActionView::ScheduleSet { switch_name, state: s, delay: d, .. })
                && switch_name == name && s == state && d == delay
        },
        !core.switch_names.contains(name) ==> {
            &&& core_action(core, CommandView::Get { switch_name: name }) == Ok::<
                CoreActionView,
                CoreErrorView,
            >(
                CoreActionView::Reply {
                    resp: CommandResponseView::Error { error: no_cache_file(name).text() },
                },
            )
            &&& core_action(
                core,
                CommandView::SetState { switch_name: name, state, delay },
            ) == Err::<CoreActionView, CoreErrorView>(no_cache_file(name))
        },
{
}

/// What is written into a cache file is read back from it.
pub proof fn cache_is_read_back(state: SwitchState, status: SwitchStatus)
    ensures
        !cache_breaks_off(cache_text(state, status)),
        cache_reading(cache_text(state, status)) == Ok::<(SwitchState, SwitchStatus), Seq<char>>(
            (state, status),
        ),
{
    let fields = seq![state.text(), status.text()];
    reveal_strlit("on");
    reveal_strlit("off");
    reveal_strlit("confirmed");
    reveal_strlit("transitioning");
    reveal_strlit(",");
    let written = cache_text(state, status);
    assert(","@ =~= seq![',']);
    assert(ascii_lowercase(written) =~= written);
    reveal_with_fuel(join, 2);
    assert(fields.drop_last() =~= seq![state.text()]);
    assert(join(fields, seq![',']) =~= written);
    split_undoes_join(fields, ',');
    state_name_round_trip(state);
    status_name_round_trip(status);
}

/// Capital letters in a cache file do not matter.
pub proof fn cache_case_does_not_matter(contents: Seq<char>)
    ensures
        cache_reading(ascii_lowercase(contents)) == cache_reading(contents),
        cache_breaks_off(ascii_lowercase(contents)) == cache_breaks_off(contents),
{
    ascii_lowercase_is_idempotent(contents);
}

/// A state that was reported, or commanded, for a switch is what a later request for that switch
/// is answered, with its status.
pub proof fn recorded_state_is_answered(
    switch_name: Seq<char>,
    state: SwitchState,
    status: SwitchStatus,
)
    ensures
        get_response(switch_name, Ok(Some(cache_text(state, status)))) == (
        CommandResponseView::SwitchState { name: switch_name, state: Some(state), status }),
{
    cache_is_read_back(state, status);
}

/// Two switches whose names are no absolute paths are given different paths for their cache files.
pub proof fn cache_files_do_not_collide(dir: Seq<char>, a: Seq<char>, b: Seq<char>)
    requires
        a != b,
        a.len() > 0 ==> a[0] != '/',
        b.len() > 0 ==> b[0] != '/',
    ensures
        cache_path(dir, a) != cache_path(dir, b),
{
    let prefix = if dir.len() == 0 || dir.last() == '/' {
        dir
    } else {
        dir + "/"@
    };
    assert(cache_path(dir, a) == prefix + a);
    assert(cache_path(dir, b) == prefix + b);
    if prefix + a == prefix + b {
        assert((prefix + a).skip(prefix.len() as int) =~= a);
        assert((prefix + b).skip(prefix.len() as int) =~= b);
    }
}

/// One turn of the core: the command that it takes, and what reading the cache file gives, where
/// the command has the core read one.
pub struct CoreTurn {
    pub command: CommandView,
    pub read: Result<Option<Seq<char>>, Seq<char>>,
}

/// The response that a turn sends, or the error that ends the run.
pub open spec fn turn_response(core: CoreView, turn: CoreTurn) -> Result<
    CommandResponseView,
    CoreErrorView,
> {
    match core_action(core, turn.command) {
        Ok(CoreActionView::Reply { resp }) => Ok(resp),
        Ok(CoreActionView::ReadCache { switch_name, .. }) => Ok(
            get_response(switch_name, turn.read),
        ),
        Ok(CoreActionView::ScheduleSet { resp, .. }) => Ok(resp),
        Err(err) => Err(err),
    }
}

/// How a run stands: it waits for another command, was stopped, or ended with an error.
pub enum CoreRunEnd {
    Waiting,
    Stopped,
    Failed(CoreErrorView),
}

/// A run of the core: the responses that it sent, in their order, and how it stands.
#[verifier::ext_equal]
pub struct CoreRun {
    pub responses: Seq<CommandResponseView>,
    pub end: CoreRunEnd,
}

/// The run of the core over a list of turns: it takes one after the other while it runs.
pub open spec fn core_run(core: CoreView, turns: Seq<CoreTurn>) -> CoreRun
    decreases turns.len(),
{
    if !core.running {
        CoreRun { responses: Seq::empty(), end: CoreRunEnd::Stopped }
    } else if turns.len() == 0 {
        CoreRun { responses: Seq::empty(), end: CoreRunEnd::Waiting }
    } else {
        match turn_response(core, turns[0]) {
            Err(err) => CoreRun { responses: Seq::empty(), end: CoreRunEnd::Failed(err) },
            Ok(resp) => {
                let rest = core_run(core_after(core, turns[0].command), turns.skip(1));
                CoreRun { responses: seq![resp] + rest.responses, end: rest.end }
            },
        }
    }
}

/// Whether a turn is answered and followed by another: its command neither stops nor resets the
/// core, nor sets a switch that the core does not have, and the cache file that it has the core
/// read does not break off.
pub open spec fn is_served(core: CoreView, turn: CoreTurn) -> bool {
    match turn.command {
        CommandView::Stop | CommandView::Reset => false,
        CommandView::SetState { switch_name, .. } => core.cache_files.contains_key(switch_name),
        CommandView::Get { switch_name } => core.cache_files.contains_key(switch_name) ==> (
        turn.read matches Ok(Some(contents)) ==> !cache_breaks_off(contents)),
        _ => true,
    }
}

/// The responses to the first turns of a list.
pub open spec fn first_responses(core: CoreView, turns: Seq<CoreTurn>, n: nat) -> Seq<
    CommandResponseView,
> {
    Seq::new(n, |i: int| turn_response(core, turns[i])->Ok_0)
}

/// Turns that are served send a response each, and the run goes on behind them as from the start.
proof fn lemma_served_turns(core: CoreView, turns: Seq<CoreTurn>, n: nat)
    requires
        core.running,
        n <= turns.len(),
        forall|i: int| 0 <= i < n ==> is_served(core, #[trigger] turns[i]),
    ensures
        core_run(core, turns) == (CoreRun {
            responses: first_responses(core, turns, n) + core_run(
                core,
                turns.skip(n as int),
            ).responses,
            end: core_run(core, turns.skip(n as int)).end,
        }),
    decreases n,
{
    if n == 0 {
        assert(turns.skip(0) =~= turns);
        assert(first_responses(core, turns, 0) + core_run(core, turns).responses =~= core_run(
            core,
            turns,
        ).responses);
    } else {
        let rest = turns.skip(1);
        assert(is_served(core, turns[0]));
        assert(core_after(core, turns[0].command) == core);
        assert forall|i: int| 0 <= i < n - 1 implies is_served(core, #[trigger] rest[i]) by {
            assert(rest[i] == turns[i + 1]);
        }
        lemma_served_turns(core, rest, (n - 1) as nat);
        assert(rest.skip(n - 1) =~= turns.skip(n as int));
        let behind = core_run(core, turns.skip(n as int)).responses;
        assert(seq![turn_response(core, turns[0])->Ok_0] + (first_responses(
            core,
            rest,
            (n - 1) as nat,
        ) + behind) =~= first_responses(core, turns, n) + behind);
    }
}

/// Up to the first command to stop each command gets exactly one response, in the order of the
/// commands; the run then ends without an error, and whatever comes later is not read.
pub proof fn commands_are_answered_up_to_stop(core: CoreView, turns: Seq<CoreTurn>, stop: int)
    requires
        core.running,
        0 <= stop < turns.len(),
        turns[stop].command is Stop,
        forall|i: int| 0 <= i < stop ==> is_served(core, #[trigger] turns[i]),
    ensures
        core_run(core, turns).end is Stopped,
        core_run(core, turns).responses.len() == stop + 1,
        forall|i: int|
            0 <= i <= stop ==> turn_response(core, turns[i]) == Ok::<
                CommandResponseView,
                CoreErrorView,
            >(#[trigger] core_run(core, turns).responses[i]),
        core_run(core, turns).responses[stop] == CommandResponseView::Ack,
        core_run(core, turns) == core_run(core, turns.take(stop + 1)),
{
    lemma_stopped_run(core, turns, stop);
    let read = turns.take(stop + 1);
    assert forall|i: int| 0 <= i < stop implies is_served(core, #[trigger] read[i]) by {
        assert(read[i] == turns[i]);
    }
    lemma_stopped_run(core, read, stop);
    assert(first_responses(core, read, stop as nat) =~= first_responses(core, turns, stop as nat));
}

/// A run up to the first command to stop.
proof fn lemma_stopped_run(core: CoreView, turns: Seq<CoreTurn>, stop: int)
    requires
        core.running,
        0 <= stop < turns.len(),
        turns[stop].command is Stop,
        forall|i: int| 0 <= i < stop ==> is_served(core, #[trigger] turns[i]),
    ensures
        core_run(core, turns) == (CoreRun {
            responses: first_responses(core, turns, stop as nat).push(CommandResponseView::Ack),
            end: CoreRunEnd::Stopped,
        }),
        forall|i: int| 0 <= i < stop ==> turn_response(core, #[trigger] turns[i]) is Ok,
{
    lemma_served_turns(core, turns, stop as nat);
    let behind = turns.skip(stop);
    assert(behind[0] == turns[stop]);
    reveal_with_fuel(core_run, 2);
    assert(core_run(core, behind).responses =~= seq![CommandResponseView::Ack]);
    assert(core_run(core, turns).responses =~= first_responses(core, turns, stop as nat).push(
        CommandResponseView::Ack,
    ));
    assert forall|i: int| 0 <= i < stop implies turn_response(core, #[trigger] turns[i]) is Ok by {
        assert(is_served(core, turns[i]));
    }
}

/// While no command stops the core, each command gets exactly one response, in the order of the
/// commands, and the core waits for another.
pub proof fn core_runs_until_stopped(core: CoreView, turns: Seq<CoreTurn>)
    requires
        core.running,
        forall|i: int| 0 <= i < turns.len() ==> is_served(core, #[trigger] turns[i]),
    ensures
        core_run(core, turns).end is Waiting,
        core_run(core, turns).responses.len() == turns.len(),
        forall|i: int|
            0 <= i < turns.len() ==> turn_response(core, turns[i]) == Ok::<
                CommandResponseView,
                CoreErrorView,
            >(#[trigger] core_run(core, turns).responses[i]),
{
    lemma_served_turns(core, turns, turns.len());
    assert forall|i: int| 0 <= i < turns.len() implies turn_response(core, turns[i]) == Ok::<
        CommandResponseView,
        CoreErrorView,
    >(#[trigger] core_run(core, turns).responses[i]) by {
        assert(is_served(core, turns[i]));
    }
}

/// A command to set a switch that the core does not have gets no response and ends the run with
/// an error; the commands before it are answered.
pub proof fn setting_an_unknown_switch_ends_the_run(
    core: CoreView,
    turns: Seq<CoreTurn>,
    fatal: int,
    name: Seq<char>,
    state: SwitchState,
    delay: u16,
)
    requires
        core.running,
        0 <= fatal < turns.len(),
        turns[fatal].command == (CommandView::SetState { switch_name: name, state, delay }),
        !core.cache_files.contains_key(name),
        forall|i: int| 0 <= i < fatal ==> is_served(core, #[trigger] turns[i]),
    ensures
        core_run(core, turns).end == CoreRunEnd::Failed(no_cache_file(name)),
        core_run(core, turns).responses == first_responses(core, turns, fatal as nat),
{
    lemma_served_turns(core, turns, fatal as nat);
    assert(turns.skip(fatal)[0] == turns[fatal]);
    assert(core_run(core, turns).responses =~= first_responses(core, turns, fatal as nat));
}

/// What each kind of command is answered: a ping and a stop are acknowledged, an enumeration
/// lists the switches in their order, a request for a switch gives what its cache file says, and
/// a switch that is set is on its way to its new state.
pub proof fn responses_fit_their_commands(core: CoreView, turn: CoreTurn)
    ensures
        turn.command is Ping || turn.command is Stop ==> turn_response(core, turn) == Ok::<
            CommandResponseView,
            CoreErrorView,
        >(CommandResponseView::Ack),
        turn.command is EnumerateSwitches ==> turn_response(core, turn) == Ok::<
            CommandResponseView,
            CoreErrorView,
        >(CommandResponseView::SwitchEnumeration { switches: core.switch_names }),
        turn.command matches CommandView::Get { switch_name } ==> core.cache_files.contains_key(
            switch_name,
        ) ==> turn_response(core, turn) == Ok::<CommandResponseView, CoreErrorView>(
            get_response(switch_name, turn.read),
        ),
        turn.command matches CommandView::SetState { switch_name, state, .. }
            ==> core.cache_files.contains_key(switch_name) ==> turn_response(core, turn) == Ok::<
            CommandResponseView,
            CoreErrorView,
        >(
            CommandResponseView::SwitchState {
                name: switch_name,
                state: Some(state),
                status: SwitchStatus::Transitioning,
            },
        ),
{
}

/// The cache file of a switch stands in the directory under the switch's name, with one slash
/// between them; a slash at the end of the directory changes nothing, and a name that is an
/// absolute path is the file itself.
pub proof fn cache_files_stand_in_the_directory(dir: Seq<char>, name: Seq<char>)
    ensures
        name.len() > 0 && name[0] == '/' ==> cache_path(dir, name) == name,
        !(name.len() > 0 && name[0] == '/') && dir.len() > 0 && dir.last() != '/' ==> cache_path(
            dir,
            name,
        ) == dir + "/"@ + name && cache_path(dir + "/"@, name) == cache_path(dir, name),
        !(name.len() > 0 && name[0] == '/') && dir.len() == 0 ==> cache_path(dir, name) == name,
        !(name.len() > 0 && name[0] == '/') && dir.len() > 0 && dir.last() == '/' ==> cache_path(
            dir,
            name,
        ) == dir + name,
{
    reveal_strlit("/");
    assert((dir + "/"@).last() == '/');
    if dir.len() == 0 {
        assert(dir + name =~= name);
    }
}

/// A core that has just been built runs, has the switches that it was given in their order, and
/// for each of them the cache file of its name in the directory.
pub proof fn new_cores_hold_their_switches(
    switch_names: Seq<Seq<char>>,
    dir: Seq<char>,
    name: Seq<char>,
)
    ensures
        new_core(switch_names, dir).running,
        new_core(switch_names, dir).switch_names == switch_names,
        new_core(switch_names, dir).cache_files.contains_key(name) <==> switch_names.contains(name),
        switch_names.contains(name) ==> new_core(switch_names, dir).cache_files[name] == cache_path(
            dir,
            name,
        ),
{
}

/// What a command has the core do with a switch that it has: a request reads the switch's own
/// cache file; a command to set it is scheduled with the state and the delay that it gives, and
/// answered that the switch is on its way there.
pub proof fn known_switches_are_served(
    core: CoreView,
    name: Seq<char>,
    state: SwitchState,
    delay: u16,
)
    requires
        core.cache_files.contains_key(name),
    ensures
        core_action(core, CommandView::Get { switch_name: name }) == Ok::<
            CoreActionView,
            CoreErrorView,
        >(CoreActionView::ReadCache { switch_name: name, cache_file: core.cache_files[name] }),
        core_action(core, CommandView::SetState { switch_name: name, state, delay }) == Ok::<
            CoreActionView,
            CoreErrorView,
        >(
            CoreActionView::ScheduleSet {
                switch_name: name,
                state,
                delay,
                cache_file: core.cache_files[name],
                resp: CommandResponseView::SwitchState {
                    name,
                    state: Some(state),
                    status: SwitchStatus::Transitioning,
                },
            },
        ),
{
}

/// A command changes nothing about the core but whether it runs, and only a stop does that.
pub proof fn commands_leave_the_core_as_it_is(core: CoreView, command: CommandView)
    ensures
        core_after(core, CommandView::Stop) == (CoreView { running: false, ..core }),
        command != CommandView::Stop ==> core_after(core, command) == core,
{
}

/// Whether a text is empty or begins with a comma.
spec fn ends_a_field(rest: Seq<char>) -> bool {
    rest.len() == 0 || rest[0] == ','
}

/// A text with a field of its own in front is cut into that field and the rest.
proof fn lemma_first_field(field: Seq<char>, rest: Seq<char>)
    requires
        !field.contains(','),
        ends_a_field(rest),
    ensures
        split(field + rest, ',')[0] == field,
        rest.len() > 0 ==> split(field + rest, ',') == seq![field] + split(rest.skip(1), ','),
        rest.len() == 0 ==> split(field + rest, ',') == seq![field],
{
    text_without_separator_is_one_field(field, ',');
    if rest.len() == 0 {
        assert(field + rest =~= field);
    } else {
        assert(field + rest =~= field.push(',') + rest.skip(1));
        texts_are_cut_at_a_separator(field, rest.skip(1), ',');
    }
}

/// The names of states and statuses hold no comma and no capital letter.
proof fn lemma_names_are_fields(state: SwitchState, status: SwitchStatus)
    ensures
        !state.text().contains(','),
        !status.text().contains(','),
{
    reveal_strlit("on");
    reveal_strlit("off");
    reveal_strlit("confirmed");
    reveal_strlit("transitioning");
}

/// A cache file whose letters, made small, are the name of a state, a comma and the name of a
/// status, and then nothing or another comma, says that state and that status.
pub proof fn caches_say_what_they_name(
    contents: Seq<char>,
    state: SwitchState,
    status: SwitchStatus,
    rest: Seq<char>,
)
    requires
        ascii_lowercase(contents) == state.text() + (","@ + (status.text() + rest)),
        rest.len() > 0 ==> rest[0] == ',',
    ensures
        !cache_breaks_off(contents),
        cache_reading(contents) == Ok::<(SwitchState, SwitchStatus), Seq<char>>((state, status)),
{
    reveal_strlit(",");
    lemma_names_are_fields(state, status);
    let behind = ","@ + (status.text() + rest);
    lemma_first_field(state.text(), behind);
    assert(behind.skip(1) =~= status.text() + rest);
    lemma_first_field(status.text(), rest);
    split_has_a_field(status.text() + rest, ',');
    assert(cache_fields(contents)[1] == split(status.text() + rest, ',')[0]);
    state_name_round_trip(state);
    status_name_round_trip(status);
}

/// A cache file that says a state and a status names them, one behind the other with a comma
/// between them, and goes on with nothing or another comma.
pub proof fn caches_name_what_they_say(
    contents: Seq<char>,
    state: SwitchState,
    status: SwitchStatus,
)
    requires
        !cache_breaks_off(contents),
        cache_reading(contents) == Ok::<(SwitchState, SwitchStatus), Seq<char>>((state, status)),
    ensures
        exists|rest: Seq<char>|
            ascii_lowercase(contents) == #[trigger] (state.text() + (","@ + (status.text() + rest)))
                && (rest.len() > 0 ==> rest[0] == ','),
{
    reveal_strlit(",");
    let lower = ascii_lowercase(contents);
    let fields = cache_fields(contents);
    let sep = seq![','];
    split_has_a_field(lower, ',');
    join_undoes_split(lower, ',');
    state_name_is_exact(fields[0]);
    status_name_is_exact(fields[1]);
    let more = fields.skip(2);
    let pair = seq![fields[0], fields[1]];
    assert(fields =~= pair + more);
    assert(pair =~= seq![fields[0]] + seq![fields[1]]);
    lists_are_joined_piece_by_piece(seq![fields[0]], seq![fields[1]], fields[0], sep);
    lists_are_joined_piece_by_piece(pair, more, fields[1], sep);
    let rest = if more.len() == 0 {
        Seq::empty()
    } else {
        sep + join(more, sep)
    };
    if more.len() == 0 {
        assert(fields =~= pair);
    }
    assert(lower =~= state.text() + (","@ + (status.text() + rest)));
}

/// A cache file whose first field names no state is an error about that field, and one whose first
/// field names a state and whose second names no status is an error about the second.
pub proof fn spoilt_caches_are_told(
    contents: Seq<char>,
    state: SwitchState,
    field: Seq<char>,
    rest: Seq<char>,
)
    requires
        !field.contains(','),
        rest.len() > 0 ==> rest[0] == ',',
    ensures
        ascii_lowercase(contents) == field + rest && field != "on"@ && field != "off"@
            ==> cache_reading(contents) == Err::<(SwitchState, SwitchStatus), Seq<char>>(
            "Can't resolve status string: "@ + field,
        ),
        ascii_lowercase(contents) == state.text() + (","@ + (field + rest)) && field
            != "confirmed"@ && field != "transitioning"@ ==> cache_reading(contents) == Err::<
            (SwitchState, SwitchStatus),
            Seq<char>,
        >("Can't resolve status string: "@ + field),
{
    reveal_strlit(",");
    lemma_names_are_fields(state, SwitchStatus::Confirmed);
    lemma_first_field(field, rest);
    let behind = ","@ + (field + rest);
    lemma_first_field(state.text(), behind);
    assert(behind.skip(1) =~= field + rest);
    split_has_a_field(field + rest, ',');
    state_name_round_trip(state);
}

/// A request for a switch is answered with what its cache file says, with an unknown state where
/// there is no file, and with an error where the file cannot be read or is spoilt.
pub proof fn cache_readings_are_answered(
    name: Seq<char>,
    contents: Seq<char>,
    state: SwitchState,
    status: SwitchStatus,
    message: Seq<char>,
)
    ensures
        get_response(name, Err(message)) == (CommandResponseView::Error { error: message }),
        get_response(name, Ok(None)) == (CommandResponseView::SwitchState {
            name,
            state: None,
            status: SwitchStatus::Confirmed,
        }),
        cache_reading(contents) == Ok::<(SwitchState, SwitchStatus), Seq<char>>((state, status))
            ==> get_response(name, Ok(Some(contents))) == (CommandResponseView::SwitchState {
            name,
            state: Some(state),
            status,
        }),
        cache_reading(contents) == Err::<(SwitchState, SwitchStatus), Seq<char>>(message)
            ==> get_response(name, Ok(Some(contents))) == (CommandResponseView::Error {
            error: "BeelayCommonError: "@ + message,
        }),
{
}

/// The error about an unknown switch names it; asked for its state, the core gives that error, by
/// which the asker knows that the switch is invalid. Any other response without a state, and no
/// response at all, is an internal error that shows what came.
pub proof fn faults_are_told_apart(name: Seq<char>, resp: CommandResponseView)
    ensures
        no_cache_file(name).text()
            == "BeelayCoreError: Could not resolve cache file for switch name, "@ + name,
        no_cache_file(name).error_type == BeelayCoreErrorType::InternalError,
        get_fault(name, resp).message == "Unexpected response from BeelayCoreCtrl channel: "@
            + resp.text(),
        get_fault(name, resp).error_type == BeelayCoreErrorType::InvalidSwitch <==> (resp matches
            CommandResponseView::Error { error } && error
            == "BeelayCoreError: Could not resolve cache file for switch name, "@ + name),
        unexpected_response(resp).message == get_fault(name, resp).message,
        unexpected_response(resp).error_type == BeelayCoreErrorType::InternalError,
        no_response().error_type == BeelayCoreErrorType::InternalError,
        no_response().text() == "BeelayCoreError: None response from BeelayCoreCtrl channel"@,
{
    reveal_strlit("BeelayCoreError: ");
    reveal_strlit("None response from BeelayCoreCtrl channel");
    reveal_strlit("BeelayCoreError: None response from BeelayCoreCtrl channel");
    assert(no_response().text() =~= "BeelayCoreError: None response from BeelayCoreCtrl channel"@);
    reveal_strlit("Could not resolve cache file for switch name, ");
    reveal_strlit("BeelayCoreError: Could not resolve cache file for switch name, ");
    assert("BeelayCoreError: "@ + ("Could not resolve cache file for switch name, "@ + name)
        =~= "BeelayCoreError: Could not resolve cache file for switch name, "@ + name);
}

/// A command that concerns a switch is shown with the switch's name, and one that sets it with the
/// state and the delay as well.
pub proof fn commands_are_shown_with_their_switch(
    name: Seq<char>,
    state: SwitchState,
    delay: u16,
)
    ensures
        (CommandView::Get { switch_name: name }).text() == "Command::Get{ switch_name: "@ + (name
            + " }"@),
        (CommandView::SetState { switch_name: name, state, delay }).text()
            == "Command::Set{ switch_name: "@ + (name + ((if state == SwitchState::On {
            ", state: On, delay: "@
        } else {
            ", state: Off, delay: "@
        }) + (decimal(delay as nat) + " }"@))),
{
    reveal_strlit(", state: ");
    reveal_strlit(", delay: ");
    reveal_strlit("On");
    reveal_strlit("Off");
    reveal_strlit(", state: On, delay: ");
    reveal_strlit(", state: Off, delay: ");
    assert((CommandView::Get { switch_name: name }).text() =~= "Command::Get{ switch_name: "@ + (
    name + " }"@));
    assert(", state: "@ + "On"@ + ", delay: "@ =~= ", state: On, delay: "@);
    assert(", state: "@ + "Off"@ + ", delay: "@ =~= ", state: Off, delay: "@);
    let shown = ", state: "@ + state.label() + ", delay: "@;
    assert((CommandView::SetState { switch_name: name, state, delay }).text()
        =~= "Command::Set{ switch_name: "@ + (name + (shown + (decimal(delay as nat) + " }"@))));
}

/// A response about a switch is shown with the switch's name, its state as far as it is known, and
/// its status; a list of switches with their names, and an error with its text.
pub proof fn responses_are_shown_with_their_parts(
    name: Seq<char>,
    state: Option<SwitchState>,
    status: SwitchStatus,
    a: Seq<Seq<char>>,
    b: Seq<Seq<char>>,
    error: Seq<char>,
)
    ensures
        (CommandResponseView::SwitchState { name, state, status }).text()
            == "CommandResponse::SwitchState{ switch_name: "@ + (name + ((if state is None {
            ", state: None"@
        } else if state == Some(SwitchState::On) {
            ", state: On"@
        } else {
            ", state: Off"@
        }) + (if status == SwitchStatus::Confirmed {
            ", status: Confirmed }"@
        } else {
            ", status: Transitioning }"@
        }))),
        a.len() > 0 && b.len() > 0 ==> (CommandResponseView::SwitchEnumeration {
            switches: a + b,
        }).text() == "CommandResponse::SwitchEnumeration{ switches: ["@ + join(a, ", "@) + ", "@
            + join(b, ", "@) + "] }"@,
        (CommandResponseView::SwitchEnumeration { switches: seq![name] }).text()
            == "CommandResponse::SwitchEnumeration{ switches: ["@ + (name + "] }"@),
        (CommandResponseView::Error { error }).text() == "CommandResponse::Error{ error: "@ + (error
            + " }"@),
{
    reveal_strlit(", state: ");
    reveal_strlit(", status: ");
    reveal_strlit(" }");
    reveal_strlit("None");
    reveal_strlit("On");
    reveal_strlit("Off");
    reveal_strlit("Confirmed");
    reveal_strlit("Transitioning");
    reveal_strlit(", state: None");
    reveal_strlit(", state: On");
    reveal_strlit(", state: Off");
    reveal_strlit(", status: Confirmed }");
    reveal_strlit(", status: Transitioning }");
    assert(", state: "@ + "None"@ =~= ", state: None"@);
    assert(", state: "@ + "On"@ =~= ", state: On"@);
    assert(", state: "@ + "Off"@ =~= ", state: Off"@);
    assert(", status: "@ + "Confirmed"@ + " }"@ =~= ", status: Confirmed }"@);
    assert(", status: "@ + "Transitioning"@ + " }"@ =~= ", status: Transitioning }"@);
    let first = ", state: "@ + optional_state_label(state);
    let second = ", status: "@ + status.label() + " }"@;
    assert((CommandResponseView::SwitchState { name, state, status }).text()
        =~= "CommandResponse::SwitchState{ switch_name: "@ + (name + (first + second)));
    lists_are_joined_piece_by_piece(a, b, name, ", "@);
    let list = "CommandResponse::SwitchEnumeration{ switches: ["@;
    if a.len() > 0 && b.len() > 0 {
        assert(list + join(a + b, ", "@) + "] }"@ =~= list + join(a, ", "@) + ", "@ + join(b, ", "@)
            + "] }"@);
    }
    assert(list + name + "] }"@ =~= list + (name + "] }"@));
    assert("CommandResponse::Error{ error: "@ + error + " }"@ =~= "CommandResponse::Error{ error: "@
        + (error + " }"@));
}

/// A command whose response does not fit fails with an internal error that shows the response, and
/// one without a response with an error that says so. A request for a state fails in the same way,
/// but that it knows the error about an unknown switch.
pub proof fn misfits_are_told(name: Seq<char>, resp: CommandResponse)
    ensures
        misfit(Some(resp)).message == "Unexpected response from BeelayCoreCtrl channel: "@
            + resp@.text(),
        misfit(Some(resp)).error_type == BeelayCoreErrorType::InternalError,
        misfit(None).message == "None response from BeelayCoreCtrl channel"@,
        misfit(None).error_type == BeelayCoreErrorType::InternalError,
        get_misfit(name, None) == misfit(None),
        get_misfit(name, Some(resp)).message == misfit(Some(resp)).message,
        get_misfit(name, Some(resp)).error_type == BeelayCoreErrorType::InvalidSwitch <==> (resp@
            matches CommandResponseView::Error { error } && error
            == "BeelayCoreError: Could not resolve cache file for switch name, "@ + name),
{
    faults_are_told_apart(name, resp@);
}

} // verus!

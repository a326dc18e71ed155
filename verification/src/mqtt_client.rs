//! The client of the MQTT network and its simulation: topics, commands, and the reports that
//! switches send. Connecting, sending and waiting is left to the caller.
use vstd::pervasive::unreached;
use vstd::prelude::*;
use vstd::string::StringSliceAdditionalSpecFns;
use vstd::utf8::{
    decode_utf8, decode_utf8_encode_utf8, decode_utf8_split, encode_utf8, encode_utf8_decode_utf8,
    encode_utf8_first_scalar, encode_utf8_valid_utf8, is_ascii_chars, is_ascii_chars_encode_utf8,
    is_char_boundary, pop_first_scalar, valid_utf8, valid_utf8_split,
};

use crate::common::{
    common_error_text, state_name_round_trip, state_named, str_to_switch_state,
    switch_state_to_str, unresolved_message, BeelayCommonError, SwitchState,
};
use crate::json::{json_document, json_member, parse_json_object, JsonDocument};
use crate::text::{ascii_lowercase, lowercase, lowercase_text, same_text, texts};

verus! {

/// An error of the MQTT client.
#[derive(Debug)]
pub struct BeelayMqttClientError {
    message: String,
}

impl View for BeelayMqttClientError {
    type V = Seq<char>;

    closed spec fn view(&self) -> Seq<char> {
        self.message@
    }
}

/// How an error of the MQTT client with the given message is shown.
pub open spec fn mqtt_error_text(message: Seq<char>) -> Seq<char> {
    "BeelayMqttClientError: "@ + message
}

impl BeelayMqttClientError {
    /// An error with the given message.
    pub fn new(message: &str) -> (r: BeelayMqttClientError)
        ensures
            r@ == message@,
    {
        BeelayMqttClientError { message: message.to_owned() }
    }

    /// The text in which the error is shown.
    pub fn to_string(&self) -> (r: String)
        ensures
            r@ == mqtt_error_text(self@),
    {
        "BeelayMqttClientError: ".to_owned().concat(self.message.as_str())
    }
}

/// What the client can be asked to do.
#[derive(Clone)]
pub enum Command {
    Ping,
    SetState { switch_name: String, state: SwitchState },
    Stop,
    Reset,
}

/// A command with its strings as characters.
pub enum CommandView {
    Ping,
    SetState { switch_name: Seq<char>, state: SwitchState },
    Stop,
    Reset,
}

impl View for Command {
    type V = CommandView;

    open spec fn view(&self) -> CommandView {
        match self {
            Command::Ping => CommandView::Ping,
            Command::SetState { switch_name, state } => CommandView::SetState {
                switch_name: switch_name@,
                state: *state,
            },
            Command::Stop => CommandView::Stop,
            Command::Reset => CommandView::Reset,
        }
    }
}

/// What the client answers.
#[derive(Debug, Copy, Clone, PartialEq, Eq, Structural)]
pub enum CommandResponse {
    Ack,
}

impl CommandResponse {
    /// Whether the response is a bare acknowledgement.
    pub fn is_ack(&self) -> (r: bool)
        ensures
            r == (*self is Ack),
    {
        match self {
            CommandResponse::Ack => true,
        }
    }

    /// How the response is shown.
    pub open spec fn text(self) -> Seq<char> {
        match self {
            CommandResponse::Ack => "CommandResponse::Ack"@,
        }
    }

    /// The text in which the response is shown.
    pub fn to_string(&self) -> (r: String)
        ensures
            r@ == self.text(),
    {
        match self {
            CommandResponse::Ack => "CommandResponse::Ack".to_owned(),
        }
    }
}

/// The channels on which the client and its simulation listen.
#[derive(Debug, Copy, Clone, PartialEq, Eq, Structural)]
pub enum Link {
    Commands,
    SimulatedCommands,
    StateLinks,
    Events,
}

impl Link {
    /// The message about the channel's loss.
    pub open spec fn lost(self) -> Seq<char> {
        match self {
            Link::Commands => "Command channel disconnected"@,
            Link::SimulatedCommands => "Channel disconnected"@,
            Link::StateLinks => "State link channel disconnected"@,
            Link::Events => "Event channel disconnected"@,
        }
    }

    /// The error about the channel's loss.
    pub fn disconnected(&self) -> (r: BeelayMqttClientError)
        ensures
            r@ == self.lost(),
    {
        match self {
            Link::Commands => BeelayMqttClientError::new("Command channel disconnected"),
            Link::SimulatedCommands => BeelayMqttClientError::new("Channel disconnected"),
            Link::StateLinks => BeelayMqttClientError::new("State link channel disconnected"),
            Link::Events => BeelayMqttClientError::new("Event channel disconnected"),
        }
    }
}

/// What looking for a new listener gave.
#[derive(Debug, Copy, Clone, PartialEq, Eq, Structural)]
pub enum LinkPoll {
    Opened,
    Empty,
    Disconnected,
}

/// What looking for a command gave.
pub enum CommandPoll {
    Received { command: Command },
    Empty,
    Disconnected,
}

/// What looking for an event gave.
pub enum EventPoll {
    Received { event: MqttEvent },
    Empty,
    Disconnected,
}

/// The topic on which a switch reports.
pub open spec fn report_topic(base_topic: Seq<char>, switch_name: Seq<char>) -> Seq<char> {
    base_topic + "/"@ + switch_name
}

/// The topic on which a switch takes commands.
pub open spec fn command_topic(base_topic: Seq<char>, switch_name: Seq<char>) -> Seq<char> {
    base_topic + "/"@ + switch_name + "/set"@
}

/// Something that the network has sent.
pub enum MqttEvent {
    /// A message that was published on a topic.
    Publish { topic: String, payload: Vec<u8> },
    /// Anything else, which tells nothing about a switch.
    Other,
}

/// What a payload holds: `state` is `None` where the object has no such member and `Some(None)`
/// where the member holds something other than a string. Of what is no JSON it holds the message of
/// the parser's error.
pub enum Payload {
    NotJson { message: String },
    NotObject,
    Object { state: Option<Option<String>> },
}

/// A payload with its string as characters.
pub enum PayloadView {
    NotJson { message: Seq<char> },
    NotObject,
    Object { state: Option<Option<Seq<char>>> },
}

impl View for Payload {
    type V = PayloadView;

    open spec fn view(&self) -> PayloadView {
        match self {
            Payload::NotJson { message } => PayloadView::NotJson { message: message@ },
            Payload::NotObject => PayloadView::NotObject,
            Payload::Object { state: None } => PayloadView::Object { state: None },
            Payload::Object { state: Some(None) } => PayloadView::Object { state: Some(None) },
            Payload::Object { state: Some(Some(text)) } => PayloadView::Object {
                state: Some(Some(text@)),
            },
        }
    }
}

/// What a payload that is the given document holds.
pub open spec fn payload_of(document: JsonDocument) -> PayloadView {
    match document {
        JsonDocument::NotJson { message } => PayloadView::NotJson { message },
        JsonDocument::NotObject => PayloadView::NotObject,
        JsonDocument::Object(members) => PayloadView::Object {
            state: if members.contains_key("state"@) {
                Some(members["state"@])
            } else {
                None
            },
        },
    }
}

/// `std::str::from_utf8` takes bytes for text where they are valid UTF-8, and for nothing
/// otherwise.
#[verifier::external_body]
fn utf8_text(bytes: &[u8]) -> (r: Option<&str>)
    ensures
        match r {
            Some(text) => text.spec_bytes() == bytes@,
            None => !valid_utf8(bytes@),
        },
{
    std::str::from_utf8(bytes).ok()
}

/// Reads a payload; `None` stands for bytes that are not UTF-8.
pub fn read_payload(payload: &Vec<u8>) -> (r: Option<Payload>)
    ensures
        match r {
            Some(read) => valid_utf8(payload@) && read@ == payload_of(
                json_document(decode_utf8(payload@)),
            ),
            None => !valid_utf8(payload@),
        },
{
    match utf8_text(payload.as_slice()) {
        None => None,
        Some(text) => {
            proof {
                encode_utf8_valid_utf8(text@);
                encode_utf8_decode_utf8(text@);
            }
            match parse_json_object(text) {
                Err(err) => Some(Payload::NotJson { message: err.to_string() }),
                Ok(None) => Some(Payload::NotObject),
                Ok(Some(object)) => Some(Payload::Object { state: json_member(&object, "state") }),
            }
        },
    }
}

/// Whether a topic is long enough to hold a switch's name behind the base topic and one more
/// byte, and can be cut there.
pub open spec fn names_switch(topic: Seq<char>, base_topic: Seq<char>) -> bool {
    is_char_boundary(encode_utf8(topic), encode_utf8(base_topic).len() as int + 1)
}

/// What stands in a topic behind the base topic and one more byte.
pub open spec fn switch_in_topic(topic: Seq<char>, base_topic: Seq<char>) -> Seq<char> {
    decode_utf8(encode_utf8(topic).skip(encode_utf8(base_topic).len() as int + 1))
}

/// The name of the switch in a topic; `None` where the topic cannot hold one.
pub fn topic_switch(topic: &str, base_topic: &str) -> (r: Option<String>)
    ensures
        match r {
            Some(name) => names_switch(topic@, base_topic@) && name@ == switch_in_topic(
                topic@,
                base_topic@,
            ),
            None => !names_switch(topic@, base_topic@),
        },
{
    let base_len = base_topic.as_bytes().len();
    let topic_len = topic.as_bytes().len();
    proof {
        encode_utf8_valid_utf8(topic@);
    }
    if base_len >= topic_len || !topic.is_char_boundary(base_len + 1) {
        return None;
    }
    let (_, name) = topic.split_at(base_len + 1);
    proof {
        encode_utf8_decode_utf8(name@);
        assert(topic.spec_bytes().skip(base_len + 1) =~= topic.spec_bytes().subrange(
            base_len + 1,
            topic_len as int,
        ));
    }
    Some(name.to_owned())
}

/// Why a report cannot be understood.
#[derive(Debug)]
pub enum NotificationError {
    NotJson(String),
    UnknownState(BeelayCommonError),
}

/// An error about a report with its message as characters.
pub enum NotificationErrorView {
    NotJson(Seq<char>),
    UnknownState(Seq<char>),
}

impl View for NotificationError {
    type V = NotificationErrorView;

    open spec fn view(&self) -> NotificationErrorView {
        match self {
            NotificationError::NotJson(message) => NotificationErrorView::NotJson(message@),
            NotificationError::UnknownState(err) => NotificationErrorView::UnknownState(err@),
        }
    }
}

impl NotificationErrorView {
    /// How the error is shown.
    pub open spec fn text(self) -> Seq<char> {
        match self {
            NotificationErrorView::NotJson(message) => message,
            NotificationErrorView::UnknownState(message) => common_error_text(message),
        }
    }
}

impl NotificationError {
    /// The text in which the error is shown.
    pub fn to_string(&self) -> (r: String)
        ensures
            r@ == self@.text(),
    {
        match self {
            NotificationError::NotJson(message) => message.clone(),
            NotificationError::UnknownState(err) => err.to_string(),
        }
    }
}

/// A reported switch and its state with the name as characters.
pub open spec fn report_view(report: Option<(String, SwitchState)>) -> Option<
    (Seq<char>, SwitchState),
> {
    match report {
        Some((name, state)) => Some((name@, state)),
        None => None,
    }
}

/// What a message on a topic reports: a switch and its state, nothing where the payload has no
/// state, or an error.
pub open spec fn notification(
    topic: Seq<char>,
    payload: PayloadView,
    base_topic: Seq<char>,
) -> Result<Option<(Seq<char>, SwitchState)>, NotificationErrorView> {
    match payload {
        PayloadView::Object { state: Some(Some(text)) } => match state_named(lowercase(text)) {
            Some(state) => Ok(Some((switch_in_topic(topic, base_topic), state))),
            None => Err(NotificationErrorView::UnknownState(unresolved_message(lowercase(text)))),
        },
        PayloadView::NotJson { message } => Err(NotificationErrorView::NotJson(message)),
        _ => Ok(None),
    }
}

/// Whether a payload can be acted on: one that is JSON is an object, whose state, where it has
/// one, is a string.
pub open spec fn payload_is_sound(payload: PayloadView) -> bool {
    match payload {
        PayloadView::NotJson { .. } => true,
        PayloadView::NotObject => false,
        PayloadView::Object { state } => state != Some(None::<Seq<char>>),
    }
}

/// Reads the name of a state in any letter case.
pub fn read_reported_state(text: &str) -> (r: Result<SwitchState, BeelayCommonError>)
    ensures
        match r {
            Ok(state) => state_named(lowercase(text@)) == Some(state),
            Err(err) => {
                &&& state_named(lowercase(text@)) is None
                &&& err@ == unresolved_message(lowercase(text@))
            },
        },
        is_ascii_chars(text@) ==> lowercase(text@) == ascii_lowercase(text@),
{
    str_to_switch_state(lowercase_text(text).as_str())
}

/// Works out what a message on a topic reports.
pub fn process_notification(topic: &str, payload: &Payload, base_topic: &str) -> (r: Result<
    Option<(String, SwitchState)>,
    NotificationError,
>)
    requires
        names_switch(topic@, base_topic@),
        payload_is_sound(payload@),
    ensures
        match r {
            Ok(report) => notification(topic@, payload@, base_topic@) == Ok::<
                Option<(Seq<char>, SwitchState)>,
                NotificationErrorView,
            >(report_view(report)),
            Err(err) => notification(topic@, payload@, base_topic@) == Err::<
                Option<(Seq<char>, SwitchState)>,
                NotificationErrorView,
            >(err@),
        },
{
    match payload {
        Payload::Object { state: Some(Some(text)) } => match read_reported_state(text.as_str()) {
            Ok(state) => match topic_switch(topic, base_topic) {
                Some(name) => Ok(Some((name, state))),
                None => unreached(),
            },
            Err(err) => Err(NotificationError::UnknownState(err)),
        },
        Payload::NotJson { message } => Err(NotificationError::NotJson(message.clone())),
        _ => Ok(None),
    }
}

/// What an event reports; `None` stands for a message whose topic holds no switch or whose
/// payload cannot be acted on.
pub open spec fn event_report(event: MqttEvent, base_topic: Seq<char>) -> Option<
    Result<Option<(Seq<char>, SwitchState)>, NotificationErrorView>,
> {
    match event {
        MqttEvent::Other => Some(Ok(None)),
        MqttEvent::Publish { topic, payload } => {
            let read = payload_of(json_document(decode_utf8(payload@)));
            if names_switch(topic@, base_topic) && valid_utf8(payload@) && payload_is_sound(read) {
                Some(notification(topic@, read, base_topic))
            } else {
                None
            }
        },
    }
}

/// What was found in an event, with its strings as characters.
pub open spec fn found_report(
    found: Option<Result<Option<(String, SwitchState)>, NotificationError>>,
) -> Option<Result<Option<(Seq<char>, SwitchState)>, NotificationErrorView>> {
    match found {
        None => None,
        Some(Ok(report)) => Some(Ok(report_view(report))),
        Some(Err(err)) => Some(Err(err@)),
    }
}

/// Works out what an event reports, as [`event_report`] defines it.
pub fn process_event(event: &MqttEvent, base_topic: &str) -> (r: Option<
    Result<Option<(String, SwitchState)>, NotificationError>,
>)
    ensures
        found_report(r) == event_report(*event, base_topic@),
{
    match event {
        MqttEvent::Other => Some(Ok(None)),
        MqttEvent::Publish { topic, payload } => {
            if topic_switch(topic.as_str(), base_topic).is_none() {
                return None;
            }
            match read_payload(payload) {
                None => None,
                Some(Payload::NotObject) => None,
                Some(Payload::Object { state: Some(None) }) => None,
                Some(read) => Some(process_notification(topic.as_str(), &read, base_topic)),
            }
        },
    }
}

/// What the caller has to do about an event.
pub enum EventStep {
    /// Nothing: the event reports no state.
    Nothing,
    /// Note the message: what was sent makes no sense, which has to be put up with.
    Tolerate { message: String },
    /// Hand the state of the switch to every listener.
    Forward { switch_name: String, state: SwitchState },
    /// Note that nobody listens.
    NoListeners,
    /// Give up: the message does not have the form of a report.
    Unreadable,
}

/// A step with its strings as characters.
pub enum EventStepView {
    Nothing,
    Tolerate { message: Seq<char> },
    Forward { switch_name: Seq<char>, state: SwitchState },
    NoListeners,
    Unreadable,
}

impl View for EventStep {
    type V = EventStepView;

    open spec fn view(&self) -> EventStepView {
        match self {
            EventStep::Nothing => EventStepView::Nothing,
            EventStep::Tolerate { message } => EventStepView::Tolerate { message: message@ },
            EventStep::Forward { switch_name, state } => EventStepView::Forward {
                switch_name: switch_name@,
                state: *state,
            },
            EventStep::NoListeners => EventStepView::NoListeners,
            EventStep::Unreadable => EventStepView::Unreadable,
        }
    }
}

/// What is to be done about what an event reports.
pub open spec fn event_step(
    report: Option<Result<Option<(Seq<char>, SwitchState)>, NotificationErrorView>>,
    listeners: nat,
) -> EventStepView {
    match report {
        None => EventStepView::Unreadable,
        Some(Err(err)) => EventStepView::Tolerate { message: err.text() },
        Some(Ok(None)) => EventStepView::Nothing,
        Some(Ok(Some((switch_name, state)))) => if listeners > 0 {
            EventStepView::Forward { switch_name, state }
        } else {
            EventStepView::NoListeners
        },
    }
}

/// Decides what to do about what an event reports.
pub fn decide_report(
    found: Option<Result<Option<(String, SwitchState)>, NotificationError>>,
    listeners: usize,
) -> (r: EventStep)
    ensures
        r@ == event_step(found_report(found), listeners as nat),
{
    match found {
        None => EventStep::Unreadable,
        Some(Err(err)) => EventStep::Tolerate { message: err.to_string() },
        Some(Ok(None)) => EventStep::Nothing,
        Some(Ok(Some((switch_name, state)))) => if listeners > 0 {
            EventStep::Forward { switch_name, state }
        } else {
            EventStep::NoListeners
        },
    }
}

/// The client of the network: what it connects to, and whether it goes on.
pub struct MqttClient {
    switch_names: Vec<String>,
    host: String,
    port: u16,
    base_topic: String,
    running: bool,
    connected: bool,
    listeners: usize,
}

/// The client with its strings as characters: `running` says whether it connects again once a
/// connection has ended, `connected` whether it keeps to the connection that it has, `listeners`
/// how many want to hear of reports.
#[verifier::ext_equal]
pub struct ClientView {
    pub switch_names: Seq<Seq<char>>,
    pub host: Seq<char>,
    pub port: u16,
    pub base_topic: Seq<char>,
    pub running: bool,
    pub connected: bool,
    pub listeners: nat,
}

impl View for MqttClient {
    type V = ClientView;

    closed spec fn view(&self) -> ClientView {
        ClientView {
            switch_names: texts(self.switch_names@),
            host: self.host@,
            port: self.port,
            base_topic: self.base_topic@,
            running: self.running,
            connected: self.connected,
            listeners: self.listeners as nat,
        }
    }
}

/// Builds a client that is not connected yet.
pub fn build_mqtt_client(
    switch_names: Vec<String>,
    host: String,
    port: u16,
    base_topic: String,
) -> (r: MqttClient)
    ensures
        r@ == (ClientView {
            switch_names: texts(switch_names@),
            host: host@,
            port,
            base_topic: base_topic@,
            running: true,
            connected: false,
            listeners: 0,
        }),
{
    MqttClient {
        switch_names,
        host,
        port,
        base_topic,
        running: true,
        connected: false,
        listeners: 0,
    }
}

/// What the caller has to do about a command.
pub enum MqttAction {
    /// Send the response.
    Reply { resp: CommandResponse },
    /// Publish the payload on the topic, then send the response.
    Publish { topic: String, payload: String, resp: CommandResponse },
}

/// An action with its strings as characters.
pub enum MqttActionView {
    Reply { resp: CommandResponse },
    Publish { topic: Seq<char>, payload: Seq<char>, resp: CommandResponse },
}

impl View for MqttAction {
    type V = MqttActionView;

    open spec fn view(&self) -> MqttActionView {
        match self {
            MqttAction::Reply { resp } => MqttActionView::Reply { resp: *resp },
            MqttAction::Publish { topic, payload, resp } => MqttActionView::Publish {
                topic: topic@,
                payload: payload@,
                resp: *resp,
            },
        }
    }
}

/// What the client does about a command.
pub open spec fn client_action(client: ClientView, command: CommandView) -> MqttActionView {
    match command {
        CommandView::SetState { switch_name, state } => MqttActionView::Publish {
            topic: command_topic(client.base_topic, switch_name),
            payload: state.text(),
            resp: CommandResponse::Ack,
        },
        _ => MqttActionView::Reply { resp: CommandResponse::Ack },
    }
}

/// The client when a connection begins.
pub open spec fn client_connected(client: ClientView) -> ClientView {
    ClientView { connected: true, ..client }
}

/// The topics that the client subscribes to when a connection begins.
pub open spec fn client_topics(client: ClientView) -> Seq<Seq<char>> {
    client.switch_names.map_values(|name: Seq<char>| report_topic(client.base_topic, name))
}

/// The client after looking for a new listener.
pub open spec fn client_linked(client: ClientView, poll: LinkPoll) -> ClientView {
    ClientView {
        listeners: if poll is Opened {
            client.listeners + 1
        } else {
            client.listeners
        },
        ..client
    }
}

/// The client after a command.
pub open spec fn client_after(client: ClientView, command: CommandView) -> ClientView {
    ClientView {
        running: client.running && !(command is Stop),
        connected: client.connected && !(command is Stop) && !(command is Reset),
        ..client
    }
}

impl MqttClient {
    /// Whether the client connects again once a connection has ended.
    pub fn is_running(&self) -> (r: bool)
        ensures
            r == self@.running,
    {
        self.running
    }

    /// Whether the client keeps to the connection that it has.
    pub fn is_connected(&self) -> (r: bool)
        ensures
            r == self@.connected,
    {
        self.connected
    }

    /// The host of the broker.
    pub fn get_host(&self) -> (r: &str)
        ensures
            r@ == self@.host,
    {
        self.host.as_str()
    }

    /// The port of the broker.
    pub fn get_port(&self) -> (r: u16)
        ensures
            r == self@.port,
    {
        self.port
    }

    /// The topic below which the switches report.
    pub fn get_base_topic(&self) -> (r: &str)
        ensures
            r@ == self@.base_topic,
    {
        self.base_topic.as_str()
    }

    /// Notes that a connection begins.
    pub fn connect(&mut self)
        ensures
            final(self)@ == client_connected(old(self)@),
    {
        self.connected = true;
    }

    /// Takes note of a new listener, where one was found; a lost channel is an error.
    pub fn process_next_state_link_request(&mut self, poll: LinkPoll) -> (r: Result<
        (),
        BeelayMqttClientError,
    >)
        requires
            poll is Opened ==> old(self)@.listeners < usize::MAX,
        ensures
            final(self)@ == client_linked(old(self)@, poll),
            r is Err <==> poll is Disconnected,
            r matches Err(err) ==> err@ == Link::StateLinks.lost(),
    {
        match poll {
            LinkPoll::Opened => {
                self.listeners = self.listeners + 1;
                Ok(())
            },
            LinkPoll::Empty => Ok(()),
            LinkPoll::Disconnected => Err(Link::StateLinks.disconnected()),
        }
    }

    /// Decides what to do about a command, where one was found; a lost channel is an error.
    pub fn process_next_command(&mut self, poll: CommandPoll) -> (r: Result<
        Option<MqttAction>,
        BeelayMqttClientError,
    >)
        ensures
            match poll {
                CommandPoll::Received { command } => {
                    &&& r matches Ok(Some(action)) && action@ == client_action(
                        old(self)@,
                        command@,
                    )
                    &&& final(self)@ == client_after(old(self)@, command@)
                },
                CommandPoll::Empty => r == Ok::<Option<MqttAction>, BeelayMqttClientError>(None)
                    && final(self)@ == old(self)@,
                CommandPoll::Disconnected => {
                    &&& r matches Err(err) && err@ == Link::Commands.lost()
                    &&& final(self)@ == old(self)@
                },
            },
    {
        match poll {
            CommandPoll::Received { command } => Ok(Some(self.run_command(&command))),
            CommandPoll::Empty => Ok(None),
            CommandPoll::Disconnected => Err(Link::Commands.disconnected()),
        }
    }

    /// Decides what to do about an event, where one was found; a lost channel is an error.
    pub fn process_next_event(&self, poll: EventPoll) -> (r: Result<
        EventStep,
        BeelayMqttClientError,
    >)
        ensures
            match poll {
                EventPoll::Received { event } => r matches Ok(step) && step@ == event_step(
                    event_report(event, self@.base_topic),
                    self@.listeners,
                ),
                EventPoll::Empty => r matches Ok(step) && step@ == EventStepView::Nothing,
                EventPoll::Disconnected => r matches Err(err) && err@ == Link::Events.lost(),
            },
    {
        match poll {
            EventPoll::Received { event } => {
                let found = process_event(&event, self.base_topic.as_str());
                Ok(decide_report(found, self.listeners))
            },
            EventPoll::Empty => Ok(EventStep::Nothing),
            EventPoll::Disconnected => Err(Link::Events.disconnected()),
        }
    }

    /// The topics to subscribe to when a connection begins: those on which the switches report.
    pub fn subscriptions(&self) -> (r: Vec<String>)
        ensures
            texts(r@) == client_topics(self@),
    {
        let ghost expected = client_topics(self@);
        let mut topics: Vec<String> = Vec::new();
        let mut i: usize = 0;
        while i < self.switch_names.len()
            invariant
                i <= self.switch_names@.len(),
                expected == texts(self.switch_names@).map_values(
                    |name: Seq<char>| report_topic(self.base_topic@, name),
                ),
                texts(topics@) == expected.take(i as int),
            decreases self.switch_names@.len() - i,
        {
            let ghost before = texts(topics@);
            let topic = self.base_topic.clone().concat("/").concat(self.switch_names[i].as_str());
            topics.push(topic);
            assert(texts(topics@) =~= before.push(expected[i as int]));
            assert(texts(topics@) =~= expected.take(i + 1));
            i += 1;
        }
        assert(expected.take(i as int) =~= expected);
        topics
    }

    /// Decides what to do about a command. A stop ends the client, a reset only the connection.
    pub fn run_command(&mut self, command: &Command) -> (r: MqttAction)
        ensures
            r@ == client_action(old(self)@, command@),
            final(self)@ == client_after(old(self)@, command@),
    {
        match command {
            Command::Ping => MqttAction::Reply { resp: CommandResponse::Ack },
            Command::SetState { switch_name, state } => {
                let topic = self.base_topic.clone().concat("/").concat(
                    switch_name.as_str(),
                ).concat("/set");
                let payload = match switch_state_to_str(*state) {
                    Ok(text) => text,
                    Err(_) => unreached(),
                };
                MqttAction::Publish { topic, payload, resp: CommandResponse::Ack }
            },
            Command::Stop => {
                self.connected = false;
                self.running = false;
                MqttAction::Reply { resp: CommandResponse::Ack }
            },
            Command::Reset => {
                self.connected = false;
                MqttAction::Reply { resp: CommandResponse::Ack }
            },
        }
    }
}

/// A stand-in for the network: it remembers the state that each switch was commanded to and
/// reports it from time to time.
pub struct MqttClientSimulator {
    interval: u128,
    states: Vec<(String, SwitchState)>,
    running: bool,
    listeners: usize,
}

/// The states of the simulated switches, in the order in which the switches were first
/// commanded.
pub open spec fn state_list(states: Seq<(String, SwitchState)>) -> Seq<(Seq<char>, SwitchState)> {
    states.map_values(|entry: (String, SwitchState)| (entry.0@, entry.1))
}

/// The simulation with its strings as characters; the interval is in nanoseconds, `listeners` says
/// how many want to hear of reports.
#[verifier::ext_equal]
pub struct SimulatorView {
    pub interval: u128,
    pub states: Seq<(Seq<char>, SwitchState)>,
    pub running: bool,
    pub listeners: nat,
}

impl View for MqttClientSimulator {
    type V = SimulatorView;

    closed spec fn view(&self) -> SimulatorView {
        SimulatorView {
            interval: self.interval,
            states: state_list(self.states@),
            running: self.running,
            listeners: self.listeners as nat,
        }
    }
}

impl SimulatorView {
    /// Where a switch stands in the list of states.
    pub open spec fn position(self, name: Seq<char>, i: int) -> bool {
        0 <= i < self.states.len() && self.states[i].0 == name
    }

    /// Whether no switch is listed twice.
    pub open spec fn well_formed(self) -> bool {
        forall|i: int, j: int|
            0 <= i < j < self.states.len() ==> (#[trigger] self.states[i]).0 != (
            #[trigger] self.states[j]).0
    }

    /// The states by switch.
    pub open spec fn state_map(self) -> Map<Seq<char>, SwitchState> {
        Map::new(
            |name: Seq<char>| exists|i: int| self.position(name, i),
            |name: Seq<char>| self.states[choose|i: int| self.position(name, i)].1,
        )
    }
}

/// Builds a simulation that reports at the given interval, in nanoseconds, and knows of no
/// switch yet.
pub fn build_mqtt_simulation_client(state_update_interval: u128) -> (r: MqttClientSimulator)
    ensures
        r@ == (SimulatorView {
            interval: state_update_interval,
            states: Seq::empty(),
            running: true,
            listeners: 0,
        }),
        r@.well_formed(),
        r@.state_map() == Map::<Seq<char>, SwitchState>::empty(),
{
    let r = MqttClientSimulator {
        interval: state_update_interval,
        states: Vec::new(),
        running: true,
        listeners: 0,
    };
    assert(r@.states =~= Seq::empty());
    r
}

/// What the caller has to do on the simulation's turn.
pub enum SimulatorStep {
    /// Send the response.
    Respond { resp: CommandResponse },
    /// Wait a moment: nobody listens.
    Rest,
    /// Look again: it is not yet time to report.
    Poll,
    /// Measure the interval anew: it is time, but there is nothing to report.
    Rearm,
    /// Measure the interval anew and report the states one by one, with a pause of that many
    /// nanoseconds after each.
    Report { states: Vec<(String, SwitchState)>, pause: u128 },
}

/// A step with its strings as characters.
pub enum SimulatorStepView {
    Respond { resp: CommandResponse },
    Rest,
    Poll,
    Rearm,
    Report { states: Seq<(Seq<char>, SwitchState)>, pause: int },
}

impl View for SimulatorStep {
    type V = SimulatorStepView;

    open spec fn view(&self) -> SimulatorStepView {
        match self {
            SimulatorStep::Respond { resp } => SimulatorStepView::Respond { resp: *resp },
            SimulatorStep::Rest => SimulatorStepView::Rest,
            SimulatorStep::Poll => SimulatorStepView::Poll,
            SimulatorStep::Rearm => SimulatorStepView::Rearm,
            SimulatorStep::Report { states, pause } => SimulatorStepView::Report {
                states: state_list(states@),
                pause: *pause as int,
            },
        }
    }
}

/// How many switches an interval is divided by: their number, of which only the lowest 32 bits
/// count.
pub open spec fn interval_parts(count: nat) -> int {
    count as int % 0x1_0000_0000
}

/// Whether it is time to report so many switches that the interval would be divided by zero.
pub open spec fn idle_breaks_off(sim: SimulatorView, elapsed: u128) -> bool {
    sim.listeners > 0 && elapsed > sim.interval && sim.states.len() > 0 && interval_parts(
        sim.states.len(),
    ) == 0
}

/// What the simulation does while no command waits, from the time since the interval was last
/// measured anew: once the interval is over it reports, and the pauses fill the next interval.
pub open spec fn idle_step(sim: SimulatorView, elapsed: u128) -> SimulatorStepView {
    if sim.listeners == 0 {
        SimulatorStepView::Rest
    } else if elapsed <= sim.interval {
        SimulatorStepView::Poll
    } else if sim.states.len() == 0 {
        SimulatorStepView::Rearm
    } else {
        SimulatorStepView::Report {
            states: sim.states,
            pause: sim.interval as int / interval_parts(sim.states.len()),
        }
    }
}

/// Whether the simulation did what a command asks: one to set a switch gives that switch its new
/// state and leaves the others as they are, in whatever order; any other leaves all states as they
/// are; and one to stop ends the run.
pub open spec fn simulator_obeyed(
    before: SimulatorView,
    command: CommandView,
    after: SimulatorView,
) -> bool {
    &&& after.interval == before.interval
    &&& after.listeners == before.listeners
    &&& after.running == (before.running && !(command is Stop))
    &&& match command {
        CommandView::SetState { switch_name, state } => after.state_map()
            == before.state_map().insert(switch_name, state),
        _ => after.states == before.states,
    }
}

impl MqttClientSimulator {
    /// Whether the simulation takes further commands.
    pub fn is_running(&self) -> (r: bool)
        ensures
            r == self@.running,
    {
        self.running
    }

    /// Whether the simulation could not idle, as [`idle_breaks_off`] defines it.
    pub fn breaks_off(&self, elapsed: u128) -> (r: bool)
        ensures
            r == idle_breaks_off(self@, elapsed),
    {
        assert(self@.states.len() == self.states@.len());
        let count: u128 = self.states.len() as u128;
        self.listeners > 0 && elapsed > self.interval && count > 0 && count % 0x1_0000_0000 == 0
    }

    /// Carries out a command and answers it: a switch that is set is remembered with its new
    /// state.
    pub fn run_command(&mut self, command: &Command) -> (r: CommandResponse)
        requires
            old(self)@.well_formed(),
        ensures
            r == CommandResponse::Ack,
            final(self)@.well_formed(),
            simulator_obeyed(old(self)@, command@, final(self)@),
    {
        match command {
            Command::SetState { switch_name, state } => {
                self.remember(switch_name.as_str(), *state);
            },
            Command::Stop => {
                self.running = false;
                assert(self@.states == old(self)@.states);
            },
            Command::Ping | Command::Reset => {},
        }
        CommandResponse::Ack
    }

    /// Remembers the state of a switch in place of the one known before.
    fn remember(&mut self, switch_name: &str, state: SwitchState)
        requires
            old(self)@.well_formed(),
        ensures
            final(self)@.well_formed(),
            final(self)@.interval == old(self)@.interval,
            final(self)@.running == old(self)@.running,
            final(self)@.listeners == old(self)@.listeners,
            final(self)@.state_map() == old(self)@.state_map().insert(switch_name@, state),
    {
        let ghost before = self@;
        let mut i: usize = 0;
        while i < self.states.len()
            invariant
                i <= self.states@.len(),
                self@ == before,
                before == old(self)@,
                before.well_formed(),
                forall|j: int| 0 <= j < i ==> (#[trigger] before.states[j]).0 != switch_name@,
            decreases self.states@.len() - i,
        {
            assert(before.states[i as int].0 == self.states@[i as int].0@);
            if same_text(self.states[i].0.as_str(), switch_name) {
                self.states[i] = (switch_name.to_owned(), state);
                proof {
                    assert(self@.states =~= before.states.update(i as int, (switch_name@, state)));
                    lemma_states_updated(before, self@, i as int, switch_name@, state);
                }
                return ;
            }
            i += 1;
        }
        self.states.push((switch_name.to_owned(), state));
        proof {
            assert(self@.states =~= before.states.push((switch_name@, state)));
            lemma_states_extended(before, self@, switch_name@, state);
        }
    }

    /// Takes note of a new listener, where one was found; a lost channel is an error.
    pub fn process_next_state_link_request(&mut self, poll: LinkPoll) -> (r: Result<
        (),
        BeelayMqttClientError,
    >)
        requires
            poll is Opened ==> old(self)@.listeners < usize::MAX,
        ensures
            final(self)@ == (SimulatorView {
                listeners: if poll is Opened {
                    old(self)@.listeners + 1
                } else {
                    old(self)@.listeners
                },
                ..old(self)@
            }),
            r is Err <==> poll is Disconnected,
            r matches Err(err) ==> err@ == Link::StateLinks.lost(),
    {
        match poll {
            LinkPoll::Opened => {
                self.listeners = self.listeners + 1;
                Ok(())
            },
            LinkPoll::Empty => Ok(()),
            LinkPoll::Disconnected => Err(Link::StateLinks.disconnected()),
        }
    }

    /// Takes the simulation's turn: it carries out a command, where one was found, or decides
    /// what to do meanwhile; a lost channel is an error.
    pub fn process_next_command(&mut self, poll: CommandPoll, elapsed: u128) -> (r: Result<
        SimulatorStep,
        BeelayMqttClientError,
    >)
        requires
            old(self)@.well_formed(),
            poll is Empty ==> !idle_breaks_off(old(self)@, elapsed),
        ensures
            final(self)@.well_formed(),
            match poll {
                CommandPoll::Received { command } => {
                    &&& r == Ok::<SimulatorStep, BeelayMqttClientError>(
                        SimulatorStep::Respond { resp: CommandResponse::Ack },
                    )
                    &&& simulator_obeyed(old(self)@, command@, final(self)@)
                },
                CommandPoll::Empty => {
                    &&& r matches Ok(step) && step@ == idle_step(old(self)@, elapsed)
                    &&& final(self)@ == old(self)@
                },
                CommandPoll::Disconnected => {
                    &&& r matches Err(err) && err@ == Link::SimulatedCommands.lost()
                    &&& final(self)@ == old(self)@
                },
            },
    {
        match poll {
            CommandPoll::Received { command } => Ok(
                SimulatorStep::Respond { resp: self.run_command(&command) },
            ),
            CommandPoll::Empty => Ok(self.idle(elapsed)),
            CommandPoll::Disconnected => Err(Link::SimulatedCommands.disconnected()),
        }
    }

    /// Decides what to do while no command waits, from the time since the interval was last
    /// measured anew.
    fn idle(&self, elapsed: u128) -> (r: SimulatorStep)
        requires
            !idle_breaks_off(self@, elapsed),
        ensures
            r@ == idle_step(self@, elapsed),
    {
        if self.listeners == 0 {
            return SimulatorStep::Rest;
        }
        if elapsed <= self.interval {
            return SimulatorStep::Poll;
        }
        assert(self@.states.len() == self.states@.len());
        if self.states.len() == 0 {
            return SimulatorStep::Rearm;
        }
        let count: u128 = self.states.len() as u128;
        let pause = self.interval / (count % 0x1_0000_0000);
        let mut states: Vec<(String, SwitchState)> = Vec::new();
        let mut i: usize = 0;
        while i < self.states.len()
            invariant
                i <= self.states@.len(),
                state_list(states@) == state_list(self.states@).take(i as int),
            decreases self.states@.len() - i,
        {
            let ghost known = state_list(states@);
            states.push((self.states[i].0.clone(), self.states[i].1));
            assert(state_list(states@) =~= known.push(state_list(self.states@)[i as int]));
            assert(state_list(states@) =~= state_list(self.states@).take(i + 1));
            i += 1;
        }
        assert(state_list(self.states@).take(i as int) =~= state_list(self.states@));
        SimulatorStep::Report { states, pause }
    }
}

/// Changing the state of a listed switch changes that switch's state and nothing else.
proof fn lemma_states_updated(
    before: SimulatorView,
    after: SimulatorView,
    i: int,
    name: Seq<char>,
    state: SwitchState,
)
    requires
        before.well_formed(),
        before.position(name, i),
        after.states == before.states.update(i, (name, state)),
    ensures
        after.well_formed(),
        after.state_map() == before.state_map().insert(name, state),
{
    assert forall|n: Seq<char>, k: int| before.position(n, k) == after.position(n, k) by {}
    assert(after.position(name, i));
    assert forall|n: Seq<char>| after.state_map().contains_key(n) implies #[trigger]
        after.state_map()[n] == before.state_map().insert(name, state)[n] by {
        let k = choose|k: int| after.position(n, k);
        let b = choose|b: int| before.position(n, b);
        assert(before.position(n, k));
        assert(before.states[k].0 == before.states[b].0);
        if n == name {
            assert(before.states[k].0 == before.states[i].0);
        }
    }
    assert(after.state_map() =~= before.state_map().insert(name, state));
}

/// Listing a new switch adds that switch's state and changes nothing else.
proof fn lemma_states_extended(
    before: SimulatorView,
    after: SimulatorView,
    name: Seq<char>,
    state: SwitchState,
)
    requires
        before.well_formed(),
        forall|i: int| !before.position(name, i),
        after.states == before.states.push((name, state)),
    ensures
        after.well_formed(),
        after.state_map() == before.state_map().insert(name, state),
{
    let last = before.states.len() as int;
    assert forall|i: int| 0 <= i < last implies (#[trigger] before.states[i]).0 != name by {
        assert(!before.position(name, i));
    }
    assert(after.position(name, last));
    assert forall|n: Seq<char>, k: int| before.position(n, k) implies after.position(n, k) by {}
    assert forall|n: Seq<char>, k: int|
        after.position(n, k) && n != name implies before.position(n, k) by {}
    assert forall|n: Seq<char>| after.state_map().contains_key(n) implies #[trigger]
        after.state_map()[n] == before.state_map().insert(name, state)[n] by {
        let k = choose|k: int| after.position(n, k);
        if n != name {
            let b = choose|b: int| before.position(n, b);
            assert(before.position(n, k));
            assert(before.states[k].0 == before.states[b].0);
        }
    }
    assert(after.state_map() =~= before.state_map().insert(name, state));
}

/// A switch that the simulation was commanded to set is in its next report, with the commanded
/// state.
pub proof fn commanded_state_is_reported(
    before: SimulatorView,
    switch_name: Seq<char>,
    state: SwitchState,
    after: SimulatorView,
    elapsed: u128,
)
    requires
        simulator_obeyed(before, CommandView::SetState { switch_name, state }, after),
        after.listeners > 0,
        elapsed > after.interval,
    ensures
        idle_step(after, elapsed) matches SimulatorStepView::Report { states, .. }
            && states.contains((switch_name, state)),
{
    assert(before.state_map().insert(switch_name, state).contains_key(switch_name));
    assert(after.state_map().contains_key(switch_name));
    let i = choose|i: int| after.position(switch_name, i);
    assert(after.state_map()[switch_name] == state);
    assert(after.states[i] == (switch_name, state));
}

/// The error about a command that got no response.
pub open spec fn no_response() -> Seq<char> {
    "None response from MqttClientCtrl channel"@
}

/// The error about a response that does not fit its command.
pub open spec fn unexpected_response(resp: CommandResponse) -> Seq<char> {
    "Unexpected response from MqttClientCtrl channel: "@ + resp.text()
}

/// The caller's side of the client: which command each request sends and what its response
/// means. Sending the command and waiting for the response is left to the caller.
pub struct MqttClientCtrl {}

impl MqttClientCtrl {
    /// The command that asks for a sign of life.
    pub fn ping_command() -> (r: Command)
        ensures
            r@ == CommandView::Ping,
    {
        Command::Ping
    }

    /// What the response to [`Self::ping_command`] means.
    pub fn ping(resp: Option<CommandResponse>) -> (r: Result<(), BeelayMqttClientError>)
        ensures
            r is Ok <==> resp is Some,
            r matches Err(err) ==> err@ == no_response(),
    {
        MqttClientCtrl::expect_ack(resp)
    }

    /// The command that sets a switch.
    pub fn set_command(switch_name: &str, switch_state: SwitchState) -> (r: Command)
        ensures
            r@ == (CommandView::SetState { switch_name: switch_name@, state: switch_state }),
    {
        Command::SetState { switch_name: switch_name.to_owned(), state: switch_state }
    }

    /// What the response to [`Self::set_command`] means.
    pub fn set(resp: Option<CommandResponse>) -> (r: Result<(), BeelayMqttClientError>)
        ensures
            r is Ok <==> resp is Some,
            r matches Err(err) ==> err@ == no_response(),
    {
        MqttClientCtrl::expect_ack(resp)
    }

    /// The command that ends the connection and begins another.
    pub fn reset_command() -> (r: Command)
        ensures
            r@ == CommandView::Reset,
    {
        Command::Reset
    }

    /// What the response to [`Self::reset_command`] means.
    pub fn reset(resp: Option<CommandResponse>) -> (r: Result<(), BeelayMqttClientError>)
        ensures
            r is Ok <==> resp is Some,
            r matches Err(err) ==> err@ == no_response(),
    {
        MqttClientCtrl::expect_ack(resp)
    }

    /// The command that ends the client's run.
    pub fn stop_command() -> (r: Command)
        ensures
            r@ == CommandView::Stop,
    {
        Command::Stop
    }

    /// What the response to [`Self::stop_command`] means.
    pub fn stop(resp: Option<CommandResponse>) -> (r: Result<(), BeelayMqttClientError>)
        ensures
            r is Ok <==> resp is Some,
            r matches Err(err) ==> err@ == no_response(),
    {
        MqttClientCtrl::expect_ack(resp)
    }

    /// Takes an acknowledgement and nothing else.
    fn expect_ack(resp: Option<CommandResponse>) -> (r: Result<(), BeelayMqttClientError>)
        ensures
            r is Ok <==> resp is Some,
            r matches Err(err) ==> err@ == no_response(),
    {
        match resp {
            Some(resp) => if resp.is_ack() {
                Ok(())
            } else {
                Err(MqttClientCtrl::unexpected_response_err(resp))
            },
            None => Err(MqttClientCtrl::none_response_err()),
        }
    }

    /// The error about a command that got no response.
    fn none_response_err() -> (r: BeelayMqttClientError)
        ensures
            r@ == no_response(),
    {
        BeelayMqttClientError::new("None response from MqttClientCtrl channel")
    }

    /// The error about a response that does not fit its command.
    fn unexpected_response_err(resp: CommandResponse) -> (r: BeelayMqttClientError)
        ensures
            r@ == unexpected_response(resp),
    {
        let message = "Unexpected response from MqttClientCtrl channel: ".to_owned().concat(
            resp.to_string().as_str(),
        );
        BeelayMqttClientError::new(message.as_str())
    }
}

/// The bytes of two texts put together are the bytes of the one and then the other, and they can
/// be cut between the two.
proof fn lemma_bytes_of_concat(a: Seq<char>, b: Seq<char>)
    ensures
        encode_utf8(a + b) == encode_utf8(a) + encode_utf8(b),
        is_char_boundary(encode_utf8(a + b), encode_utf8(a).len() as int),
    decreases a.len(),
{
    encode_utf8_valid_utf8(a + b);
    if a.len() == 0 {
        assert(a + b =~= b);
        assert(encode_utf8(a) + encode_utf8(b) =~= encode_utf8(b));
    } else {
        let rest = a.drop_first();
        lemma_bytes_of_concat(rest, b);
        assert((a + b).drop_first() =~= rest + b);
        assert(encode_utf8(a + b) =~= encode_utf8(a) + encode_utf8(b));
        encode_utf8_first_scalar(a + b);
        assert(pop_first_scalar(encode_utf8(a + b)) =~= encode_utf8(rest + b));
    }
}

/// The topic on which a switch reports names that switch.
pub proof fn report_topic_names_the_switch(base_topic: Seq<char>, switch_name: Seq<char>)
    ensures
        names_switch(report_topic(base_topic, switch_name), base_topic),
        switch_in_topic(report_topic(base_topic, switch_name), base_topic) == switch_name,
{
    reveal_strlit("/");
    let prefix = base_topic + "/"@;
    let topic = prefix + switch_name;
    lemma_bytes_of_concat(base_topic, "/"@);
    lemma_bytes_of_concat(prefix, switch_name);
    assert(is_ascii_chars("/"@));
    is_ascii_chars_encode_utf8("/"@);
    assert(encode_utf8(prefix).len() == encode_utf8(base_topic).len() + 1);
    assert(encode_utf8(topic).skip(encode_utf8(prefix).len() as int) =~= encode_utf8(switch_name));
    encode_utf8_decode_utf8(switch_name);
}

/// A report that a switch sends on its topic is taken for that switch, with the state that it
/// names in any letter case.
pub proof fn report_is_taken_for_its_switch(
    base_topic: Seq<char>,
    switch_name: Seq<char>,
    text: Seq<char>,
    state: SwitchState,
)
    requires
        state_named(lowercase(text)) == Some(state),
    ensures
        notification(
            report_topic(base_topic, switch_name),
            PayloadView::Object { state: Some(Some(text)) },
            base_topic,
        ) == Ok::<Option<(Seq<char>, SwitchState)>, NotificationErrorView>(
            Some((switch_name, state)),
        ),
{
    report_topic_names_the_switch(base_topic, switch_name);
}

/// Two switches report on different topics, and take commands on different topics.
pub proof fn topics_do_not_collide(base_topic: Seq<char>, a: Seq<char>, b: Seq<char>)
    requires
        a != b,
    ensures
        report_topic(base_topic, a) != report_topic(base_topic, b),
        command_topic(base_topic, a) != command_topic(base_topic, b),
{
    let prefix = base_topic + "/"@;
    assert((prefix + a).skip(prefix.len() as int) =~= a);
    assert((prefix + b).skip(prefix.len() as int) =~= b);
    let cut = prefix.len() as int;
    assert(command_topic(base_topic, a).skip(cut) =~= a + "/set"@);
    assert(command_topic(base_topic, b).skip(cut) =~= b + "/set"@);
    assert((a + "/set"@).take(a.len() as int) =~= a);
    assert((b + "/set"@).take(b.len() as int) =~= b);
}

/// What the client publishes to command a switch is the name of the commanded state, which is
/// read as that state.
pub proof fn command_is_read_as_its_state(
    client: ClientView,
    switch_name: Seq<char>,
    state: SwitchState,
)
    ensures
        client_action(
            client,
            CommandView::SetState { switch_name, state },
        ) matches MqttActionView::Publish { topic, payload, resp } && topic == command_topic(
            client.base_topic,
            switch_name,
        ) && state_named(payload) == Some(state),
{
    state_name_round_trip(state);
}

/// One turn of a connection: the command that was found, if any, and whether taking, carrying out
/// or answering it failed; what looking for a new listener gave; and whether handing on an event
/// failed.
pub struct ClientTurn {
    pub command: Option<CommandView>,
    pub command_fails: bool,
    pub link: LinkPoll,
    pub event_fails: bool,
}

/// The client after the command of a turn.
pub open spec fn client_commanded(client: ClientView, turn: ClientTurn) -> ClientView {
    match turn.command {
        Some(command) => client_after(client, command),
        None => client,
    }
}

/// The client after a turn; a command that fails leaves the listeners to the next connection.
pub open spec fn client_turned(client: ClientView, turn: ClientTurn) -> ClientView {
    if turn.command_fails {
        client_commanded(client, turn)
    } else {
        client_linked(client_commanded(client, turn), turn.link)
    }
}

/// Whether a turn ends its connection with an error.
pub open spec fn turn_fails(turn: ClientTurn) -> bool {
    turn.command_fails || turn.link is Disconnected || turn.event_fails
}

/// The client after a connection: it takes one turn after the other until a command or an error
/// ends the connection.
pub open spec fn connection_run(client: ClientView, turns: Seq<ClientTurn>) -> ClientView
    decreases turns.len(),
{
    if !client.connected || turns.len() == 0 {
        client
    } else if turn_fails(turns[0]) {
        client_turned(client, turns[0])
    } else {
        connection_run(client_turned(client, turns[0]), turns.skip(1))
    }
}

/// A run of the client: the client after it, and the topics that it subscribed to at the beginning
/// of each connection.
pub struct ClientRun {
    pub client: ClientView,
    pub subscribed: Seq<Seq<Seq<char>>>,
}

/// The run of the client over a list of connections: while it runs, one follows the other.
pub open spec fn client_run(client: ClientView, connections: Seq<Seq<ClientTurn>>) -> ClientRun
    decreases connections.len(),
{
    if !client.running || connections.len() == 0 {
        ClientRun { client, subscribed: Seq::empty() }
    } else {
        let after = connection_run(client_connected(client), connections[0]);
        let rest = client_run(after, connections.skip(1));
        ClientRun {
            client: rest.client,
            subscribed: seq![client_topics(client)] + rest.subscribed,
        }
    }
}

/// Whether a connection takes a command to stop: one comes in a turn that the connection reaches.
pub open spec fn takes_stop(turns: Seq<ClientTurn>) -> bool
    decreases turns.len(),
{
    if turns.len() == 0 {
        false
    } else if turns[0].command == Some(CommandView::Stop) {
        true
    } else if turns[0].command == Some(CommandView::Reset) || turn_fails(turns[0]) {
        false
    } else {
        takes_stop(turns.skip(1))
    }
}

/// Whether two states of the client differ in nothing that a connection has no say in: the
/// switches and the broker are the same, and no listener is lost.
pub open spec fn client_kept(before: ClientView, after: ClientView) -> bool {
    &&& after.switch_names == before.switch_names
    &&& after.host == before.host
    &&& after.port == before.port
    &&& after.base_topic == before.base_topic
    &&& before.listeners <= after.listeners
}

/// A connection ends the client's run exactly where it takes a command to stop; it loses no
/// listener and leaves the switches and the broker as they are.
pub proof fn only_stop_ends_the_client(client: ClientView, turns: Seq<ClientTurn>)
    requires
        client.connected,
    ensures
        connection_run(client, turns).running == (client.running && !takes_stop(turns)),
        client_kept(client, connection_run(client, turns)),
    decreases turns.len(),
{
    reveal_with_fuel(connection_run, 2);
    if turns.len() > 0 && !turn_fails(turns[0]) {
        let after = client_turned(client, turns[0]);
        if after.connected {
            only_stop_ends_the_client(after, turns.skip(1));
        }
    }
}

/// A command to reset ends the connection, and with it the turns that the connection takes, but
/// not the run.
pub proof fn reset_ends_the_connection(client: ClientView, turns: Seq<ClientTurn>)
    requires
        client.connected,
        turns.len() > 0,
        turns[0].command == Some(CommandView::Reset),
    ensures
        connection_run(client, turns) == client_turned(client, turns[0]),
        !client_turned(client, turns[0]).connected,
        client_turned(client, turns[0]).running == client.running,
{
    reveal_with_fuel(connection_run, 2);
}

/// The client runs until a command to stop: every connection that ends otherwise, by a reset or an
/// error, is followed by another, each of them subscribes to the topics of all switches, and no
/// listener is lost.
pub proof fn client_runs_until_stopped(client: ClientView, connections: Seq<Seq<ClientTurn>>)
    requires
        client.running,
        forall|i: int| 0 <= i < connections.len() ==> !takes_stop(#[trigger] connections[i]),
    ensures
        client_run(client, connections).client.running,
        client_run(client, connections).subscribed.len() == connections.len(),
        forall|i: int|
            0 <= i < connections.len() ==> #[trigger] client_run(client, connections).subscribed[i]
                == client_topics(client),
        client_kept(client, client_run(client, connections).client),
    decreases connections.len(),
{
    if connections.len() > 0 {
        let after = connection_run(client_connected(client), connections[0]);
        let rest = connections.skip(1);
        assert(!takes_stop(connections[0]));
        only_stop_ends_the_client(client_connected(client), connections[0]);
        assert forall|i: int| 0 <= i < rest.len() implies !takes_stop(#[trigger] rest[i]) by {
            assert(rest[i] == connections[i + 1]);
        }
        client_runs_until_stopped(after, rest);
        assert forall|i: int| 0 <= i < connections.len() implies #[trigger] client_run(
            client,
            connections,
        ).subscribed[i] == client_topics(client) by {
            if i > 0 {
                assert(client_run(client, connections).subscribed[i] == client_run(
                    after,
                    rest,
                ).subscribed[i - 1]);
            }
        }
    }
}

/// The first connection that takes a command to stop is the last one: the client's run ends with
/// it.
pub proof fn stop_ends_the_run(
    client: ClientView,
    connections: Seq<Seq<ClientTurn>>,
    stop: int,
)
    requires
        client.running,
        0 <= stop < connections.len(),
        takes_stop(connections[stop]),
        forall|i: int| 0 <= i < stop ==> !takes_stop(#[trigger] connections[i]),
    ensures
        !client_run(client, connections).client.running,
        client_run(client, connections).subscribed.len() == stop + 1,
        forall|i: int|
            0 <= i <= stop ==> #[trigger] client_run(client, connections).subscribed[i]
                == client_topics(client),
        client_kept(client, client_run(client, connections).client),
    decreases stop,
{
    let after = connection_run(client_connected(client), connections[0]);
    reveal_with_fuel(client_run, 2);
    let rest = connections.skip(1);
    only_stop_ends_the_client(client_connected(client), connections[0]);
    if stop > 0 {
        assert(!takes_stop(connections[0]));
        assert(rest[stop - 1] == connections[stop]);
        assert forall|i: int| 0 <= i < stop - 1 implies !takes_stop(#[trigger] rest[i]) by {
            assert(rest[i] == connections[i + 1]);
        }
        stop_ends_the_run(after, rest, stop - 1);
        assert forall|i: int| 0 <= i <= stop implies #[trigger] client_run(
            client,
            connections,
        ).subscribed[i] == client_topics(client) by {
            if i > 0 {
                assert(client_run(client, connections).subscribed[i] == client_run(
                    after,
                    rest,
                ).subscribed[i - 1]);
            }
        }
    }
}

/// Someone who listens once hears of every report on every later connection.
pub proof fn listeners_outlast_connections(
    client: ClientView,
    connections: Seq<Seq<ClientTurn>>,
    switch_name: Seq<char>,
    state: SwitchState,
)
    requires
        client.running,
        client.listeners > 0,
    ensures
        event_step(
            Some(Ok(Some((switch_name, state)))),
            client_run(client, connections).client.listeners,
        ) == (EventStepView::Forward { switch_name, state }),
    decreases connections.len(),
{
    reveal_with_fuel(client_run, 2);
    if connections.len() > 0 {
        let after = connection_run(client_connected(client), connections[0]);
        only_stop_ends_the_client(client_connected(client), connections[0]);
        if after.running {
            listeners_outlast_connections(after, connections.skip(1), switch_name, state);
        }
    }
}

/// A switch takes commands on the topic on which it reports with `/set` behind it, and it reports
/// on the base topic with a slash and its name behind it. So the topics of one switch below two
/// base topics differ.
pub proof fn topics_begin_with_the_base_topic(
    base_topic: Seq<char>,
    other_base: Seq<char>,
    switch_name: Seq<char>,
)
    ensures
        report_topic(base_topic, switch_name) == base_topic + "/"@ + switch_name,
        command_topic(base_topic, switch_name) == report_topic(base_topic, switch_name) + "/set"@,
        report_topic(base_topic, switch_name).take(base_topic.len() as int) == base_topic,
        command_topic(base_topic, switch_name).take(base_topic.len() as int) == base_topic,
        base_topic != other_base ==> report_topic(base_topic, switch_name) != report_topic(
            other_base,
            switch_name,
        ) && command_topic(base_topic, switch_name) != command_topic(other_base, switch_name),
{
    let (report, command) = (
        report_topic(base_topic, switch_name),
        command_topic(base_topic, switch_name),
    );
    let (other_report, other_command) = (
        report_topic(other_base, switch_name),
        command_topic(other_base, switch_name),
    );
    assert(report.take(base_topic.len() as int) =~= base_topic);
    assert(command.take(base_topic.len() as int) =~= base_topic);
    assert(other_report.take(other_base.len() as int) =~= other_base);
    assert(other_command.take(other_base.len() as int) =~= other_base);
}

/// To command a switch the client publishes the word for the state on a topic that begins with its
/// own base topic, goes on with the switch's name and ends in `/set`; it publishes nothing about
/// any other command. Every command is acknowledged.
pub proof fn commands_are_published_below_the_base_topic(
    client: ClientView,
    switch_name: Seq<char>,
    state: SwitchState,
    command: CommandView,
)
    ensures
        client_action(client, CommandView::SetState { switch_name, state }) == (
        MqttActionView::Publish {
            topic: client.base_topic + ("/"@ + switch_name + "/set"@),
            payload: if state == SwitchState::On {
                "on"@
            } else {
                "off"@
            },
            resp: CommandResponse::Ack,
        }),
        !(command is SetState) ==> client_action(client, command) == (MqttActionView::Reply {
            resp: CommandResponse::Ack,
        }),
{
    assert(command_topic(client.base_topic, switch_name) =~= client.base_topic + ("/"@ + switch_name
        + "/set"@));
}

/// A command changes nothing about the client but whether it runs and whether it keeps to its
/// connection: a stop ends both, a reset the connection, and any other command neither.
pub proof fn commands_leave_the_client_as_it_is(client: ClientView, command: CommandView)
    ensures
        client_after(client, CommandView::Stop) == (ClientView {
            running: false,
            connected: false,
            ..client
        }),
        client_after(client, CommandView::Reset) == (ClientView { connected: false, ..client }),
        command is Ping || command is SetState ==> client_after(client, command) == client,
{
}

/// The client subscribes to one topic for each switch, in their order, and each of them names its
/// switch.
pub proof fn subscriptions_name_the_switches(client: ClientView)
    ensures
        client_topics(client).len() == client.switch_names.len(),
        forall|i: int|
            0 <= i < client.switch_names.len() ==> {
                let topic = #[trigger] client_topics(client)[i];
                &&& topic == client.base_topic + "/"@ + client.switch_names[i]
                &&& names_switch(topic, client.base_topic)
                &&& switch_in_topic(topic, client.base_topic) == client.switch_names[i]
            },
{
    assert forall|i: int| 0 <= i < client.switch_names.len() implies {
        let topic = #[trigger] client_topics(client)[i];
        &&& topic == client.base_topic + "/"@ + client.switch_names[i]
        &&& names_switch(topic, client.base_topic)
        &&& switch_in_topic(topic, client.base_topic) == client.switch_names[i]
    } by {
        report_topic_names_the_switch(client.base_topic, client.switch_names[i]);
    }
}

/// A topic names a switch exactly where it can be cut behind as many bytes as the base topic has,
/// and one more; what stands behind the cut is the name.
pub proof fn names_stand_behind_the_base_topic(
    topic: Seq<char>,
    base_topic: Seq<char>,
    front: Seq<char>,
    name: Seq<char>,
)
    ensures
        topic == front + name && encode_utf8(front).len() == encode_utf8(base_topic).len() + 1
            ==> names_switch(topic, base_topic) && switch_in_topic(topic, base_topic) == name,
        names_switch(topic, base_topic) ==> exists|cut: Seq<char>|
            topic == #[trigger] (cut + switch_in_topic(topic, base_topic)) && encode_utf8(cut).len()
                == encode_utf8(base_topic).len() + 1,
{
    if topic == front + name && encode_utf8(front).len() == encode_utf8(base_topic).len() + 1 {
        lemma_bytes_of_concat(front, name);
        assert(encode_utf8(topic).skip(encode_utf8(front).len() as int) =~= encode_utf8(name));
        encode_utf8_decode_utf8(name);
    }
    if names_switch(topic, base_topic) {
        let bytes = encode_utf8(topic);
        let at = encode_utf8(base_topic).len() as int + 1;
        encode_utf8_valid_utf8(topic);
        encode_utf8_decode_utf8(topic);
        valid_utf8_split(bytes, at);
        decode_utf8_split(bytes, at);
        let cut = decode_utf8(bytes.subrange(0, at));
        decode_utf8_encode_utf8(bytes.subrange(0, at));
        assert(bytes.skip(at) =~= bytes.subrange(at, bytes.len() as int));
        assert(topic == cut + switch_in_topic(topic, base_topic));
    }
}

/// What a payload reports is the member `state` of its JSON object, whatever other members there
/// are; an object without that member reports nothing, and what is no object has no member at all.
pub proof fn payloads_report_their_state_member(
    members: Map<Seq<char>, Option<Seq<char>>>,
    others: Map<Seq<char>, Option<Seq<char>>>,
    message: Seq<char>,
)
    ensures
        members.contains_key("state"@) ==> payload_of(JsonDocument::Object(members)) == (
        PayloadView::Object { state: Some(members["state"@]) }),
        !members.contains_key("state"@) ==> payload_of(JsonDocument::Object(members)) == (
        PayloadView::Object { state: None }),
        members.contains_key("state"@) == others.contains_key("state"@) && members["state"@]
            == others["state"@] ==> payload_of(JsonDocument::Object(members)) == payload_of(
            JsonDocument::Object(others),
        ),
        forall|key: Seq<char>, value: Option<Seq<char>>|
            key != "state"@ ==> #[trigger] payload_of(
                JsonDocument::Object(members.insert(key, value)),
            ) == payload_of(JsonDocument::Object(members)),
        payload_of(JsonDocument::NotJson { message }) == (PayloadView::NotJson { message }),
        payload_of(JsonDocument::NotObject) is NotObject,
{
}

/// A message that a switch publishes on its topic, whose payload is a JSON object with a member
/// `state` that names a state in any letter case, reports that state of that switch, whatever else
/// the object holds.
pub proof fn published_states_are_reported(
    event: MqttEvent,
    base_topic: Seq<char>,
    switch_name: Seq<char>,
    members: Map<Seq<char>, Option<Seq<char>>>,
    text: Seq<char>,
    state: SwitchState,
    listeners: nat,
)
    requires
        event matches MqttEvent::Publish { topic, payload } && topic@ == base_topic + "/"@
            + switch_name && valid_utf8(payload@) && json_document(decode_utf8(payload@))
            == JsonDocument::Object(members),
        members.contains_key("state"@),
        members["state"@] == Some(text),
        lowercase(text) == state.text(),
        listeners > 0,
    ensures
        event_report(event, base_topic) == Some(
            Ok::<Option<(Seq<char>, SwitchState)>, NotificationErrorView>(
                Some((switch_name, state)),
            ),
        ),
        event_step(event_report(event, base_topic), listeners) == (EventStepView::Forward {
            switch_name,
            state,
        }),
{
    report_topic_names_the_switch(base_topic, switch_name);
    state_name_round_trip(state);
}

/// A message on a switch's topic that reports no state is passed over: an object without a member
/// `state` silently; what is no JSON, or names no known state, with the error's text. What is no
/// object, or whose state is no string, cannot be read, and an event that is no message reports
/// nothing.
pub proof fn other_messages_report_nothing(
    event: MqttEvent,
    base_topic: Seq<char>,
    switch_name: Seq<char>,
    members: Map<Seq<char>, Option<Seq<char>>>,
    message: Seq<char>,
    listeners: nat,
)
    requires
        event matches MqttEvent::Publish { topic, payload } && topic@ == base_topic + "/"@
            + switch_name && valid_utf8(payload@),
    ensures
        ({
            let document = json_document(decode_utf8(event->payload@));
            let step = event_step(event_report(event, base_topic), listeners);
            &&& document == JsonDocument::Object(members) && !members.contains_key("state"@)
                ==> step is Nothing
            &&& document == (JsonDocument::NotJson { message }) ==> step == (
            EventStepView::Tolerate { message })
            &&& document == JsonDocument::Object(members) && members.contains_key("state"@) && (
            members["state"@] matches Some(text) && lowercase(text) != "on"@ && lowercase(text)
                != "off"@) ==> step == (EventStepView::Tolerate {
                message: "BeelayCommonError: Can't resolve status string: "@ + lowercase(
                    members["state"@].unwrap(),
                ),
            })
            &&& document == JsonDocument::Object(members) && members.contains_key("state"@)
                && members["state"@] is None ==> step is Unreadable
            &&& document == JsonDocument::NotObject ==> step is Unreadable
        }),
        event_step(event_report(MqttEvent::Other, base_topic), listeners) is Nothing,
{
    report_topic_names_the_switch(base_topic, switch_name);
    reveal_strlit("BeelayCommonError: ");
    reveal_strlit("Can't resolve status string: ");
    reveal_strlit("BeelayCommonError: Can't resolve status string: ");
    let lower = lowercase(members["state"@].unwrap());
    assert("BeelayCommonError: "@ + ("Can't resolve status string: "@ + lower)
        =~= "BeelayCommonError: Can't resolve status string: "@ + lower);
}

/// A message whose payload is no text, or whose topic names no switch, cannot be read.
pub proof fn unreadable_messages_are_told_apart(
    event: MqttEvent,
    base_topic: Seq<char>,
    listeners: nat,
)
    requires
        event matches MqttEvent::Publish { topic, payload } && (!valid_utf8(payload@)
            || !names_switch(topic@, base_topic)),
    ensures
        event_step(event_report(event, base_topic), listeners) is Unreadable,
{
}

/// A report is handed on exactly where someone listens.
pub proof fn reports_are_handed_to_listeners(
    switch_name: Seq<char>,
    state: SwitchState,
    listeners: nat,
)
    ensures
        event_step(Some(Ok(Some((switch_name, state)))), listeners) == if listeners == 0 {
            EventStepView::NoListeners
        } else {
            EventStepView::Forward { switch_name, state }
        },
{
}

/// The simulation's list of states and its table of states say the same.
pub proof fn simulated_states_are_listed_once(
    sim: SimulatorView,
    name: Seq<char>,
    state: SwitchState,
)
    requires
        sim.well_formed(),
    ensures
        sim.states.contains((name, state)) <==> sim.state_map().contains_key(name)
            && sim.state_map()[name] == state,
{
    if sim.states.contains((name, state)) {
        let k = choose|k: int| 0 <= k < sim.states.len() && sim.states[k] == (name, state);
        assert(sim.position(name, k));
        let i = choose|i: int| sim.position(name, i);
        assert(sim.states[i].0 == sim.states[k].0);
    }
    if sim.state_map().contains_key(name) && sim.state_map()[name] == state {
        let i = choose|i: int| sim.position(name, i);
        assert(sim.states[i] == (name, state));
    }
}

/// A command to set a switch gives that switch its new state in the simulation, and no other
/// switch a new one; the other commands change no state. Only a stop ends the run, and no command
/// changes the interval or the listeners.
pub proof fn simulated_commands_are_obeyed(
    before: SimulatorView,
    after: SimulatorView,
    command: CommandView,
    name: Seq<char>,
    state: SwitchState,
    other: Seq<char>,
    other_state: SwitchState,
)
    requires
        before.well_formed(),
        after.well_formed(),
        simulator_obeyed(before, command, after),
    ensures
        command == (CommandView::SetState { switch_name: name, state }) ==> {
            &&& after.states.contains((name, state))
            &&& other != name ==> (after.states.contains((other, other_state))
                <==> before.states.contains((other, other_state)))
            &&& other_state != state ==> !after.states.contains((name, other_state))
        },
        !(command is SetState) ==> after.states == before.states,
        after.running == (before.running && command != CommandView::Stop),
        after.interval == before.interval,
        after.listeners == before.listeners,
{
    if command == (CommandView::SetState { switch_name: name, state }) {
        let updated = before.state_map().insert(name, state);
        assert(after.state_map() == updated);
        assert(updated.contains_key(name) && updated[name] == state);
        simulated_states_are_listed_once(after, name, state);
        simulated_states_are_listed_once(after, name, other_state);
        simulated_states_are_listed_once(after, other, other_state);
        simulated_states_are_listed_once(before, other, other_state);
    }
}

/// The simulation rests while nobody listens, and otherwise waits until the interval is over; then
/// it reports all states, and as many pauses as there are states fit into the interval, but no
/// longer ones.
pub proof fn reports_fill_the_interval(sim: SimulatorView, elapsed: u128)
    requires
        sim.states.len() < 0x1_0000_0000,
    ensures
        idle_step(sim, elapsed) is Rest <==> sim.listeners == 0,
        idle_step(sim, elapsed) is Poll <==> sim.listeners > 0 && elapsed <= sim.interval,
        idle_step(sim, elapsed) is Rearm <==> sim.listeners > 0 && elapsed > sim.interval
            && sim.states.len() == 0,
        idle_step(sim, elapsed) is Report <==> sim.listeners > 0 && elapsed > sim.interval
            && sim.states.len() > 0,
        idle_step(sim, elapsed) matches SimulatorStepView::Report { states, pause } ==> states
            == sim.states && 0 <= pause && pause * (sim.states.len() as int) <= sim.interval
            && sim.interval < (pause + 1) * (sim.states.len() as int),
{
    if sim.states.len() > 0 {
        let (interval, count) = (sim.interval as int, sim.states.len() as int);
        assert(interval_parts(sim.states.len()) == count);
        let pause = interval / count;
        assert(0 <= pause && pause * count <= interval < (pause + 1) * count) by (nonlinear_arith)
            requires
                pause == interval / count,
                count > 0,
                interval >= 0,
        ;
    }
}

/// The errors of the client are shown with what was lost or what came: the loss of each channel by
/// a text of its own, a missing response and one that does not fit by texts that name the caller's
/// side.
pub proof fn client_errors_say_what_happened(link: Link, other: Link, resp: CommandResponse)
    ensures
        mqtt_error_text(link.lost()) == (match link {
            Link::Commands => "BeelayMqttClientError: Command channel disconnected"@,
            Link::SimulatedCommands => "BeelayMqttClientError: Channel disconnected"@,
            Link::StateLinks => "BeelayMqttClientError: State link channel disconnected"@,
            Link::Events => "BeelayMqttClientError: Event channel disconnected"@,
        }),
        link.lost() == other.lost() ==> link == other,
        mqtt_error_text(no_response())
            == "BeelayMqttClientError: None response from MqttClientCtrl channel"@,
        mqtt_error_text(unexpected_response(resp))
            == "BeelayMqttClientError: Unexpected response from MqttClientCtrl channel: "@
            + "CommandResponse::Ack"@,
{
    reveal_strlit("BeelayMqttClientError: ");
    reveal_strlit("Command channel disconnected");
    reveal_strlit("Channel disconnected");
    reveal_strlit("State link channel disconnected");
    reveal_strlit("Event channel disconnected");
    reveal_strlit("BeelayMqttClientError: Command channel disconnected");
    reveal_strlit("BeelayMqttClientError: Channel disconnected");
    reveal_strlit("BeelayMqttClientError: State link channel disconnected");
    reveal_strlit("BeelayMqttClientError: Event channel disconnected");
    assert("Command channel disconnected"@.len() == 28);
    assert("Channel disconnected"@.len() == 20);
    assert("State link channel disconnected"@.len() == 31);
    assert("Event channel disconnected"@.len() == 26);
    reveal_strlit("None response from MqttClientCtrl channel");
    reveal_strlit("BeelayMqttClientError: None response from MqttClientCtrl channel");
    assert(mqtt_error_text(no_response())
        =~= "BeelayMqttClientError: None response from MqttClientCtrl channel"@);
    reveal_strlit("Unexpected response from MqttClientCtrl channel: ");
    reveal_strlit("BeelayMqttClientError: Unexpected response from MqttClientCtrl channel: ");
    assert(mqtt_error_text(unexpected_response(resp))
        =~= "BeelayMqttClientError: Unexpected response from MqttClientCtrl channel: "@
        + "CommandResponse::Ack"@);
}

/// The simulation could not idle just where it would report and the number of its switches leaves
/// nothing in 32 bits.
pub proof fn idling_breaks_off_at_a_report(sim: SimulatorView, elapsed: u128)
    ensures
        idle_breaks_off(sim, elapsed) <==> idle_step(sim, elapsed) is Report && sim.states.len()
            as int % 0x1_0000_0000 == 0,
        idle_breaks_off(sim, elapsed) ==> sim.states.len() >= 0x1_0000_0000,
{
}

/// A connection ends with the turn in which a command fails, a channel is lost or an event fails,
/// and goes on from any other turn.
pub proof fn failing_turns_end_the_connection(client: ClientView, turns: Seq<ClientTurn>)
    requires
        client.connected,
        turns.len() > 0,
    ensures
        turns[0].command_fails || turns[0].link is Disconnected || turns[0].event_fails
            ==> connection_run(client, turns) == client_turned(client, turns[0]),
        !turns[0].command_fails && !(turns[0].link is Disconnected) && !turns[0].event_fails
            ==> connection_run(client, turns) == connection_run(
            client_turned(client, turns[0]),
            turns.skip(1),
        ),
{
}

/// A new listener is one more, whatever the client is at; looking for one in vain changes nothing,
/// and nothing else of the client ever changes by it.
pub proof fn new_listeners_are_counted(client: ClientView, poll: LinkPoll)
    ensures
        client_linked(client, LinkPoll::Opened).listeners == client.listeners + 1,
        poll != LinkPoll::Opened ==> client_linked(client, poll) == client,
        (ClientView { listeners: client.listeners, ..client_linked(client, poll) }) == client,
{
}

} // verus!

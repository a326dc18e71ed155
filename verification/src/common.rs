//! What every part of the bridge shares: path elements, switch states and their text, and the
//! links on which commands travel.
use tokio::sync::mpsc;
use vstd::prelude::*;

use crate::text::same_text;

verus! {

/// The first path element of an API request.
pub const API_ELEM: &'static str = "api";

/// The first path element of a request for the browser client.
pub const CLIENT_ELEM: &'static str = "client";

/// The path element below [`CLIENT_ELEM`] that holds the style sheets.
pub const PATH_CSS_DIR: &'static str = ".css";

/// The file name of the main style sheet.
pub const PATH_CSS_MAIN_FILE: &'static str = "main.css";

/// The path of the main style sheet.
pub const PATH_CSS_MAIN_PATH: &'static str = "client/.css/main.css";

/// The page that answers a request for a resource that does not exist.
pub const GENERIC_404_PAGE: &'static str =
    "
<!DOCTYPE html>
<html>
    <head>
        <title>Beelay 404 Not Found</title>
    </head>
    <body>
        <h1>Beelay 404 Not Found</h1>
        <p>Requested resource not found. Please consult Beelay documentation.</p>
    </body>
</html>
";

/// The largest number of messages that a channel can be made to hold.
pub const MAX_CHANNEL_CAP: usize = usize::MAX / 8;

/// A text that stands for no state or status of a switch.
#[derive(Debug)]
pub struct BeelayCommonError {
    message: String,
}

impl View for BeelayCommonError {
    type V = Seq<char>;

    closed spec fn view(&self) -> Seq<char> {
        self.message@
    }
}

impl BeelayCommonError {
    /// An error with the given message.
    pub fn new(message: &str) -> (r: BeelayCommonError)
        ensures
            r@ == message@,
    {
        BeelayCommonError { message: message.to_owned() }
    }

    /// The text in which the error is shown.
    pub fn to_string(&self) -> (r: String)
        ensures
            r@ == common_error_text(self@),
    {
        "BeelayCommonError: ".to_owned().concat(self.message.as_str())
    }
}

/// How an error with the given message is shown.
pub open spec fn common_error_text(message: Seq<char>) -> Seq<char> {
    "BeelayCommonError: "@ + message
}

/// What a switch is set to.
#[derive(Debug, Copy, Clone, PartialEq, Eq, Structural)]
pub enum SwitchState {
    On,
    Off,
}

impl SwitchState {
    /// The name of the state as commands, caches and the API write it.
    pub open spec fn text(self) -> Seq<char> {
        match self {
            SwitchState::On => "on"@,
            SwitchState::Off => "off"@,
        }
    }

    /// The name of the state as log lines and error messages show it.
    pub open spec fn label(self) -> Seq<char> {
        match self {
            SwitchState::On => "On"@,
            SwitchState::Off => "Off"@,
        }
    }

    /// The label of the state.
    pub fn to_string(&self) -> (r: String)
        ensures
            r@ == self.label(),
    {
        match self {
            SwitchState::On => "On".to_owned(),
            SwitchState::Off => "Off".to_owned(),
        }
    }
}

/// Whether the network has confirmed the state of a switch.
#[derive(Debug, Copy, Clone, PartialEq, Eq, Structural)]
pub enum SwitchStatus {
    Confirmed,
    Transitioning,
}

impl SwitchStatus {
    /// The name of the status as caches write it.
    pub open spec fn text(self) -> Seq<char> {
        match self {
            SwitchStatus::Confirmed => "confirmed"@,
            SwitchStatus::Transitioning => "transitioning"@,
        }
    }

    /// The name of the status as log lines and error messages show it.
    pub open spec fn label(self) -> Seq<char> {
        match self {
            SwitchStatus::Confirmed => "Confirmed"@,
            SwitchStatus::Transitioning => "Transitioning"@,
        }
    }

    /// The label of the status.
    pub fn to_string(&self) -> (r: String)
        ensures
            r@ == self.label(),
    {
        match self {
            SwitchStatus::Confirmed => "Confirmed".to_owned(),
            SwitchStatus::Transitioning => "Transitioning".to_owned(),
        }
    }
}

/// The state that a text names, if it names one.
pub open spec fn state_named(text: Seq<char>) -> Option<SwitchState> {
    if text == "on"@ {
        Some(SwitchState::On)
    } else if text == "off"@ {
        Some(SwitchState::Off)
    } else {
        None
    }
}

/// The status that a text names, if it names one.
pub open spec fn status_named(text: Seq<char>) -> Option<SwitchStatus> {
    if text == "confirmed"@ {
        Some(SwitchStatus::Confirmed)
    } else if text == "transitioning"@ {
        Some(SwitchStatus::Transitioning)
    } else {
        None
    }
}

/// The message about a text that names no state or status.
pub open spec fn unresolved_message(text: Seq<char>) -> Seq<char> {
    "Can't resolve status string: "@ + text
}

/// Writes a state by its name. This never fails.
pub fn switch_state_to_str(state: SwitchState) -> (r: Result<String, BeelayCommonError>)
    ensures
        r is Ok,
        r->Ok_0@ == state.text(),
{
    Ok(
        match state {
            SwitchState::On => "on".to_owned(),
            SwitchState::Off => "off".to_owned(),
        },
    )
}

/// Reads the name of a state; only the exact names are known.
pub fn str_to_switch_state(state_str: &str) -> (r: Result<SwitchState, BeelayCommonError>)
    ensures
        match r {
            Ok(state) => state_named(state_str@) == Some(state),
            Err(err) => state_named(state_str@) is None && err@ == unresolved_message(state_str@),
        },
{
    if same_text(state_str, "on") {
        Ok(SwitchState::On)
    } else if same_text(state_str, "off") {
        Ok(SwitchState::Off)
    } else {
        Err(unresolved(state_str))
    }
}

/// Writes a status by its name. This never fails.
pub fn switch_status_to_str(status: SwitchStatus) -> (r: Result<String, BeelayCommonError>)
    ensures
        r is Ok,
        r->Ok_0@ == status.text(),
{
    Ok(
        match status {
            SwitchStatus::Confirmed => "confirmed".to_owned(),
            SwitchStatus::Transitioning => "transitioning".to_owned(),
        },
    )
}

/// Reads the name of a status; only the exact names are known.
pub fn str_to_switch_status(status_str: &str) -> (r: Result<SwitchStatus, BeelayCommonError>)
    ensures
        match r {
            Ok(status) => status_named(status_str@) == Some(status),
            Err(err) => {
                &&& status_named(status_str@) is None
                &&& err@ == unresolved_message(status_str@)
            },
        },
{
    if same_text(status_str, "confirmed") {
        Ok(SwitchStatus::Confirmed)
    } else if same_text(status_str, "transitioning") {
        Ok(SwitchStatus::Transitioning)
    } else {
        Err(unresolved(status_str))
    }
}

/// The error about a text that names no state or status.
fn unresolved(text: &str) -> (r: BeelayCommonError)
    ensures
        r@ == unresolved_message(text@),
{
    let message = "Can't resolve status string: ".to_owned().concat(text);
    BeelayCommonError::new(message.as_str())
}

/// The sending end of a bounded channel.
#[verifier::external_type_specification]
#[verifier::external_body]
#[verifier::reject_recursive_types(T)]
pub struct ExSender<T>(mpsc::Sender<T>);

/// The receiving end of a bounded channel.
#[verifier::external_type_specification]
#[verifier::external_body]
#[verifier::reject_recursive_types(T)]
pub struct ExReceiver<T>(mpsc::Receiver<T>);

/// `tokio::sync::mpsc::Sender::max_capacity` tells how many messages a channel was made to hold.
/// Nothing is claimed of it here; [`sender_holds`] speaks of what it returns for a sender.
pub assume_specification<T>[ mpsc::Sender::<T>::max_capacity ](tx: &mpsc::Sender<T>) -> usize;

/// Whether the sender's `max_capacity` gives `cap`, and nothing else.
pub open spec fn sender_holds<T>(tx: mpsc::Sender<T>, cap: usize) -> bool {
    forall|n: usize| #[trigger]
        call_ensures(mpsc::Sender::<T>::max_capacity, (&tx,), n) ==> n == cap
}

/// `tokio::sync::mpsc::channel` makes a channel that holds up to `cap` messages and returns its
/// two ends; it panics where `cap` is zero or above [`MAX_CHANNEL_CAP`]. That two ends belong to
/// one channel is what [`one_channel`] says: that one call returned them both.
#[verifier::external_body]
fn open_channel<T>(cap: usize) -> (r: (mpsc::Sender<T>, mpsc::Receiver<T>))
    requires
        0 < cap <= MAX_CHANNEL_CAP,
    ensures
        sender_holds(r.0, cap),
{
    mpsc::channel(cap)
}

/// Whether a sender and a receiver are the two ends of one channel that was made to hold `cap`
/// messages: one call of `tokio::sync::mpsc::channel` returned them both.
pub closed spec fn one_channel<T>(
    cap: usize,
    tx: mpsc::Sender<T>,
    rx: mpsc::Receiver<T>,
) -> bool {
    call_ensures(open_channel::<T>, (cap,), (tx, rx))
}

/// A message together with the channel on which its response is expected.
#[verifier::reject_recursive_types(T2)]
pub struct MessageLink<T1, T2> {
    message: T1,
    resp_channel: mpsc::Sender<T2>,
}

impl<T1, T2> MessageLink<T1, T2> {
    /// The message.
    pub closed spec fn message(&self) -> T1 {
        self.message
    }

    /// The sending end of the response channel.
    pub closed spec fn response_channel(&self) -> mpsc::Sender<T2> {
        self.resp_channel
    }

    /// The message.
    pub fn get_message(&self) -> (r: &T1)
        ensures
            *r == self.message(),
    {
        &self.message
    }

    /// The sending end of the response channel.
    pub fn get_response_channel(&self) -> (r: &mpsc::Sender<T2>)
        ensures
            *r == self.response_channel(),
    {
        &self.resp_channel
    }
}

/// Links a message to the sending end of a channel and hands on the receiving end.
pub fn link_message<T1, T2>(message: T1, channel: (mpsc::Sender<T2>, mpsc::Receiver<T2>)) -> (r: (
    MessageLink<T1, T2>,
    mpsc::Receiver<T2>,
))
    ensures
        r.0.message() == message,
        r.0.response_channel() == channel.0,
        r.1 == channel.1,
{
    (MessageLink { message, resp_channel: channel.0 }, channel.1)
}

/// Links a message to a new response channel and hands out the channel's receiving end.
pub fn build_message_link<T1, T2>(message: T1, cap: usize) -> (r: (
    MessageLink<T1, T2>,
    mpsc::Receiver<T2>,
))
    requires
        0 < cap <= MAX_CHANNEL_CAP,
    ensures
        r.0.message() == message,
        sender_holds(r.0.response_channel(), cap),
        one_channel(cap, r.0.response_channel(), r.1),
{
    let channel = open_channel(cap);
    assert(call_ensures(open_channel::<T2>, (cap,), channel));
    link_message(message, channel)
}

/// The sending side of a command channel: each command goes out as a [`MessageLink`].
#[verifier::reject_recursive_types(T1)]
#[verifier::reject_recursive_types(T2)]
pub struct MessageLinkTransactor<T1, T2> {
    tx: mpsc::Sender<MessageLink<T1, T2>>,
}

impl<T1, T2> MessageLinkTransactor<T1, T2> {
    /// The sending end of the command channel.
    pub closed spec fn command_channel(&self) -> mpsc::Sender<MessageLink<T1, T2>> {
        self.tx
    }

    /// The sending end of the command channel.
    pub fn get_command_channel(&self) -> (r: &mpsc::Sender<MessageLink<T1, T2>>)
        ensures
            *r == self.command_channel(),
    {
        &self.tx
    }
}

/// Puts the sending end of a command channel into a transactor and hands on the receiving end.
pub fn transactor_over<T1, T2>(
    channel: (mpsc::Sender<MessageLink<T1, T2>>, mpsc::Receiver<MessageLink<T1, T2>>),
) -> (r: (MessageLinkTransactor<T1, T2>, mpsc::Receiver<MessageLink<T1, T2>>))
    ensures
        r.0.command_channel() == channel.0,
        r.1 == channel.1,
{
    (MessageLinkTransactor { tx: channel.0 }, channel.1)
}

/// Makes a command channel and hands out both of its sides.
pub fn build_message_link_transactor<T1, T2>(cap: usize) -> (r: (
    MessageLinkTransactor<T1, T2>,
    mpsc::Receiver<MessageLink<T1, T2>>,
))
    requires
        0 < cap <= MAX_CHANNEL_CAP,
    ensures
        sender_holds(r.0.command_channel(), cap),
        one_channel(cap, r.0.command_channel(), r.1),
{
    let channel = open_channel(cap);
    assert(call_ensures(open_channel::<MessageLink<T1, T2>>, (cap,), channel));
    transactor_over(channel)
}

/// A state is read back from its name, and the two names differ.
pub proof fn state_name_round_trip(state: SwitchState)
    ensures
        state_named(state.text()) == Some(state),
{
    reveal_strlit("on");
    reveal_strlit("off");
    assert("on"@.len() != "off"@.len());
}

/// A text that names a state is that state's name: no other text is read as it.
pub proof fn state_name_is_exact(text: Seq<char>)
    ensures
        state_named(text) matches Some(state) ==> text == state.text(),
{
}

/// A status is read back from its name, and the two names differ.
pub proof fn status_name_round_trip(status: SwitchStatus)
    ensures
        status_named(status.text()) == Some(status),
{
    reveal_strlit("confirmed");
    reveal_strlit("transitioning");
    assert("confirmed"@.len() != "transitioning"@.len());
}

/// A text that names a status is that status's name: no other text is read as it.
pub proof fn status_name_is_exact(text: Seq<char>)
    ensures
        status_named(text) matches Some(status) ==> text == status.text(),
{
}

/// The message about a text that names nothing begins alike for all texts and ends in the text.
pub proof fn unresolved_texts_are_told(text: Seq<char>)
    ensures
        common_error_text(unresolved_message(text))
            == "BeelayCommonError: Can't resolve status string: "@ + text,
{
    reveal_strlit("BeelayCommonError: ");
    reveal_strlit("Can't resolve status string: ");
    reveal_strlit("BeelayCommonError: Can't resolve status string: ");
    assert(common_error_text(unresolved_message(text))
        =~= "BeelayCommonError: Can't resolve status string: "@ + text);
}

} // verus!

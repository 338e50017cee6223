//! The wire protocol: what an inbound text frame asks for, and the texts the
//! server answers with.

use vstd::prelude::*;

verus! {

/// The string member `key` of the JSON object that `text` holds: `None` where
/// `text` is not JSON, is no object, has no such member, or the member is no
/// string.
pub uninterp spec fn json_string_field(text: Seq<char>, key: Seq<char>) -> Option<Seq<char>>;

/// The characters of an optional string.
pub open spec fn text_of(found: Option<String>) -> Option<Seq<char>> {
    match found {
        Some(s) => Some(s@),
        None => None,
    }
}

/// Parses `text` with `serde_json::from_str` as a `serde_json::Value` and
/// reads the member `key` of it with `Value::get` and `Value::as_str`. The
/// result is a function of the two arguments; it is known by its name only.
#[verifier::external_body]
fn read_string_field(text: &str, key: &str) -> (found: Option<String>)
    ensures
        text_of(found) == json_string_field(text@, key@),
{
    match serde_json::from_str::<serde_json::Value>(text) {
        Ok(document) => document.get(key).and_then(|member| member.as_str()).map(
            |s| s.to_string(),
        ),
        Err(_) => None,
    }
}

/// What a client asks for in one text frame.
pub enum Inbound {
    /// Nothing the protocol knows: the frame is passed over.
    Ignored,
    /// A claim of the pairing secret.
    Authenticate { token: String },
    /// The command to stop the running training job.
    StopTraining,
}

/// An `Inbound` with its token as characters.
pub enum InboundView {
    Ignored,
    Authenticate { token: Seq<char> },
    StopTraining,
}

impl View for Inbound {
    type V = InboundView;

    open spec fn view(&self) -> InboundView {
        match self {
            Inbound::Ignored => InboundView::Ignored,
            Inbound::Authenticate { token } => InboundView::Authenticate { token: token@ },
            Inbound::StopTraining => InboundView::StopTraining,
        }
    }
}

/// What a frame asks for, given its `action` and `token` members: an action
/// of `authenticate` claims the token (the empty one where none is given), an
/// action of `stop_training` is the command, and anything else is passed over.
pub open spec fn classify(action: Option<Seq<char>>, token: Option<Seq<char>>) -> InboundView {
    match action {
        None => InboundView::Ignored,
        Some(name) => if name == "authenticate"@ {
            InboundView::Authenticate {
                token: match token {
                    Some(t) => t,
                    None => Seq::empty(),
                },
            }
        } else if name == "stop_training"@ {
            InboundView::StopTraining
        } else {
            InboundView::Ignored
        },
    }
}

/// What the frame `text` asks for.
pub open spec fn decoded(text: Seq<char>) -> InboundView {
    classify(json_string_field(text, "action"@), json_string_field(text, "token"@))
}

/// Whether two strings hold the same characters.
pub fn same_text(a: &str, b: &str) -> (same: bool)
    ensures
        same == (a@ == b@),
{
    a.to_owned() == b.to_owned()
}

/// Classifies a frame by its `action` and `token` members.
pub fn classify_fields(action: Option<String>, token: Option<String>) -> (request: Inbound)
    ensures
        request@ == classify(text_of(action), text_of(token)),
{
    match action {
        None => Inbound::Ignored,
        Some(name) => {
            if same_text(name.as_str(), "authenticate") {
                match token {
                    Some(t) => Inbound::Authenticate { token: t },
                    None => Inbound::Authenticate { token: String::new() },
                }
            } else if same_text(name.as_str(), "stop_training") {
                Inbound::StopTraining
            } else {
                Inbound::Ignored
            }
        },
    }
}

/// Decodes one inbound text frame. The token is looked for only where the
/// action is a claim.
pub fn decode(text: &str) -> (request: Inbound)
    ensures
        request@ == decoded(text@),
{
    match read_string_field(text, "action") {
        None => Inbound::Ignored,
        Some(name) => {
            if same_text(name.as_str(), "authenticate") {
                classify_fields(Some(name), read_string_field(text, "token"))
            } else {
                classify_fields(Some(name), None)
            }
        },
    }
}

/// What the server answers to a frame.
#[derive(Clone, Copy, PartialEq, Eq, Structural, Debug)]
pub enum Reply {
    /// No answer.
    Nothing,
    /// The claim was accepted.
    Accepted,
    /// The claim was refused.
    Rejected,
}

/// The text of the acknowledgment of an accepted claim.
pub open spec fn accepted_text() -> Seq<char> {
    "{\"status\": \"authenticated\"}"@
}

/// The text of the acknowledgment of a refused claim.
pub open spec fn rejected_text() -> Seq<char> {
    "{\"status\": \"auth_failed\"}"@
}

/// The text that an answer is sent as, if it is sent at all.
pub fn reply_text(reply: Reply) -> (text: Option<&'static str>)
    ensures
        match reply {
            Reply::Nothing => text is None,
            Reply::Accepted => text is Some && text->Some_0@ == accepted_text(),
            Reply::Rejected => text is Some && text->Some_0@ == rejected_text(),
        },
{
    match reply {
        Reply::Nothing => None,
        Reply::Accepted => Some("{\"status\": \"authenticated\"}"),
        Reply::Rejected => Some("{\"status\": \"auth_failed\"}"),
    }
}

/// A command that a client may send to the host.
#[derive(Clone, Copy, PartialEq, Eq, Structural, Debug)]
pub enum Command {
    /// Stop the running training job.
    StopTraining,
}

/// The name of the host event under which commands are published.
pub fn command_event() -> (name: &'static str)
    ensures
        name@ == "mobile_command"@,
{
    "mobile_command"
}

/// The payload that a command is published with.
pub fn command_payload(command: Command) -> (payload: &'static str)
    ensures
        match command {
            Command::StopTraining => payload@ == "stop_training"@,
        },
{
    match command {
        Command::StopTraining => "stop_training",
    }
}

} // verus!

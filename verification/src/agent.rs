//! What an agent is told, and the loop that drives it: receive a message,
//! hand it to the model, and when the model fails, ask it to tell the
//! sender.

use crate::address::{format_address, parse_address, Address};
use crate::manifest::Manifest;
use crate::message::Message;
use crate::text::{trim, trim_str};
use vstd::prelude::*;

verus! {

/// How many turns a model may take on one prompt.
pub const DEFAULT_MAX_TURNS: usize = 32;

/// The fixed start of every agent's preamble, up to its address.
pub const PRELUDE: &'static str = "<PRELUDE>\n\
        You are an addressable, autonomous, isolated node.\n\
        You interact with other nodes only by sending and receiving messages.\n\
        \n\
        DEFINITIONS:\n\
        - \"public_chat\" - normal returned response.\n\
        - \"payload\" - answers, tools result, task details, delegated results, analysis, message contents or other useful content.\n\
        - tool \"send_message\" - this is the only place where \"payload\" may be sent.
        \n\
        NEVER write \"payload\" in \"public_chat\"\n\
        YOU MUST write in \"public_chat\" only a brief status summary of what was done \n\
        \n\
        If you need to reply to another node:\n\
        1. Prepare the final answer internally.\n\
        2. Send the full final answer only by calling tool \"send_message\"\n\
        </PRELUDE>\n
        YOUR ADDRESS:\n";

/// The heading before the description.
pub const DESCRIPTION_HEADING: &'static str = "\n\nDESCRIPTION:\n";

/// The heading before the instruction.
pub const INSTRUCTION_HEADING: &'static str = "\n\nINSTRUCTION:\n";

/// The heading before the constraints.
pub const CONSTRAINTS_HEADING: &'static str = "\n\nCONSTRAINTS:\n";

/// The preamble of an agent: the prelude, then its address, description,
/// instruction and constraints under their headings.
pub open spec fn preamble_of(
    address: Seq<char>,
    description: Seq<char>,
    instruction: Seq<char>,
    constraints: Seq<char>,
) -> Seq<char> {
    PRELUDE@ + address + DESCRIPTION_HEADING@ + description + INSTRUCTION_HEADING@ + instruction
        + CONSTRAINTS_HEADING@ + constraints
}

/// The preamble given to the model of the agent that `manifest` describes.
pub fn agent_preamble(manifest: &Manifest) -> (res: String)
    ensures
        res@ == preamble_of(
            manifest.address@,
            manifest.description@,
            manifest.instruction@,
            manifest.constraints@,
        ),
{
    let mut text = String::from_str(PRELUDE);
    text.append(manifest.address.as_str());
    text.append(DESCRIPTION_HEADING);
    text.append(manifest.description.as_str());
    text.append(INSTRUCTION_HEADING);
    text.append(manifest.instruction.as_str());
    text.append(CONSTRAINTS_HEADING);
    text.append(manifest.constraints.as_str());
    text
}

/// The name the agent's model goes by: the name part of the manifest's
/// address, or the whole address when it is not an address.
pub fn agent_name(manifest: &Manifest) -> (res: String)
    ensures
        match parse_address(manifest.address@) {
            Some(a) => res@ == a.name,
            None => res@ == manifest.address@,
        },
{
    match Address::parse(manifest.address.as_str()) {
        Ok(address) => address.name,
        Err(_) => manifest.address.clone(),
    }
}

/// The start of the prompt that asks the model to report a failure.
pub const RECOVERY_START: &'static str = "<RECOVERY_PROMPT>\n\
        The previous attempt to process message from ";

/// What follows the sender in the recovery prompt, up to the error.
pub const RECOVERY_ERROR_START: &'static str = " failed.\n\
        <ERROR>";

/// The end of the recovery prompt.
pub const RECOVERY_END: &'static str = "</ERROR>\n\
        You must notify the original sender by calling \"send_message\".\n\
        Do not answer with normal text.\n\
        After the tool call succeeds, return exactly:\n\
        [ERROR SENT]\n\
        </RECOVERY_PROMPT>";

/// What the model answers once it has reported a failure itself.
pub const ERROR_SENT: &'static str = "[ERROR SENT]";

/// The prompt that asks the model to tell `from` that its message could
/// not be processed, because of `error`.
pub open spec fn recovery_prompt_of(from: Seq<char>, error: Seq<char>) -> Seq<char> {
    RECOVERY_START@ + from + RECOVERY_ERROR_START@ + error + RECOVERY_END@
}

/// The prompt that asks the model to tell the sender of a message that it
/// could not be processed.
pub fn recovery_prompt(from: &Address, error: &str) -> (res: String)
    ensures
        res@ == recovery_prompt_of(format_address(from@), error@),
{
    let mut text = String::from_str(RECOVERY_START);
    let sender = from.format();
    text.append(sender.as_str());
    text.append(RECOVERY_ERROR_START);
    text.append(error);
    text.append(RECOVERY_END);
    text
}

/// The label before the sender in a message prompt.
pub const FROM_LABEL: &'static str = "FROM: ";

/// The label before the recipient in a message prompt.
pub const TO_LABEL: &'static str = "\nTO: ";

/// What separates the addresses from the body in a message prompt.
pub const BODY_SEPARATOR: &'static str = "\n\n";

/// The prompt that hands a received message to the model: its sender, its
/// recipient and its body.
pub open spec fn message_prompt_of(from: Seq<char>, to: Seq<char>, body: Seq<char>) -> Seq<char> {
    FROM_LABEL@ + from + TO_LABEL@ + to + BODY_SEPARATOR@ + body
}

/// The prompt that hands `message` to the model.
pub fn message_prompt(message: &Message) -> (res: String)
    ensures
        res@ == message_prompt_of(
            format_address(message.from@),
            format_address(message.to@),
            message.body@,
        ),
{
    let mut text = String::from_str(FROM_LABEL);
    let from = message.from.format();
    let to = message.to.format();
    text.append(from.as_str());
    text.append(TO_LABEL);
    text.append(to.as_str());
    text.append(BODY_SEPARATOR);
    text.append(message.body.as_str());
    text
}

/// Where the loop that drives an agent stands.
#[derive(Debug)]
pub enum AgentState {
    /// Waiting for the next message.
    Waiting,
    /// The model is working on this message.
    Processing(Message),
    /// The model failed on this message and is asked to tell its sender.
    Recovering(Message),
    /// A failure is being reported to a sender; afterwards the loop stops
    /// when `then_stop` holds and waits for the next message otherwise.
    Notifying { then_stop: bool },
    /// The loop is over.
    Stopped,
}

/// What happened since the last action.
#[derive(Debug)]
pub enum AgentEvent {
    /// A message arrived.
    Received(Message),
    /// The transport has no more messages.
    Closed,
    /// Receiving failed.
    ReceiveFailed,
    /// The model answered.
    Replied(String),
    /// The model failed, with this error text.
    ChatFailed(String),
    /// The message was sent.
    Sent,
    /// Sending failed.
    SendFailed,
}

/// What the loop asks to be done next.
#[derive(Debug)]
pub enum AgentAction {
    /// Wait for the next message.
    Receive,
    /// Give this prompt to the model, in the ongoing chat.
    Chat(String),
    /// Send this body to this address.
    Send(Address, String),
    /// Stop, successfully.
    Finish,
    /// Stop with the error of the failed send.
    Fail,
}

/// Whether `event` is one that can follow the action that `state` waits on.
pub open spec fn answers(state: AgentState, event: AgentEvent) -> bool {
    match state {
        AgentState::Waiting => event is Received || event is Closed || event is ReceiveFailed,
        AgentState::Processing(_) => event is Replied || event is ChatFailed,
        AgentState::Recovering(_) => event is Replied || event is ChatFailed,
        AgentState::Notifying { .. } => event is Sent || event is SendFailed,
        AgentState::Stopped => false,
    }
}

/// Whether the model's answer says that it reported the failure itself.
pub open spec fn is_error_sent(reply: Seq<char>) -> bool {
    trim(reply) == ERROR_SENT@
}

impl AgentState {
    /// The loop starts by waiting for a message.
    pub fn start() -> (res: (AgentState, AgentAction))
        ensures
            res.0 is Waiting,
            res.1 is Receive,
    {
        (AgentState::Waiting, AgentAction::Receive)
    }

    /// The next state and action, given what happened. A received message
    /// goes to the model; the model's answer to it is not forwarded. When
    /// the model fails on a message, it is asked to tell the sender; if its
    /// answer is not the marker that it did, the answer is sent to the
    /// sender; if it fails again, its error is sent to the sender and the
    /// loop stops. A closed or failed receive stops the loop, and a failed
    /// send stops it with an error.
    pub fn step(self, event: AgentEvent) -> (res: (AgentState, AgentAction))
        requires
            answers(self, event),
        ensures
            match (self, event) {
                (AgentState::Waiting, AgentEvent::Received(m)) => {
                    &&& res.0 == AgentState::Processing(m)
                    &&& res.1 matches AgentAction::Chat(p) && p@ == message_prompt_of(
                        format_address(m.from@),
                        format_address(m.to@),
                        m.body@,
                    )
                },
                (AgentState::Waiting, _) => res.0 is Stopped && res.1 is Finish,
                (AgentState::Processing(_), AgentEvent::Replied(_)) => {
                    res.0 is Waiting && res.1 is Receive
                },
                (AgentState::Processing(m), AgentEvent::ChatFailed(e)) => {
                    &&& res.0 == AgentState::Recovering(m)
                    &&& res.1 matches AgentAction::Chat(p) && p@ == recovery_prompt_of(
                        format_address(m.from@),
                        e@,
                    )
                },
                (AgentState::Recovering(m), AgentEvent::Replied(r)) => if is_error_sent(r@) {
                    res.0 is Waiting && res.1 is Receive
                } else {
                    &&& res.0 matches AgentState::Notifying { then_stop } && !then_stop
                    &&& res.1 matches AgentAction::Send(to, body) && to == m.from && body == r
                },
                (AgentState::Recovering(m), AgentEvent::ChatFailed(e)) => {
                    &&& res.0 matches AgentState::Notifying { then_stop } && then_stop
                    &&& res.1 matches AgentAction::Send(to, body) && to == m.from && body == e
                },
                (AgentState::Notifying { then_stop }, AgentEvent::Sent) => if then_stop {
                    res.0 is Stopped && res.1 is Finish
                } else {
                    res.0 is Waiting && res.1 is Receive
                },
                (AgentState::Notifying { .. }, _) => res.0 is Stopped && res.1 is Fail,
                _ => false,
            },
    {
        match self {
            AgentState::Waiting => match event {
                AgentEvent::Received(m) => {
                    let prompt = message_prompt(&m);
                    (AgentState::Processing(m), AgentAction::Chat(prompt))
                },
                _ => (AgentState::Stopped, AgentAction::Finish),
            },
            AgentState::Processing(m) => match event {
                AgentEvent::ChatFailed(e) => {
                    let prompt = recovery_prompt(&m.from, e.as_str());
                    (AgentState::Recovering(m), AgentAction::Chat(prompt))
                },
                _ => (AgentState::Waiting, AgentAction::Receive),
            },
            AgentState::Recovering(m) => match event {
                AgentEvent::Replied(r) => {
                    let answer = String::from_str(trim_str(r.as_str()));
                    let marker = String::from_str(ERROR_SENT);
                    if answer == marker {
                        (AgentState::Waiting, AgentAction::Receive)
                    } else {
                        (AgentState::Notifying { then_stop: false }, AgentAction::Send(m.from, r))
                    }
                },
                AgentEvent::ChatFailed(e) => {
                    (AgentState::Notifying { then_stop: true }, AgentAction::Send(m.from, e))
                },
                _ => (AgentState::Stopped, AgentAction::Finish),
            },
            AgentState::Notifying { then_stop } => match event {
                AgentEvent::Sent => {
                    if then_stop {
                        (AgentState::Stopped, AgentAction::Finish)
                    } else {
                        (AgentState::Waiting, AgentAction::Receive)
                    }
                },
                _ => (AgentState::Stopped, AgentAction::Fail),
            },
            AgentState::Stopped => (AgentState::Stopped, AgentAction::Finish),
        }
    }
}

/// Once the loop has stopped, no event moves it again.
pub proof fn lemma_stopped_is_final(event: AgentEvent)
    ensures
        !answers(AgentState::Stopped, event),
{
}

} // verus!

use vstd::prelude::*;

use crate::text::starts_with;

verus! {

/// Where the conversation with the user stands.
#[derive(Debug, Clone, Copy, PartialEq, Eq, Structural)]
pub enum State {
    /// Waiting for a command.
    Start,
    /// Waiting for the photo of a receipt.
    ReceivePhoto,
}

impl Default for State {
    /// A conversation starts waiting for a command.
    fn default() -> (r: State)
        ensures
            r == State::Start,
    {
        State::Start
    }
}

/// The commands the bot understands.
#[derive(Debug, Clone)]
pub enum Command {
    Help,
    Photo,
    Check,
    History,
    Stats,
    Delete,
    Month(String),
    Category(String),
    Trend,
    Top,
}

/// What a message carries, as far as the decisions need it.
#[derive(Debug, Clone)]
pub struct Incoming {
    /// The command in the text, where the text is one of the bot's commands.
    pub command: Option<Command>,
    /// The text of the message, if it has one.
    pub text: Option<String>,
    /// The number of sizes of the attached photo, if a photo is attached.
    pub photo_sizes: Option<usize>,
}

/// What the bot does with a message.
#[derive(Debug, Clone)]
pub enum Action {
    /// The message is not for the current state and is dropped.
    Ignore,
    /// Carry out a command.
    Answer(Command),
    /// Leave photo mode at the user's request.
    Cancel,
    /// Read the receipt on the largest size of the photo.
    ProcessPhoto,
    /// A photo message without any size: nothing to do.
    EmptyPhoto,
    /// Not a photo: the user is asked for one.
    NotAPhoto,
}

/// The decision for one message: what to do, and the state to be in once
/// it has been done.
#[derive(Debug, Clone)]
pub struct Step {
    pub action: Action,
    pub next: State,
}

/// Whether the text asks to leave photo mode.
pub open spec fn is_cancel(text: Option<String>) -> bool {
    match text {
        Some(t) => "/cancel"@.len() <= t@.len() && t@.subrange(0, "/cancel"@.len() as int)
            == "/cancel"@,
        None => false,
    }
}

/// The decision for a message that arrives in `state`. In `Start` only a
/// command is answered, and `/photo` switches to `ReceivePhoto`. In
/// `ReceivePhoto` every message is handled: a text starting with `/cancel`
/// goes back to `Start`; a photo is processed and then the state is `Start`
/// again; anything else keeps waiting for a photo.
pub open spec fn spec_step(state: State, msg: Incoming) -> Step {
    match state {
        State::Start => match msg.command {
            Some(cmd) => Step {
                next: if cmd is Photo { State::ReceivePhoto } else { State::Start },
                action: Action::Answer(cmd),
            },
            None => Step { action: Action::Ignore, next: State::Start },
        },
        State::ReceivePhoto => {
            if is_cancel(msg.text) {
                Step { action: Action::Cancel, next: State::Start }
            } else {
                match msg.photo_sizes {
                    Some(k) => if k > 0 {
                        Step { action: Action::ProcessPhoto, next: State::Start }
                    } else {
                        Step { action: Action::EmptyPhoto, next: State::ReceivePhoto }
                    },
                    None => Step { action: Action::NotAPhoto, next: State::ReceivePhoto },
                }
            }
        },
    }
}

fn text_is_cancel(text: &Option<String>) -> (r: bool)
    ensures
        r == is_cancel(*text),
{
    match text {
        Some(t) => starts_with(t.as_str(), "/cancel"),
        None => false,
    }
}

/// Decides what to do with a message that arrives in `state`.
pub fn step(state: State, msg: Incoming) -> (r: Step)
    ensures
        r == spec_step(state, msg),
{
    match state {
        State::Start => match msg.command {
            Some(cmd) => {
                let next = if let Command::Photo = cmd {
                    State::ReceivePhoto
                } else {
                    State::Start
                };
                Step { action: Action::Answer(cmd), next }
            },
            None => Step { action: Action::Ignore, next: State::Start },
        },
        State::ReceivePhoto => {
            if text_is_cancel(&msg.text) {
                Step { action: Action::Cancel, next: State::Start }
            } else {
                match msg.photo_sizes {
                    Some(k) => {
                        if k > 0 {
                            Step { action: Action::ProcessPhoto, next: State::Start }
                        } else {
                            Step { action: Action::EmptyPhoto, next: State::ReceivePhoto }
                        }
                    },
                    None => Step { action: Action::NotAPhoto, next: State::ReceivePhoto },
                }
            }
        },
    }
}

/// In `Start` the state changes only through `/photo`, which always leads to
/// `ReceivePhoto`; a message without a command is dropped.
pub proof fn lemma_start_transitions(msg: Incoming)
    ensures
        (spec_step(State::Start, msg).next == State::ReceivePhoto) <==> (msg.command is Some
            && msg.command->0 is Photo),
        msg.command is None ==> spec_step(State::Start, msg).action is Ignore,
{
}

/// In `Start` a message that carries a command is answered by carrying out
/// that very command, its argument included.
pub proof fn lemma_start_answers_its_command(msg: Incoming, c: Command)
    requires
        msg.command == Some(c),
    ensures
        spec_step(State::Start, msg).action == Action::Answer(c),
{
}

/// In `ReceivePhoto`, `/cancel` always returns to `Start`, whatever else the
/// message carries.
pub proof fn lemma_cancel_returns_to_start(msg: Incoming)
    requires
        is_cancel(msg.text),
    ensures
        spec_step(State::ReceivePhoto, msg).next == State::Start,
        spec_step(State::ReceivePhoto, msg).action is Cancel,
{
}

/// In `ReceivePhoto`, a message with a photo is processed and the state
/// returns to `Start`; a message without one keeps the bot waiting.
pub proof fn lemma_photo_mode(msg: Incoming)
    requires
        !is_cancel(msg.text),
    ensures
        (msg.photo_sizes is Some && msg.photo_sizes->0 > 0) ==> (spec_step(
            State::ReceivePhoto,
            msg,
        ).action is ProcessPhoto && spec_step(State::ReceivePhoto, msg).next == State::Start),
        !(msg.photo_sizes is Some && msg.photo_sizes->0 > 0) ==> spec_step(
            State::ReceivePhoto,
            msg,
        ).next == State::ReceivePhoto,
{
}

/// Commands are answered only in `Start`: in `ReceivePhoto` a command is
/// never carried out.
pub proof fn lemma_no_commands_in_photo_mode(msg: Incoming)
    ensures
        !(spec_step(State::ReceivePhoto, msg).action is Answer),
{
}

/// Whether a message comes from the one user the bot serves: messages
/// without a sender, or from anyone else, are never handled.
pub fn is_allowed_sender(sender: Option<u64>, allowed: u64) -> (r: bool)
    ensures
        r == (sender == Some(allowed)),
{
    match sender {
        Some(id) => id == allowed,
        None => false,
    }
}

} // verus!

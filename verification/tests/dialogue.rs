use william::dialogue::{is_allowed_sender, step, Action, Command, Incoming, State};

fn command(c: Command) -> Incoming {
    Incoming { command: Some(c), text: None, photo_sizes: None }
}

fn message(text: Option<&str>, photo_sizes: Option<usize>) -> Incoming {
    Incoming { command: None, text: text.map(|t| t.to_string()), photo_sizes }
}

#[test]
fn start_is_the_default_state() {
    assert_eq!(State::default(), State::Start);
}

#[test]
fn photo_command_waits_for_a_photo() {
    let s = step(State::Start, command(Command::Photo));
    assert!(matches!(s.action, Action::Answer(Command::Photo)));
    assert_eq!(s.next, State::ReceivePhoto);
}

#[test]
fn other_commands_keep_start() {
    for c in [
        Command::Help,
        Command::Check,
        Command::History,
        Command::Stats,
        Command::Delete,
        Command::Month("2026-07".to_string()),
        Command::Category("groceries".to_string()),
        Command::Trend,
        Command::Top,
    ] {
        let s = step(State::Start, command(c));
        assert!(matches!(s.action, Action::Answer(_)));
        assert_eq!(s.next, State::Start);
    }
}

#[test]
fn start_ignores_plain_messages() {
    let s = step(State::Start, message(Some("hello"), None));
    assert!(matches!(s.action, Action::Ignore));
    assert_eq!(s.next, State::Start);
    let s = step(State::Start, message(None, Some(3)));
    assert!(matches!(s.action, Action::Ignore));
    assert_eq!(s.next, State::Start);
}

#[test]
fn cancel_leaves_photo_mode() {
    for text in ["/cancel", "/cancel please", "/cancelled"] {
        let s = step(State::ReceivePhoto, message(Some(text), Some(2)));
        assert!(matches!(s.action, Action::Cancel));
        assert_eq!(s.next, State::Start);
    }
}

#[test]
fn photo_is_processed_then_start() {
    let s = step(State::ReceivePhoto, message(None, Some(4)));
    assert!(matches!(s.action, Action::ProcessPhoto));
    assert_eq!(s.next, State::Start);
}

#[test]
fn empty_photo_keeps_waiting() {
    let s = step(State::ReceivePhoto, message(None, Some(0)));
    assert!(matches!(s.action, Action::EmptyPhoto));
    assert_eq!(s.next, State::ReceivePhoto);
}

#[test]
fn not_a_photo_keeps_waiting() {
    for text in [Some("hello"), Some("/help"), Some("/canc"), None] {
        let s = step(State::ReceivePhoto, message(text, None));
        assert!(matches!(s.action, Action::NotAPhoto));
        assert_eq!(s.next, State::ReceivePhoto);
    }
}

#[test]
fn commands_are_not_answered_in_photo_mode() {
    let msg = Incoming { command: Some(Command::Help), text: Some("/help".to_string()), photo_sizes: None };
    let s = step(State::ReceivePhoto, msg);
    assert!(matches!(s.action, Action::NotAPhoto));
}

#[test]
fn only_the_configured_user_is_served() {
    assert!(is_allowed_sender(Some(42), 42));
    assert!(!is_allowed_sender(Some(43), 42));
    assert!(!is_allowed_sender(None, 42));
}

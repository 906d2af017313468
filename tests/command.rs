use chatsounds_core::command::{parse_command, Command};
use chatsounds_core::engine::Engine;
use chatsounds_core::events::{IncomingEvent, Key, OutgoingEvent};

fn args(a: &[&str]) -> Vec<String> {
    a.iter().map(|s| s.to_string()).collect()
}

#[test]
fn command_words() {
    assert!(matches!(parse_command(&args(&["mute-lose-focus"])), Command::ShowMuteLoseFocus));
    assert!(matches!(parse_command(&args(&["mute-lose-focus", "true"])), Command::SetMuteLoseFocus(true)));
    assert!(matches!(parse_command(&args(&["mute-lose-focus", "false"])), Command::SetMuteLoseFocus(false)));
    assert!(matches!(parse_command(&args(&["mute-lose-focus", "yes"])), Command::InvalidBool(ref s) if s == "yes"));
    assert!(matches!(parse_command(&args(&["play"])), Command::PlayHelp));
    assert!(matches!(parse_command(&args(&["play", "oh", "no"])), Command::Play(ref s) if s == "oh no"));
    assert!(matches!(parse_command(&args(&["sh"])), Command::Stop));
    assert!(matches!(parse_command(&args(&["volume"])), Command::ShowVolume));
    assert!(matches!(parse_command(&args(&["volume", "0.5"])), Command::SetVolume(ref s) if s == "0.5"));
    assert!(matches!(parse_command(&args(&[])), Command::Help));
    assert!(matches!(parse_command(&args(&["sh", "now"])), Command::Help));
    assert!(matches!(parse_command(&args(&["volume", "1", "2"])), Command::Help));
}

#[test]
fn engine_routes_input_and_blocks_feedback() {
    let mut e = Engine::new(Key::Other(20), Key::Enter);
    assert!(e.handle_input(&IncomingEvent::InputDown(Key::Slash, false)));
    assert!(e.handle_input(&IncomingEvent::InputPress('/')));
    assert!(e.handle_input(&IncomingEvent::InputPress('a')));
    assert_eq!(e.chat.get_text(), "/a");
    let flushed = e.bridge.handle_outgoing_events();
    assert!(!flushed.is_empty());
    for ev in &flushed {
        if let OutgoingEvent::InputPress(c) = ev {
            assert!(!e.handle_input(&IncomingEvent::InputPress(*c)));
        }
    }
    assert!(!e.handle_input(&IncomingEvent::InputDown(Key::Backspace, false)));
    assert_eq!(e.chat.get_text(), "/a");
    e.bridge.finish_outgoing_events();
    assert!(e.handle_input(&IncomingEvent::InputDown(Key::Backspace, false)));
    assert_eq!(e.chat.get_text(), "/");
}

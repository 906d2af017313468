use chatsounds_core::editor::{Chat, Hint};
use chatsounds_core::events::{Key, MsgKind, OutgoingEvent};
use chatsounds_core::overlay::{find_chars, hint_overlay};

const OPEN: Key = Key::Other(20);

fn chars(s: &str) -> Vec<char> {
    s.chars().collect()
}

fn type_str(chat: &mut Chat, s: &str) {
    for c in s.chars() {
        chat.handle_key_press(c);
    }
}

fn open(chat: &mut Chat) {
    chat.handle_key_down(OPEN, false);
    // the host also reports the opening key as a typed character
    chat.handle_key_press('t');
}

fn last_status(chat: &mut Chat) -> Option<String> {
    let mut last = None;
    for e in chat.take_outgoing() {
        if let OutgoingEvent::ChatAddOf(s, MsgKind::Status) = e {
            last = Some(s);
        }
    }
    last
}

#[test]
fn opening_key_is_not_typed() {
    let mut chat = Chat::new(OPEN, Key::Enter);
    open(&mut chat);
    assert!(chat.is_open());
    assert_eq!(chat.get_text(), "");
    type_str(&mut chat, "hi");
    assert_eq!(chat.get_text(), "hi");
    assert_eq!(chat.cursor(), 2);
}

#[test]
fn slash_opens_with_slash() {
    let mut chat = Chat::new(OPEN, Key::Enter);
    chat.handle_key_down(Key::Slash, false);
    chat.handle_key_press('/');
    assert_eq!(chat.get_text(), "/");
    type_str(&mut chat, "cmd");
    assert_eq!(chat.get_text(), "/cmd");
}

#[test]
fn cursor_moves_and_edits() {
    let mut chat = Chat::new(OPEN, Key::Enter);
    open(&mut chat);
    type_str(&mut chat, "abc");
    chat.handle_key_down(Key::Left, false);
    chat.handle_key_down(Key::Left, false);
    chat.handle_key_press('X');
    assert_eq!(chat.get_text(), "aXbc");
    assert_eq!(chat.cursor(), 2);
    chat.handle_key_down(Key::Delete, false);
    assert_eq!(chat.get_text(), "aXc");
    chat.handle_key_down(Key::Backspace, false);
    assert_eq!(chat.get_text(), "ac");
    assert_eq!(chat.cursor(), 1);
    chat.handle_key_down(Key::Home, false);
    assert_eq!(chat.cursor(), 0);
    chat.handle_key_down(Key::Left, false);
    assert_eq!(chat.cursor(), 0);
    chat.handle_key_down(Key::End, false);
    assert_eq!(chat.cursor(), 2);
    chat.handle_key_down(Key::Right, false);
    assert_eq!(chat.cursor(), 2);
}

#[test]
fn word_wise_moves_and_delete() {
    let mut chat = Chat::new(OPEN, Key::Enter);
    open(&mut chat);
    type_str(&mut chat, "x ab");
    chat.handle_key_down(Key::LeftCtrl, false);
    chat.handle_key_down(Key::Left, false);
    assert_eq!(chat.cursor(), 1);
    chat.handle_key_down(Key::Right, false);
    assert_eq!(chat.cursor(), 2);
    chat.handle_key_down(Key::End, false);
    chat.handle_key_down(Key::Backspace, false);
    assert_eq!(chat.get_text(), "x ");
    assert_eq!(chat.cursor(), 2);
    chat.handle_key_up(Key::LeftCtrl);
    chat.handle_key_down(Key::Backspace, false);
    assert_eq!(chat.get_text(), "x");
}

#[test]
fn sending_and_history_round_trip() {
    let mut chat = Chat::new(OPEN, Key::Enter);
    for line in ["one", "two", "three"] {
        open(&mut chat);
        type_str(&mut chat, line);
        chat.handle_key_down(Key::Enter, false);
        assert!(!chat.is_open());
    }
    open(&mut chat);
    type_str(&mut chat, "draft");
    chat.handle_key_down(Key::Left, false);
    chat.handle_key_down(Key::Up, false);
    assert_eq!(chat.get_text(), "three");
    chat.handle_key_down(Key::Up, false);
    assert_eq!(chat.get_text(), "two");
    chat.handle_key_down(Key::Up, false);
    assert_eq!(chat.get_text(), "one");
    chat.handle_key_down(Key::Up, false);
    assert_eq!(chat.get_text(), "one");
    chat.handle_key_down(Key::Down, false);
    chat.handle_key_down(Key::Down, false);
    assert_eq!(chat.get_text(), "three");
    chat.handle_key_down(Key::Down, false);
    assert_eq!(chat.get_text(), "draft");
    assert_eq!(chat.cursor(), 5);
}

#[test]
fn escape_does_not_record_history() {
    let mut chat = Chat::new(OPEN, Key::Enter);
    open(&mut chat);
    type_str(&mut chat, "gone");
    chat.handle_key_down(Key::Escape, false);
    open(&mut chat);
    chat.handle_key_down(Key::Up, false);
    assert_eq!(chat.get_text(), "");
}

#[test]
fn hints_are_asked_for_and_cycled() {
    let mut chat = Chat::new(OPEN, Key::Enter);
    open(&mut chat);
    type_str(&mut chat, "h");
    assert_eq!(chat.pending_query(), None);
    type_str(&mut chat, "i ");
    assert_eq!(chat.pending_query(), Some("hi".to_string()));
    chat.take_outgoing();
    let long: String = std::iter::repeat('a').take(193).collect();
    chat.receive_hints(
        "hi",
        vec![
            Hint { offset: 0, sentence: "hi there".to_string() },
            Hint { offset: 0, sentence: long },
            Hint { offset: 3, sentence: "oh hi".to_string() },
        ],
    );
    assert_eq!(chat.pending_query(), None);
    assert_eq!(last_status(&mut chat), Some("hi&7 there".to_string()));
    chat.handle_key_down(Key::Tab, false);
    assert_eq!(chat.get_text(), "hi there");
    assert_eq!(last_status(&mut chat), Some("&7oh &fhi".to_string()));
    chat.handle_key_down(Key::Tab, false);
    assert_eq!(chat.get_text(), "oh hi");
    chat.handle_key_down(Key::LeftShift, false);
    chat.handle_key_down(Key::Tab, false);
    assert_eq!(chat.get_text(), "hi there");
}

#[test]
fn stale_hints_are_dropped() {
    let mut chat = Chat::new(OPEN, Key::Enter);
    open(&mut chat);
    type_str(&mut chat, "ab");
    type_str(&mut chat, "c");
    chat.take_outgoing();
    chat.receive_hints("ab", vec![Hint { offset: 0, sentence: "abz".to_string() }]);
    assert_eq!(chat.pending_query(), Some("abc".to_string()));
    assert_eq!(last_status(&mut chat), None);
    chat.handle_key_down(Key::Tab, false);
    assert_eq!(chat.get_text(), "abc");
}

#[test]
fn set_text_retypes_host_input() {
    let mut chat = Chat::new(OPEN, Key::Enter);
    open(&mut chat);
    chat.take_outgoing();
    chat.set_text("yo");
    let out = chat.take_outgoing();
    assert_eq!(out.len(), 2 + 2 * 192 + 2);
    assert!(matches!(out[0], OutgoingEvent::InputDown(Key::End, false)));
    assert!(matches!(out[2], OutgoingEvent::InputDown(Key::Backspace, false)));
    assert!(matches!(out[out.len() - 1], OutgoingEvent::InputPress('o')));
    assert_eq!(chat.get_text(), "yo");
    assert_eq!(chat.cursor(), 2);
}

#[test]
fn overlay_full_match_shows_input() {
    assert_eq!(hint_overlay(&chars("abc"), &chars("abc"), 0), chars("abc"));
}

#[test]
fn overlay_long_hint_shifts_left() {
    let input = chars("hello");
    let hint: Vec<char> = chars(&format!("hello{}", "x".repeat(70)));
    let shown = hint_overlay(&input, &hint, 0);
    let colorized: Vec<char> = chars(&format!("hello&7{}", "x".repeat(70)));
    assert_eq!(shown, colorized[3..].to_vec());
}

#[test]
fn overlay_with_left_context_is_not_shifted() {
    let input = chars("lo");
    let hint: Vec<char> = chars(&format!("hel{}", "lo".to_string() + &"x".repeat(70)));
    let shown = hint_overlay(&input, &hint, 3);
    let expected = chars(&format!("&7hel&flo&7{}", "x".repeat(70)));
    assert_eq!(shown, expected);
}

#[test]
fn find_chars_first_occurrence() {
    assert_eq!(find_chars(&chars("abcabc"), &chars("ca")), Some(2));
    assert_eq!(find_chars(&chars("abc"), &chars("d")), None);
    assert_eq!(find_chars(&chars("abc"), &chars("")), Some(0));
}

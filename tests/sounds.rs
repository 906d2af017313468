use chatsounds_core::events::{EventHandlerModule, IncomingEvent, Key, MsgKind, OutgoingEvent, Printer};
use chatsounds_core::roster::{EntitiesModule, TabListEntry, TabListModule, ENTITY_SELF_ID};
use chatsounds_core::selector::{global_name, pick_clip, SpeakerCounts};
use chatsounds_core::sounds::{focus_action, ChatLog, ChatsoundsEventListener, Emitter, FocusAction, PlayAction, Trigger};

fn entry(id: u8, real: &str, nick: &str) -> TabListEntry {
    TabListEntry::from_id(id, real.to_string(), nick.to_string(), String::new())
}

fn world(ids: &[u8]) -> EntitiesModule {
    let mut e = EntitiesModule::new();
    for &id in ids {
        e.add(id);
    }
    e
}

#[test]
fn selection_is_deterministic_per_count() {
    let a = SpeakerCounts::new();
    let b = SpeakerCounts::new();
    assert_eq!(a.select("Alice", 10), b.select("Alice", 10));
    assert_eq!(a.select("Alice", 0), None);
    assert_eq!(a.seed_for("Alice"), b.seed_for("Alice"));
}

#[test]
fn counting_can_change_the_selection() {
    let mut c = SpeakerCounts::new();
    let first = c.select("Alice", 1000).unwrap();
    let mut changed = false;
    for _ in 0..20 {
        c.update_chat_count("Alice");
        if c.select("Alice", 1000).unwrap() != first {
            changed = true;
        }
    }
    assert!(changed);
    assert_eq!(c.messages_said("Alice"), 20);
    assert_eq!(c.messages_said("Bob"), 0);
    c.sync_reset();
    assert_eq!(c.messages_said("Alice"), 0);
    assert_eq!(c.select("Alice", 1000), Some(first));
}

#[test]
fn seeds_differ_between_speakers() {
    let c = SpeakerCounts::new();
    assert_ne!(c.seed_for("Alice"), c.seed_for("Bob"));
    assert_eq!(global_name(), "!global");
}

#[test]
fn pick_clip_stays_in_range() {
    for seed in 0..50u64 {
        let i = pick_clip(seed, 3).unwrap();
        assert!(i < 3);
        assert_eq!(pick_clip(seed, 3), Some(i));
    }
    assert_eq!(pick_clip(7, 0), None);
}

#[test]
fn lookup_exact_then_loose() {
    let mut tab = TabListModule::new();
    tab.insert(entry(3, "Alice", "&aAlice"));
    tab.insert(entry(5, "Bob", "Bob"));
    tab.insert(entry(4, "Ali", "Ali"));
    assert_eq!(tab.find_entity_id_by_name("&aAlice"), Some(3));
    assert_eq!(tab.find_entity_id_by_name("&c[Admin] &aAlice"), Some(3));
    assert_eq!(tab.find_entity_id_by_name("[x] Bob"), Some(5));
    assert_eq!(tab.find_entity_id_by_name("Carol"), None);
    tab.remove(5);
    assert_eq!(tab.find_entity_id_by_name("[x] Bob"), None);
    assert_eq!(tab.real_name(3), Some("Alice".to_string()));
}

#[test]
fn entities_come_and_go() {
    let mut e = world(&[1, 255]);
    assert!(e.get(1).is_some());
    assert_eq!(e.get(1).unwrap().id, 1);
    e.remove(1);
    assert!(e.get(1).is_none());
    assert!(e.get(2).is_none());
}

#[test]
fn continuation_lines_are_joined() {
    let mut log = ChatLog::new();
    assert_eq!(log.stitch("> &forphan"), "> &forphan");
    assert_eq!(log.stitch("Alice: hello"), "Alice: hello");
    assert_eq!(log.stitch("> &fworld"), "Alice: hello world");
    assert_eq!(log.stitch("> again"), "Alice: hello world again");
}

#[test]
fn player_line_plays_spatially_with_shared_seed() {
    let mut tab = TabListModule::new();
    tab.insert(entry(7, "alice_real", "&eAlice"));
    let entities = world(&[7, ENTITY_SELF_ID]);
    let mut l = ChatsoundsEventListener::new();
    let seed0 = SpeakerCounts::new().seed_for("alice_real");
    let r = l.handle_chat_received("&eAlice: &fhello there ", MsgKind::Normal, true, true, &tab, &entities, false);
    match r {
        Some(PlayAction::Play { phrase, seed, entity_id, spatial, anchored }) => {
            assert_eq!(phrase, "hello there");
            assert_eq!(seed, seed0);
            assert_eq!(entity_id, 7);
            assert!(spatial);
            assert!(!anchored);
        }
        _ => panic!("expected a sound"),
    }
    let r = l.handle_chat_received("&eAlice: &fhello there", MsgKind::Normal, true, true, &tab, &entities, false);
    match r {
        Some(PlayAction::Play { seed, .. }) => assert_ne!(seed, seed0),
        _ => panic!("expected a sound"),
    }
}

#[test]
fn short_names_and_unfocused_lines_do_not_play() {
    let mut tab = TabListModule::new();
    tab.insert(entry(7, "al", "Al"));
    let entities = world(&[7]);
    let mut l = ChatsoundsEventListener::new();
    assert!(l.handle_chat_received("Al: hi", MsgKind::Normal, true, true, &tab, &entities, false).is_none());
    assert!(l.handle_chat_received("&eAlice: hi", MsgKind::Normal, false, true, &tab, &entities, false).is_none());
    assert!(l.handle_chat_received("&eAlice: hi", MsgKind::Status, true, true, &tab, &entities, false).is_none());
}

#[test]
fn global_lines_play_as_local_player() {
    let tab = TabListModule::new();
    let entities = world(&[ENTITY_SELF_ID, 9]);
    let mut l = ChatsoundsEventListener::new();
    match l.handle_chat_received("&fcs hello", MsgKind::Normal, true, true, &tab, &entities, false) {
        Some(PlayAction::Play { phrase, entity_id, spatial, .. }) => {
            assert_eq!(phrase, "hello");
            assert_eq!(entity_id, ENTITY_SELF_ID);
            assert!(!spatial);
        }
        _ => panic!("expected a sound"),
    }
    match l.handle_chat_received("csent 9 boom", MsgKind::Normal, true, true, &tab, &entities, false) {
        Some(PlayAction::Play { entity_id, spatial, .. }) => {
            assert_eq!(entity_id, 9);
            assert!(spatial);
        }
        _ => panic!("expected a sound"),
    }
}

#[test]
fn stop_phrase_stops_everything() {
    let entities = world(&[ENTITY_SELF_ID]);
    let mut l = ChatsoundsEventListener::new();
    l.add_emitter(Emitter { entity_id: 3, sink: 1, anchored: false });
    l.add_emitter(Emitter { entity_id: 4, sink: 2, anchored: true });
    let t = Trigger { entity_id: ENTITY_SELF_ID, speaker: "me".to_string(), text: "&fSH ".to_string(), anchored: false };
    assert!(matches!(l.play_trigger(t, &entities), Some(PlayAction::StopAll)));
    assert!(l.emitter_list().is_empty());
    let t = Trigger { entity_id: ENTITY_SELF_ID, speaker: "me".to_string(), text: "shh".to_string(), anchored: false };
    assert!(matches!(l.play_trigger(t, &entities), Some(PlayAction::Play { .. })));
}

#[test]
fn tick_drops_dead_emitters() {
    let entities = world(&[3]);
    let mut l = ChatsoundsEventListener::new();
    l.add_emitter(Emitter { entity_id: 3, sink: 1, anchored: false });
    l.add_emitter(Emitter { entity_id: 4, sink: 2, anchored: false });
    l.add_emitter(Emitter { entity_id: 4, sink: 3, anchored: true });
    l.add_emitter(Emitter { entity_id: 3, sink: 4, anchored: false });
    l.handle_tick(&entities, true, &vec![true, true, true, false]);
    let sinks: Vec<u64> = l.emitter_list().iter().map(|e| e.sink).collect();
    assert_eq!(sinks, vec![1, 3]);
    l.handle_tick(&entities, false, &vec![true, true]);
    assert!(l.emitter_list().is_empty());
}

#[test]
fn synthesized_keys_are_not_fed_back() {
    let mut b = EventHandlerModule::new();
    for c in "hello".chars() {
        b.new_outgoing_event(OutgoingEvent::InputPress(c));
    }
    assert!(b.accepts(&IncomingEvent::InputPress('x')));
    let flushed = b.handle_outgoing_events();
    assert_eq!(flushed.len(), 5);
    for e in &flushed {
        if let OutgoingEvent::InputPress(c) = e {
            assert!(!b.accepts(&IncomingEvent::InputPress(*c)));
            assert!(!b.accepts(&IncomingEvent::InputDown(Key::Other(1), false)));
        }
    }
    assert!(b.accepts(&IncomingEvent::Tick));
    assert!(!b.accepts(&IncomingEvent::ChatReceived("x".to_string(), MsgKind::Normal)));
    b.finish_outgoing_events();
    assert!(b.accepts(&IncomingEvent::InputPress('x')));
    assert!(b.handle_outgoing_events().is_empty());
}

#[test]
fn printer_status_decays_on_tick() {
    let mut p = Printer::new();
    assert!(matches!(Printer::print("hi".to_string()), OutgoingEvent::ChatAdd(ref s) if s == "hi"));
    p.status("wait".to_string());
    assert!(p.handle_tick(false).is_none());
    assert!(matches!(p.handle_tick(true), Some(OutgoingEvent::ChatAddOf(ref s, MsgKind::Status)) if s.is_empty()));
    assert!(p.handle_tick(true).is_none());
    p.status_forever("stay".to_string());
    assert!(p.handle_tick(true).is_none());
}

#[test]
fn focus_changes_mute_and_restore() {
    assert_eq!(focus_action(true, false, false), FocusAction::Mute);
    assert_eq!(focus_action(true, true, true), FocusAction::Restore);
    assert_eq!(focus_action(true, true, false), FocusAction::Keep);
    assert_eq!(focus_action(false, false, true), FocusAction::Keep);
}

#[test]
fn accepted_line_counts_speaker_once() {
    let mut tab = TabListModule::new();
    tab.insert(entry(7, "alice_real", "&eAlice"));
    let entities = world(&[7]);
    let mut l = ChatsoundsEventListener::new();
    let before = l.seed_for("alice_real");
    l.handle_chat_received("&eAlice: hi", MsgKind::Normal, true, true, &tab, &entities, false);
    let mut c = SpeakerCounts::new();
    c.update_chat_count("alice_real");
    assert_eq!(l.seed_for("alice_real"), c.seed_for("alice_real"));
    assert_ne!(l.seed_for("alice_real"), before);
    assert_eq!(l.seed_for("bob"), SpeakerCounts::new().seed_for("bob"));
}

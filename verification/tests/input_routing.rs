use mkframe::app::{REPEAT_DELAY_MS, REPEAT_RATE_MS};
use mkframe::drag::{build_uri_list, same_text, DragSession, URI_LIST_MIME};
use mkframe::repeat::elapsed_ms;
use mkframe::{
    App, Capabilities, Key, KeyEvent, KeyRepeat, KeyState, Modifiers, PointerButton, PointerEvent,
    PointerEventKind, PointerInput, PointerInputKind, PopupConfig, WindowId,
};

fn all_capabilities() -> Capabilities {
    Capabilities { layer_shell: true, subcompositor: true, attached_surface: true, data_device: true }
}

fn press(key: Key) -> KeyEvent {
    KeyEvent { key, text: None, modifiers: Modifiers::default(), state: KeyState::Pressed }
}

fn keys(events: &[KeyEvent]) -> Vec<(Key, KeyState)> {
    events.iter().map(|e| (e.key, e.state)).collect()
}

#[test]
fn held_key_repeats_after_the_delay_at_the_rate() {
    assert_eq!((REPEAT_DELAY_MS, REPEAT_RATE_MS), (400, 33));
    let mut app = App::new(all_capabilities());
    assert_eq!(app.key_repeat_timeout(0), None);
    app.press_key(0x6b, Some("k".to_string()), 1000);
    assert_eq!(app.key_repeat_timeout(1000), Some(400));
    assert_eq!(app.key_repeat_timeout(1150), Some(250));
    assert_eq!(app.key_repeat_timeout(1399), Some(1));

    // The press itself, and no repeat before the delay has passed.
    let events = app.poll_key_events(1000);
    assert_eq!(keys(&events), vec![(Key::K, KeyState::Pressed)]);
    assert!(app.poll_key_events(1200).is_empty());
    assert!(app.poll_key_events(1399).is_empty());

    // Exactly one repeat at the delay.
    assert_eq!(app.key_repeat_timeout(1400), Some(0));
    let events = app.poll_key_events(1400);
    assert_eq!(events.len(), 1);
    assert_eq!(events[0].key, Key::K);
    assert_eq!(events[0].state, KeyState::Pressed);
    assert_eq!(events[0].text, Some("k".to_string()));
    assert!(app.poll_key_events(1400).is_empty());
    assert_eq!(app.key_repeat_timeout(1400), Some(33));

    // Then one every 33 ms at most.
    assert!(app.poll_key_events(1432).is_empty());
    assert_eq!(app.key_repeat_timeout(1432), Some(1));
    assert_eq!(app.poll_key_events(1433).len(), 1);
    assert!(app.poll_key_events(1465).is_empty());
    assert_eq!(app.poll_key_events(1500).len(), 1);
    // A late poll yields one repeat, not the repeats that were missed.
    assert_eq!(app.poll_key_events(9000).len(), 1);
    assert!(app.poll_key_events(9000).is_empty());
}

#[test]
fn releasing_the_key_stops_the_repeat() {
    let mut app = App::new(all_capabilities());
    app.press_key(0x61, None, 0);
    app.poll_key_events(0);
    assert_eq!(app.poll_key_events(500).len(), 1);
    app.release_key(0x61, None);
    assert_eq!(app.key_repeat_timeout(600), None);
    let events = app.poll_key_events(600);
    assert_eq!(keys(&events), vec![(Key::A, KeyState::Released)]);
    assert!(app.poll_key_events(5000).is_empty());

    // Releasing another key than the held one changes nothing.
    app.press_key(0x61, None, 6000);
    app.release_key(0x62, None);
    assert_eq!(app.key_repeat_timeout(6000), Some(400));
    let events = app.poll_key_events(6400);
    assert_eq!(
        keys(&events),
        vec![(Key::A, KeyState::Pressed), (Key::B, KeyState::Released), (Key::A, KeyState::Pressed)]
    );
}

#[test]
fn pressing_another_key_replaces_the_held_key() {
    let mut app = App::new(all_capabilities());
    app.press_key(0x61, None, 0);
    app.press_key(0x62, None, 300);
    app.poll_key_events(300);
    // The first key would have repeated at 400; the second starts its own delay.
    assert!(app.poll_key_events(450).is_empty());
    assert_eq!(app.key_repeat_timeout(450), Some(250));
    let events = app.poll_key_events(700);
    assert_eq!(keys(&events), vec![(Key::B, KeyState::Pressed)]);
}

#[test]
fn modifier_keys_do_not_repeat() {
    let mut repeat = KeyRepeat::new(400, 33);
    repeat.press(press(Key::Shift), 0);
    assert!(!repeat.is_active());
    assert_eq!(repeat.timeout(1000), None);
    assert!(repeat.poll(1000).is_none());
    repeat.press(press(Key::A), 0);
    for modifier in [Key::Shift, Key::Control, Key::Alt, Key::Super] {
        repeat.press(press(modifier), 100);
    }
    assert_eq!(repeat.held.as_ref().map(|h| (h.event.key, h.since)), Some((Key::A, 0)));
    let repeated = repeat.poll(400).unwrap();
    assert_eq!((repeated.key, repeated.state), (Key::A, KeyState::Pressed));
}

#[test]
fn a_modifier_press_leaves_key_repeat_as_it_is() {
    // Shift_L, Shift_R, Control_L, Control_R, Alt_L, Alt_R, Super_L, Super_R
    let modifiers = [0xffe1u32, 0xffe2, 0xffe3, 0xffe4, 0xffe9, 0xffea, 0xffeb, 0xffec];
    let mut app = App::new(all_capabilities());
    // With no key held, a modifier does not start to repeat.
    for symbol in modifiers {
        app.press_key(symbol, None, 0);
        assert_eq!(app.key_repeat_timeout(0), None);
    }
    assert_eq!(app.poll_key_events(10_000).len(), 8);
    assert!(app.poll_key_events(20_000).is_empty());

    // A held key goes on repeating, with its own delay, when a modifier goes down or up.
    app.press_key(0x61, None, 30_000);
    for symbol in modifiers {
        app.press_key(symbol, None, 30_100);
        assert_eq!(app.key_repeat_timeout(30_100), Some(300));
        app.release_key(symbol, None);
        assert_eq!(app.key_repeat_timeout(30_100), Some(300));
    }
    let events = app.poll_key_events(30_400);
    assert_eq!(events.len(), 18);
    assert_eq!(events[0].key, Key::A);
    assert_eq!((events[1].key, events[1].state), (Key::Shift, KeyState::Pressed));
    assert_eq!((events[2].key, events[2].state), (Key::Shift, KeyState::Released));
    assert_eq!((events[5].key, events[7].key), (Key::Control, Key::Control));
    assert_eq!((events[9].key, events[13].key), (Key::Alt, Key::Super));
    assert_eq!((events[17].key, events[17].state), (Key::A, KeyState::Pressed));
    // A key without a name of its own does repeat.
    app.press_key(0xffe5, None, 40_000);
    assert_eq!(app.key_repeat_timeout(40_000), Some(400));
}

#[test]
fn repeat_with_other_timing_and_a_clock_that_steps_back() {
    let mut repeat = KeyRepeat::new(10, 0);
    repeat.press(press(Key::Up), 100);
    assert!(repeat.poll(109).is_none());
    // With no interval every poll past the delay repeats.
    assert!(repeat.poll(110).is_some());
    assert!(repeat.poll(110).is_some());
    assert_eq!(repeat.timeout(110), Some(0));

    let mut repeat = KeyRepeat::new(10, 5);
    repeat.press(press(Key::Up), 100);
    // Before the press no time has passed.
    assert_eq!(repeat.timeout(50), Some(10));
    assert!(repeat.poll(50).is_none());
    assert!(repeat.poll(120).is_some());
    assert_eq!(repeat.timeout(115), Some(5));
    assert!(repeat.poll(115).is_none());
    assert_eq!(repeat.timeout(123), Some(2));
    repeat.release(Key::Down);
    assert!(repeat.is_active());
    repeat.release(Key::Up);
    assert!(!repeat.is_active());
    assert_eq!(elapsed_ms(10, 25), 15);
    assert_eq!(elapsed_ms(25, 10), 0);
    assert_eq!(elapsed_ms(0, u64::MAX), u64::MAX);
}

#[test]
fn key_events_carry_the_modifiers_of_their_time() {
    let mut app = App::new(all_capabilities());
    app.update_modifiers(true, false, true, false);
    assert_eq!(
        app.modifiers(),
        Modifiers { shift: true, ctrl: false, alt: true, super_: false }
    );
    app.press_key(0xff0d, Some("\r".to_string()), 5);
    app.update_modifiers(false, true, false, true);
    app.release_key(0xff0d, None);
    app.press_key(0x1234, None, 6);
    let events = app.poll_key_events(7);
    assert_eq!(events.len(), 3);
    assert_eq!(events[0].key, Key::Enter);
    assert_eq!(events[0].state, KeyState::Pressed);
    assert_eq!(events[0].text, Some("\r".to_string()));
    assert!(events[0].modifiers.shift && events[0].modifiers.alt && !events[0].modifiers.ctrl);
    assert_eq!(events[1].state, KeyState::Released);
    assert!(events[1].modifiers.ctrl && events[1].modifiers.super_ && !events[1].modifiers.shift);
    assert_eq!(events[2].key, Key::Unknown(0x1234));
    assert_eq!(events[0].to_key_string(), Some("\n".to_string()));
}

#[test]
fn keyboard_focus_follows_enter_and_leave() {
    let mut app = App::new(all_capabilities());
    let window = app.create_window(4, 10, 10);
    let popup = app.create_popup(window, 5, PopupConfig::default());
    assert!(popup.is_some());
    assert_eq!(app.keyboard_focus(), None);
    app.update_modifiers(true, true, false, false);
    app.keyboard_enter(4);
    assert_eq!(app.keyboard_focus(), Some(window));
    // A surface that is no window gives the focus to nobody.
    app.keyboard_enter(5);
    assert_eq!(app.keyboard_focus(), None);
    app.keyboard_enter(4);
    app.keyboard_leave();
    assert_eq!(app.keyboard_focus(), None);
    // The modifiers belong to the keyboard, not to the surface.
    assert!(app.modifiers().shift && app.modifiers().ctrl);
}

#[test]
fn pointer_frame_tracks_focus_position_and_events() {
    let mut app = App::new(all_capabilities());
    let window = app.create_window(4, 10, 10);
    assert_eq!(app.pointer_position(), (0, 0));
    let frame = [
        PointerInput { surface: 4, x: 256, y: 512, kind: PointerInputKind::Enter },
        PointerInput { surface: 4, x: 300, y: 600, kind: PointerInputKind::Motion },
        PointerInput {
            surface: 4,
            x: 1,
            y: 1,
            kind: PointerInputKind::Press { button: 272, serial: 99 },
        },
        PointerInput { surface: 4, x: 2, y: 2, kind: PointerInputKind::Release { button: 273 } },
        PointerInput {
            surface: 4,
            x: 3,
            y: 3,
            kind: PointerInputKind::Axis { horizontal: 0, vertical: 0 },
        },
        PointerInput {
            surface: 4,
            x: 3,
            y: 3,
            kind: PointerInputKind::Axis { horizontal: 0, vertical: -2 },
        },
        PointerInput {
            surface: 4,
            x: 3,
            y: 3,
            kind: PointerInputKind::Press { button: 280, serial: 100 },
        },
        PointerInput { surface: 4, x: 9, y: 9, kind: PointerInputKind::Leave },
    ];
    app.pointer_frame(&frame[..3]);
    assert_eq!(app.pointer_focus(), Some(window));
    assert_eq!(app.last_serial(), 99);
    assert_eq!(app.pointer_position(), (300, 600));
    app.pointer_frame(&frame[3..]);
    assert_eq!(app.pointer_focus(), None);
    assert_eq!(app.last_serial(), 100);
    // Leaving keeps the last position.
    assert_eq!(app.pointer_position(), (300, 600));

    let events = app.poll_pointer_events();
    let at = |kind| PointerEvent { kind, x: 300, y: 600 };
    assert_eq!(
        events,
        vec![
            PointerEvent { kind: PointerEventKind::Enter, x: 256, y: 512 },
            at(PointerEventKind::Motion),
            at(PointerEventKind::Press(PointerButton::Left)),
            at(PointerEventKind::Release(PointerButton::Right)),
            at(PointerEventKind::Scroll { dx: 0, dy: -2 }),
            at(PointerEventKind::Press(PointerButton::Other(280))),
            at(PointerEventKind::Leave),
        ]
    );
    assert!(app.poll_pointer_events().is_empty());
    app.pointer_frame(&[]);
    assert!(app.poll_pointer_events().is_empty());

    app.pointer_input(PointerInput { surface: 77, x: 5, y: 6, kind: PointerInputKind::Enter });
    assert_eq!(app.pointer_focus(), None);
    assert_eq!(app.pointer_position(), (5, 6));
    assert!(app.poll_drop_events().is_empty());
}

fn started_app() -> (App, WindowId) {
    let mut app = App::new(all_capabilities());
    let window = app.create_window(1, 10, 10);
    app.new_capability();
    (app, window)
}

#[test]
fn drag_offers_one_line_for_each_resolved_file() {
    let (mut app, window) = started_app();
    assert!(app.has_seat());
    let files = vec![Some("/tmp/a b.txt".to_string()), None, Some("/home/é".to_string())];
    assert!(app.start_drag(window, &files));
    assert!(app.is_dragging());
    let expected = "file:///tmp/a b.txt\r\nfile:///home/é\r\n".as_bytes().to_vec();
    assert_eq!(app.send_request("text/uri-list"), Some(&expected));
    assert_eq!(app.send_request("text/plain"), None);
    assert_eq!(app.send_request(""), None);
    assert_eq!(build_uri_list(&files), expected);
    assert_eq!(URI_LIST_MIME, "text/uri-list");
}

#[test]
fn drag_without_a_resolved_file_does_not_start() {
    let (mut app, window) = started_app();
    assert!(!app.start_drag(window, &vec![]));
    assert!(!app.is_dragging());
    assert!(!app.start_drag(window, &vec![None, None]));
    assert!(!app.is_dragging());
    assert_eq!(app.send_request("text/uri-list"), None);
    assert!(build_uri_list(&vec![None]).is_empty());
    // An empty path still makes a line.
    assert_eq!(build_uri_list(&vec![Some(String::new())]), b"file://\r\n".to_vec());
}

#[test]
fn one_drag_at_a_time() {
    let (mut app, window) = started_app();
    assert!(app.start_drag(window, &vec![Some("/first".to_string())]));
    assert!(!app.start_drag(window, &vec![Some("/second".to_string())]));
    assert_eq!(app.send_request("text/uri-list"), Some(&b"file:///first\r\n".to_vec()));
    app.cancelled();
    assert!(!app.is_dragging());
    assert_eq!(app.send_request("text/uri-list"), None);
    assert!(app.start_drag(window, &vec![Some("/second".to_string())]));
    assert_eq!(app.send_request("text/uri-list"), Some(&b"file:///second\r\n".to_vec()));
    app.dnd_finished();
    assert!(!app.is_dragging());
    assert!(app.start_drag(window, &vec![Some("/third".to_string())]));
}

#[test]
fn drag_needs_capability_seat_and_window() {
    let files = vec![Some("/f".to_string())];
    let mut app = App::new(all_capabilities());
    let window = app.create_window(1, 10, 10);
    // No seat yet.
    assert!(!app.has_seat());
    assert!(!app.start_drag(window, &files));
    app.new_capability();
    assert!(!app.start_drag(WindowId(2), &files));
    assert!(!app.is_dragging());
    assert!(app.start_drag(window, &files));

    let mut app = App::new(Capabilities { data_device: false, ..all_capabilities() });
    let window = app.create_window(1, 10, 10);
    app.new_capability();
    assert!(!app.start_drag(window, &files));
    assert!(!app.is_dragging());
}

#[test]
fn drag_session_by_itself() {
    let mut session = DragSession::new();
    assert!(!session.is_active());
    assert!(!session.begin(Vec::new()));
    assert!(session.begin(vec![1, 2, 3]));
    assert!(!session.begin(vec![4]));
    assert_eq!(session.respond("text/uri-list"), Some(&vec![1u8, 2, 3]));
    assert_eq!(session.respond("TEXT/URI-LIST"), None);
    session.end();
    assert_eq!(session.respond("text/uri-list"), None);
    assert!(same_text("a", "a"));
    assert!(!same_text("a", "b"));
    assert!(!same_text("a", "ab"));
}

use guikit::input::{Event, InputState, Key, MouseButton, KEY_RETURN};

fn key(code: u32) -> Key {
    Key { code }
}

#[test]
fn consume_wipes_everything_but_the_cursor() {
    let mut s = InputState::new();
    s.event(&Event::CursorMove { x: 11, y: 22 });
    s.event(&Event::Scroll { delta: 3 });
    s.event(&Event::KeyPress { key: key(97) });
    s.event(&Event::KeyPress { key: key(98) });
    s.event(&Event::MousePress { button: MouseButton::Left });
    s.processed();
    s.event(&Event::KeyPress { key: key(99) });
    s.event(&Event::KeyRelease { key: key(97) });

    s.consume();

    assert!(s.pressed_mouse.is_none());
    assert!(s.held_mouse.is_none());
    assert!(s.released_mouse.is_none());
    assert!(s.pressed_keys.is_empty());
    assert!(s.held_keys.is_empty());
    assert!(s.released_keys.is_empty());
    assert_eq!(s.mouse_wheel, 0);
    assert_eq!((s.cursor.x, s.cursor.y), (11, 22));
}

#[test]
fn processed_promotes_pressed_to_held_in_order() {
    let mut s = InputState::new();
    s.event(&Event::KeyPress { key: key(120) });
    s.processed();
    // x is now held; press two more keys and release one unrelated event.
    s.event(&Event::KeyPress { key: key(97) });
    s.event(&Event::KeyPress { key: key(98) });
    s.event(&Event::MousePress { button: MouseButton::Right });
    s.event(&Event::Scroll { delta: 7 });

    s.processed();

    assert_eq!(s.held_keys, vec![key(120), key(97), key(98)]);
    assert!(s.pressed_keys.is_empty());
    assert!(s.released_keys.is_empty());
    assert!(s.released_mouse.is_none());
    assert_eq!(s.held_mouse, Some(MouseButton::Right));
    assert!(s.pressed_mouse.is_none());
    assert_eq!(s.mouse_wheel, 0);
}

#[test]
fn processed_snapshots_the_cursor() {
    let mut s = InputState::new();
    s.event(&Event::CursorMove { x: 5, y: 6 });
    s.processed();
    assert_eq!((s.last_cursor.x, s.last_cursor.y), (5, 6));
    s.event(&Event::CursorMove { x: 9, y: 10 });
    assert_eq!((s.last_cursor.x, s.last_cursor.y), (5, 6));
    assert_eq!((s.cursor.x, s.cursor.y), (9, 10));
}

#[test]
fn repeated_key_press_is_not_duplicated() {
    let mut s = InputState::new();
    s.event(&Event::KeyPress { key: key(97) });
    s.event(&Event::KeyPress { key: key(97) });
    assert_eq!(s.pressed_keys, vec![key(97)]);

    // Once held, an OS-repeated key-down does not resurrect a press.
    s.processed();
    s.event(&Event::KeyPress { key: key(97) });
    assert!(s.pressed_keys.is_empty());
    assert_eq!(s.held_keys, vec![key(97)]);
}

#[test]
fn key_release_removes_first_match_and_records_release() {
    let mut s = InputState::new();
    s.event(&Event::KeyPress { key: key(97) });
    s.event(&Event::KeyPress { key: key(98) });
    s.processed();
    s.event(&Event::KeyPress { key: key(99) });

    s.event(&Event::KeyRelease { key: key(97) });
    s.event(&Event::KeyRelease { key: key(99) });

    assert_eq!(s.held_keys, vec![key(98)]);
    assert!(s.pressed_keys.is_empty());
    assert_eq!(s.released_keys, vec![key(97), key(99)]);
}

#[test]
fn mouse_press_overwrites_and_release_clears() {
    let mut s = InputState::new();
    s.event(&Event::MousePress { button: MouseButton::Left });
    s.event(&Event::MousePress { button: MouseButton::Middle });
    assert_eq!(s.pressed_mouse, Some(MouseButton::Middle));

    s.processed();
    assert_eq!(s.held_mouse, Some(MouseButton::Middle));

    s.event(&Event::MouseRelease { button: MouseButton::Middle });
    assert!(s.pressed_mouse.is_none());
    assert!(s.held_mouse.is_none());
    assert_eq!(s.released_mouse, Some(MouseButton::Middle));
}

#[test]
fn wheel_accumulates_until_processed() {
    let mut s = InputState::new();
    s.event(&Event::Scroll { delta: 2 });
    s.event(&Event::Scroll { delta: -5 });
    assert_eq!(s.mouse_wheel, -3);
    s.processed();
    assert_eq!(s.mouse_wheel, 0);
}

#[test]
fn wheel_saturates_instead_of_overflowing() {
    let mut s = InputState::new();
    s.event(&Event::Scroll { delta: i64::MAX });
    s.event(&Event::Scroll { delta: i64::MAX });
    assert_eq!(s.mouse_wheel, i64::MAX);
    s.consume();
    s.event(&Event::Scroll { delta: i64::MIN });
    s.event(&Event::Scroll { delta: -1 });
    assert_eq!(s.mouse_wheel, i64::MIN);
}

#[test]
fn return_key_is_an_ordinary_key_to_the_state() {
    let mut s = InputState::new();
    s.event(&Event::KeyPress { key: key(KEY_RETURN) });
    assert_eq!(s.pressed_keys, vec![key(KEY_RETURN)]);
}

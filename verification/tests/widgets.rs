use guikit::input::{Event, Key, MouseButton, KEY_ESCAPE, KEY_MINUS, KEY_NUMPAD_MINUS, KEY_RETURN};
use guikit::{
    Button, Color, DrawCommand, Gui, GuiElement, HAlign, InputBox, Label, Offset, TextMetrics,
    VAlign,
};

fn gui() -> Gui {
    let mut g = Gui::new(TextMetrics { glyph_width: 10, glyph_height: 20 });
    g.event(&Event::Resize { width: 800, height: 600 });
    g
}

fn top_left(x: i64, y: i64) -> Offset {
    Offset { relative: (x, y), align: (HAlign::Left, VAlign::Top) }
}

fn key(code: u32) -> Key {
    Key { code }
}

#[test]
fn label_render_emits_background_then_text() {
    let mut g = gui();
    let mut label = Label::new("ab", top_left(0, 30));
    let mut frame: Vec<DrawCommand> = Vec::new();
    label.render(&mut g, &mut frame);

    // "ab" measures (20, 20); the origin is the text baseline at (0, 30).
    assert_eq!(frame.len(), 2);
    assert_eq!(
        frame[0],
        DrawCommand::Rect {
            color: Color { r: 230, g: 230, b: 230, a: 128 },
            x: -2,
            y: 8,
            width: 25,
            height: 25,
        }
    );
    assert_eq!(
        frame[1],
        DrawCommand::Text {
            color: Color { r: 0, g: 0, b: 0, a: 255 },
            font_size: 24,
            text: vec!['a', 'b'],
            x: 0,
            y: 30,
        }
    );
}

#[test]
fn label_without_background_emits_only_text() {
    let mut g = gui();
    let mut label = Label::new("ab", top_left(0, 30));
    label.background = false;
    let mut frame: Vec<DrawCommand> = Vec::new();
    label.render(&mut g, &mut frame);
    assert_eq!(frame.len(), 1);
    assert!(matches!(frame[0], DrawCommand::Text { .. }));
}

#[test]
fn button_click_inside_presses_and_consumes() {
    let mut g = gui();
    // Hitbox of "ab" at baseline (0, 30): x in (0, 20), y in (10, 30).
    let mut button = Button::new("ab", top_left(0, 30));
    g.event(&Event::CursorMove { x: 5, y: 20 });
    g.event(&Event::MousePress { button: MouseButton::Left });

    let mut frame: Vec<DrawCommand> = Vec::new();
    button.render(&mut g, &mut frame);

    assert!(button.is_pressed());
    assert!(g.input.pressed_mouse.is_none());
}

#[test]
fn button_click_outside_leaves_input_for_others() {
    let mut g = gui();
    let mut button = Button::new("ab", top_left(0, 30));
    g.event(&Event::CursorMove { x: 100, y: 100 });
    g.event(&Event::MousePress { button: MouseButton::Left });

    let mut frame: Vec<DrawCommand> = Vec::new();
    button.render(&mut g, &mut frame);

    assert!(!button.is_pressed());
    assert_eq!(g.input.pressed_mouse, Some(MouseButton::Left));
}

#[test]
fn button_press_is_transient_across_frames() {
    let mut g = gui();
    let mut button = Button::new("ab", top_left(0, 30));
    g.event(&Event::CursorMove { x: 5, y: 20 });
    g.event(&Event::MousePress { button: MouseButton::Left });
    let mut frame: Vec<DrawCommand> = Vec::new();
    button.render(&mut g, &mut frame);
    assert!(button.is_pressed());

    // Next frame: no pending press, so the state is recomputed to unpressed.
    button.render(&mut g, &mut frame);
    assert!(!button.is_pressed());
}

#[test]
fn inputbox_applies_keys_in_arrival_order() {
    let mut g = gui();
    let mut b = InputBox::new("nm", top_left(0, 30));
    b.active = true;
    g.event(&Event::KeyPress { key: key(97) });
    g.event(&Event::KeyPress { key: key(98) });
    g.event(&Event::KeyPress { key: key(8) });

    let mut frame: Vec<DrawCommand> = Vec::new();
    b.render(&mut g, &mut frame);

    assert_eq!(b.input, vec!['a']);
    assert!(b.active);
    // The active box advanced the frame: the keys are held now.
    assert!(g.input.pressed_keys.is_empty());
    assert_eq!(g.input.held_keys, vec![key(97), key(98), key(8)]);
}

#[test]
fn inputbox_escape_clears_and_minus_keys_append_dash() {
    let mut g = gui();
    let mut b = InputBox::new("nm", top_left(0, 30)).value("abc");
    b.active = true;
    g.event(&Event::KeyPress { key: key(KEY_ESCAPE) });
    g.event(&Event::KeyPress { key: key(KEY_MINUS) });
    g.event(&Event::KeyPress { key: key(KEY_NUMPAD_MINUS) });

    let mut frame: Vec<DrawCommand> = Vec::new();
    b.render(&mut g, &mut frame);

    assert_eq!(b.input, vec!['-', '-']);
}

#[test]
fn inputbox_return_deactivates_without_advancing_the_frame() {
    let mut g = gui();
    let mut b = InputBox::new("nm", top_left(0, 30)).value("7");
    b.active = true;
    g.event(&Event::KeyPress { key: key(KEY_RETURN) });

    let mut frame: Vec<DrawCommand> = Vec::new();
    b.render(&mut g, &mut frame);

    assert!(!b.active);
    assert_eq!(b.input, vec!['7']);
    // No processed() ran: the Return press is still pending.
    assert_eq!(g.input.pressed_keys, vec![key(KEY_RETURN)]);
}

#[test]
fn inputbox_click_inside_focuses_and_consumes() {
    let mut g = gui();
    let mut b = InputBox::new("nm", top_left(0, 30)).value("ab");
    b.show_desc = false;
    g.event(&Event::CursorMove { x: 5, y: 20 });
    g.event(&Event::MousePress { button: MouseButton::Left });
    g.event(&Event::KeyPress { key: key(97) });

    let mut frame: Vec<DrawCommand> = Vec::new();
    b.render(&mut g, &mut frame);

    assert!(b.active);
    assert!(g.input.pressed_mouse.is_none());
    assert!(g.input.pressed_keys.is_empty());
    // The press that focused the box never reached the text.
    assert_eq!(b.input, vec!['a', 'b']);
}

#[test]
fn inputbox_click_outside_unfocuses_without_consuming() {
    let mut g = gui();
    let mut b = InputBox::new("nm", top_left(0, 30)).value("ab");
    b.show_desc = false;
    b.active = true;
    g.event(&Event::CursorMove { x: 300, y: 300 });
    g.event(&Event::MousePress { button: MouseButton::Left });

    let mut frame: Vec<DrawCommand> = Vec::new();
    b.render(&mut g, &mut frame);

    assert!(!b.active);
    assert_eq!(g.input.pressed_mouse, Some(MouseButton::Left));
}

#[test]
fn inputbox_background_color_follows_focus() {
    let mut g = gui();
    let mut b = InputBox::new("nm", top_left(0, 30));
    let mut frame: Vec<DrawCommand> = Vec::new();
    b.render(&mut g, &mut frame);
    assert!(matches!(
        frame[0],
        DrawCommand::Rect { color: Color { r: 230, g: 230, b: 230, a: 128 }, .. }
    ));

    b.active = true;
    let mut frame2: Vec<DrawCommand> = Vec::new();
    b.render(&mut g, &mut frame2);
    assert!(matches!(
        frame2[0],
        DrawCommand::Rect { color: Color { r: 204, g: 204, b: 204, a: 191 }, .. }
    ));
}

#[test]
fn inputbox_empty_text_is_drawn_as_one_space() {
    let mut g = gui();
    let mut b = InputBox::new("", top_left(0, 30));
    b.show_desc = false;
    let mut frame: Vec<DrawCommand> = Vec::new();
    b.render(&mut g, &mut frame);
    match &frame[1] {
        DrawCommand::Text { text, .. } => assert_eq!(text, &vec![' ']),
        other => panic!("expected a text command, got {:?}", other),
    }
}

#[test]
fn inputbox_shows_description_prefix() {
    let mut g = gui();
    let b = InputBox::new("nm", top_left(0, 30)).value("5");
    assert_eq!(b.full_text(), vec!['n', 'm', ':', ' ', '5']);
    // 5 glyphs wide, one line tall.
    assert_eq!(b.get_size(&g), (50, 20));
    g.event(&Event::Resize { width: 1, height: 1 });
    assert_eq!(b.get_size(&g), (50, 20));
}

use guikit::input::Event;
use guikit::inputbox::parse_i64;
use guikit::{DrawCommand, Gui, GuiElement, HAlign, InputBox, MultiBox, Offset, TextMetrics, VAlign};

fn gui() -> Gui {
    let mut g = Gui::new(TextMetrics { glyph_width: 10, glyph_height: 20 });
    g.event(&Event::Resize { width: 800, height: 600 });
    g
}

fn anchored(x: i64, y: i64, h: HAlign) -> Offset {
    Offset { relative: (x, y), align: (h, VAlign::Top) }
}

#[test]
fn parsed_into_is_blocked_while_active() {
    let mut b = InputBox::new("nm", anchored(0, 0, HAlign::Left)).value("42");
    b.active = true;
    let mut target: i64 = -1;
    b.input(&mut target);
    assert_eq!(target, -1);
}

#[test]
fn parsed_into_reads_the_field_once_inactive() {
    let b = InputBox::new("nm", anchored(0, 0, HAlign::Left)).value("42");
    let mut target: i64 = -1;
    b.input(&mut target);
    assert_eq!(target, 42);
}

#[test]
fn parsed_into_ignores_malformed_text() {
    let b = InputBox::new("nm", anchored(0, 0, HAlign::Left)).value("abc");
    let mut target: i64 = 7;
    b.input(&mut target);
    assert_eq!(target, 7);
}

#[test]
fn parse_accepts_signs_zeros_and_extremes() {
    assert_eq!(parse_i64(&vec!['4', '2']), Some(42));
    assert_eq!(parse_i64(&vec!['+', '7']), Some(7));
    assert_eq!(parse_i64(&vec!['-', '0']), Some(0));
    assert_eq!(parse_i64(&vec!['0', '0', '4', '2']), Some(42));
    let max: Vec<char> = "9223372036854775807".chars().collect();
    assert_eq!(parse_i64(&max), Some(i64::MAX));
    let min: Vec<char> = "-9223372036854775808".chars().collect();
    assert_eq!(parse_i64(&min), Some(i64::MIN));
}

#[test]
fn parse_rejects_junk_and_overflow() {
    assert_eq!(parse_i64(&vec![]), None);
    assert_eq!(parse_i64(&vec!['-']), None);
    assert_eq!(parse_i64(&vec!['+']), None);
    assert_eq!(parse_i64(&vec![' ', '4']), None);
    assert_eq!(parse_i64(&vec!['4', ' ']), None);
    assert_eq!(parse_i64(&vec!['1', 'e', '5']), None);
    let too_big: Vec<char> = "9223372036854775808".chars().collect();
    assert_eq!(parse_i64(&too_big), None);
    let way_too_big: Vec<char> = "999999999999999999999999999999".chars().collect();
    assert_eq!(parse_i64(&way_too_big), None);
    let too_small: Vec<char> = "-9223372036854775809".chars().collect();
    assert_eq!(parse_i64(&too_small), None);
}

#[test]
fn multibox_construction_places_children_at_spacing_multiples() {
    let m = MultiBox::new("xy", 10, 3, anchored(0, 0, HAlign::Left));
    let xs: Vec<i64> = m.boxes.iter().map(|b| b.offset.relative.0).collect();
    assert_eq!(xs, vec![10, 20, 30]);
    assert_eq!(m.description.title, vec!['x', 'y']);
}

#[test]
fn multibox_render_accumulates_measured_widths() {
    // Observed render-time positions, which differ from the construction-time
    // ones: each child sits one spacing past the previous element's end.
    let mut g = gui();
    let mut m = MultiBox::new("xy", 10, 3, anchored(0, 0, HAlign::Left));
    let mut frame: Vec<DrawCommand> = Vec::new();
    m.render(&mut g, &mut frame);

    // Caption "xy" is 20 wide; each empty child is drawn as " " (10 wide).
    let xs: Vec<i64> = m.boxes.iter().map(|b| b.offset.relative.0).collect();
    assert_eq!(xs, vec![30, 50, 70]);
    // Two commands for the caption, two per child.
    assert_eq!(frame.len(), 2 + 2 * 3);
}

#[test]
fn multibox_render_walks_left_for_right_alignment() {
    let mut g = gui();
    let mut m = MultiBox::new("xy", 10, 3, anchored(500, 0, HAlign::Right));
    let mut frame: Vec<DrawCommand> = Vec::new();
    m.render(&mut g, &mut frame);
    let xs: Vec<i64> = m.boxes.iter().map(|b| b.offset.relative.0).collect();
    assert_eq!(xs, vec![490, 480, 470]);
}

#[test]
fn multibox_set_offset_repositions_children_from_zero() {
    let mut m = MultiBox::new("xy", 10, 3, anchored(0, 0, HAlign::Left));
    m.set_offset(&anchored(100, 7, HAlign::Left));
    let xs: Vec<i64> = m.boxes.iter().map(|b| b.offset.relative.0).collect();
    // The set_offset family starts at the root itself: 100 + 10 * i.
    assert_eq!(xs, vec![100, 110, 120]);
    let ys: Vec<i64> = m.boxes.iter().map(|b| b.offset.relative.1).collect();
    assert_eq!(ys, vec![7, 7, 7]);
}

#[test]
fn multibox_value_and_input_reach_the_indexed_child() {
    let m = MultiBox::new("xy", 10, 2, anchored(0, 0, HAlign::Left)).value(1, "42");
    assert!(m.boxes[0].input.is_empty());
    assert_eq!(m.boxes[1].input, vec!['4', '2']);

    let mut target: i64 = 0;
    m.input(1, &mut target);
    assert_eq!(target, 42);

    let mut untouched: i64 = 9;
    m.input(0, &mut untouched);
    assert_eq!(untouched, 9);
}

#[test]
fn multibox_first_active_child_starves_the_rest() {
    // A keypress is applied by the first active child, which advances the
    // frame; a second active child rendered later sees nothing pressed.
    let mut g = gui();
    let mut m = MultiBox::new("xy", 10, 2, anchored(0, 0, HAlign::Left));
    m.boxes[0].active = true;
    m.boxes[1].active = true;
    g.event(&Event::KeyPress { key: guikit::input::Key { code: 97 } });

    let mut frame: Vec<DrawCommand> = Vec::new();
    m.render(&mut g, &mut frame);

    assert_eq!(m.boxes[0].input, vec!['a']);
    assert!(m.boxes[1].input.is_empty());
}

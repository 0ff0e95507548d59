use guikit::input::Event;
use guikit::{Gui, GuiElement, HAlign, Label, Offset, TextMetrics, VAlign};

fn gui_with_window(width: u32, height: u32) -> Gui {
    let mut gui = Gui::new(TextMetrics { glyph_width: 10, glyph_height: 20 });
    gui.event(&Event::Resize { width, height });
    gui
}

fn offset(x: i64, y: i64, h: HAlign, v: VAlign) -> Offset {
    Offset { relative: (x, y), align: (h, v) }
}

#[test]
fn right_bottom_subtracts_relative_and_size() {
    let gui = gui_with_window(800, 600);
    // "ab" measures 2 glyphs * 10 = 20 wide, 20 tall.
    let label = Label::new("ab", offset(10, 20, HAlign::Right, VAlign::Bottom));
    let pos = gui.get_position(&label);
    assert_eq!(pos, (800 - 10 - 20, 600 - 20 - 20));
}

#[test]
fn left_top_is_relative_whatever_window_and_size() {
    let gui_small = gui_with_window(100, 100);
    let gui_large = gui_with_window(4000, 3000);
    let short = Label::new("a", offset(33, 44, HAlign::Left, VAlign::Top));
    let long = Label::new("abcdefgh", offset(33, 44, HAlign::Left, VAlign::Top));
    assert_eq!(gui_small.get_position(&short), (33, 44));
    assert_eq!(gui_large.get_position(&short), (33, 44));
    assert_eq!(gui_small.get_position(&long), (33, 44));
}

#[test]
fn center_anchors_origin_not_visual_center() {
    // The window half is computed by integer division of the window size.
    let gui = gui_with_window(801, 601);
    let label = Label::new("abc", offset(7, 9, HAlign::Center, VAlign::Center));
    // Element size (30, 20) plays no role for the Center anchor.
    assert_eq!(gui.get_position(&label), (801 / 2 - 7, 601 / 2 - 9));
}

#[test]
fn positions_may_fall_outside_the_window() {
    let gui = gui_with_window(100, 100);
    let label = Label::new("a", offset(250, 250, HAlign::Left, VAlign::Top));
    assert_eq!(gui.get_position(&label), (250, 250));
    let label2 = Label::new("abcdefghijklmnop", offset(0, 0, HAlign::Right, VAlign::Bottom));
    assert_eq!(gui.get_position(&label2), (100 - 160, 100 - 20));
}

#[test]
fn resize_event_updates_window_size() {
    let mut gui = gui_with_window(1, 1);
    assert_eq!(gui.window_size, (1, 1));
    gui.event(&Event::Resize { width: 640, height: 480 });
    assert_eq!(gui.window_size, (640, 480));
}

//! A minimal immediate-feedback GUI widget toolkit.
//!
//! The toolkit is layered over an external windowing/rendering host: the host
//! pumps decoded platform events into [`Gui::event`] once per frame, then asks
//! each widget to render. A widget resolves its screen position from a
//! declarative [`Offset`] against the current window size, hit-tests the
//! pointer against the per-frame [`input::InputState`], mutates its own state,
//! and emits [`DrawCommand`]s for the host to draw.
//!
//! All coordinates are integers in the host's pixel units. Text is restricted
//! to ASCII, and text measurement uses a fixed per-glyph metric supplied by
//! the host at construction ([`TextMetrics`]), so that layout is a pure
//! function of the widget tree and the window size.

use vstd::prelude::*;
use vstd::string::StringSliceAdditionalSpecFns;

pub mod button;
pub mod input;
pub mod inputbox;
pub mod label;
pub mod multibox;

pub use button::Button;
pub use inputbox::InputBox;
pub use label::Label;
pub use multibox::MultiBox;

pub use input::Event;
pub use input::InputState;
pub use input::Key;
pub use input::MouseButton;

verus! {

/// A point in screen coordinates (used for the cursor position).
#[derive(Clone, Copy, PartialEq, Eq, Structural, Debug)]
pub struct Vector {
    pub x: i64,
    pub y: i64,
}

/// Horizontal anchor of an [`Offset`].
#[derive(Clone, Copy, PartialEq, Eq, Structural, Debug)]
pub enum HAlign {
    Right,
    Left,
    Center,
}

/// Vertical anchor of an [`Offset`].
#[derive(Clone, Copy, PartialEq, Eq, Structural, Debug)]
pub enum VAlign {
    Top,
    Bottom,
    Center,
}

/// Declarative placement of a widget: an alignment anchor pair plus a
/// relative displacement from that anchor.
#[derive(Clone, Copy, Debug)]
pub struct Offset {
    pub relative: (i64, i64),
    pub align: (HAlign, VAlign),
}

/// Largest relative displacement the layout engine accepts; keeping all
/// displacements within this range makes every position computation fit
/// comfortably in `i64`.
pub const MAX_COORD: i64 = 0x2000_0000_0000;

impl Offset {
    /// The offset lies within the coordinate range of the toolkit.
    pub open spec fn wf(self) -> bool {
        &&& -MAX_COORD <= self.relative.0 <= MAX_COORD
        &&& -MAX_COORD <= self.relative.1 <= MAX_COORD
    }
}

/// Longest text (in characters) the measurement model accepts.
pub const MAX_TEXT: usize = 1048576;

/// Largest per-glyph metric the measurement model accepts.
pub const MAX_GLYPH: u32 = 4096;

/// Upper bound on any measured width or height (`MAX_TEXT * MAX_GLYPH`).
pub const MAX_SIZE: i64 = 0x1_0000_0000;

/// The font size every widget draws its text at.
pub const FONT_SIZE: u32 = 24;

/// Text measurement collaborator, reduced to plain values: the host supplies
/// the advance width of one glyph and the line height of its font at
/// [`FONT_SIZE`], and the toolkit measures text as a fixed-pitch run of
/// glyphs. Measurement is thus deterministic and side-effect free.
#[derive(Clone, Copy, PartialEq, Eq, Structural, Debug)]
pub struct TextMetrics {
    pub glyph_width: u32,
    pub glyph_height: u32,
}

impl TextMetrics {
    pub open spec fn wf(self) -> bool {
        &&& self.glyph_width <= MAX_GLYPH
        &&& self.glyph_height <= MAX_GLYPH
    }
}

/// Measured width of `text`: one advance per character.
pub open spec fn text_width(m: TextMetrics, text: Seq<char>) -> int {
    text.len() * m.glyph_width
}

/// Measured height of a single line of text.
pub open spec fn text_height(m: TextMetrics) -> int {
    m.glyph_height as int
}

/// Any text within the measurement model resolves to a size in the layout
/// range.
pub proof fn lemma_text_size_in_range(m: TextMetrics, text: Seq<char>)
    requires
        m.wf(),
        text.len() <= MAX_TEXT,
    ensures
        0 <= text_width(m, text) <= MAX_SIZE,
{
    assert(0 <= text.len() * m.glyph_width <= 1048576 * 4096) by (nonlinear_arith)
        requires
            text.len() <= 1048576,
            m.glyph_width <= 4096,
    ;
}

/// An RGBA color, one byte per channel.
#[derive(Clone, Copy, PartialEq, Eq, Structural, Debug)]
pub struct Color {
    pub r: u8,
    pub g: u8,
    pub b: u8,
    pub a: u8,
}

/// Translucent light grey: label backgrounds and inactive input boxes.
#[verifier::allow_in_spec]
pub fn color_background() -> Color
    returns
        (Color { r: 230, g: 230, b: 230, a: 128 }),
{
    Color { r: 230, g: 230, b: 230, a: 128 }
}

/// Slightly darker, more opaque grey: the background of an active input box.
#[verifier::allow_in_spec]
pub fn color_active() -> Color
    returns
        (Color { r: 204, g: 204, b: 204, a: 191 }),
{
    Color { r: 204, g: 204, b: 204, a: 191 }
}

/// Opaque black: all text.
#[verifier::allow_in_spec]
pub fn color_text() -> Color
    returns
        (Color { r: 0, g: 0, b: 0, a: 255 }),
{
    Color { r: 0, g: 0, b: 0, a: 255 }
}

/// One drawing instruction for the host's rendering surface. Widgets emit
/// these instead of drawing themselves; the host executes them in order.
/// Text is positioned by its baseline origin, so its box extends upward.
#[derive(Clone, Debug, PartialEq)]
pub enum DrawCommand {
    Rect { color: Color, x: i64, y: i64, width: i64, height: i64 },
    Text { color: Color, font_size: u32, text: Vec<char>, x: i64, y: i64 },
}

/// `c` is a filled-rectangle command with exactly these parameters.
pub open spec fn is_rect(c: DrawCommand, color: Color, x: int, y: int, width: int, height: int) -> bool {
    match c {
        DrawCommand::Rect { color: c2, x: x2, y: y2, width: w2, height: h2 } => {
            &&& c2 == color
            &&& x2 == x
            &&& y2 == y
            &&& w2 == width
            &&& h2 == height
        },
        _ => false,
    }
}

/// `c` is a text command with exactly these parameters.
pub open spec fn is_text(c: DrawCommand, color: Color, font_size: u32, text: Seq<char>, x: int, y: int) -> bool {
    match c {
        DrawCommand::Text { color: c2, font_size: f2, text: t2, x: x2, y: y2 } => {
            &&& c2 == color
            &&& f2 == font_size
            &&& t2@ == text
            &&& x2 == x
            &&& y2 == y
        },
        _ => false,
    }
}

/// Resolution of one horizontal coordinate, per the alignment anchor. Note
/// that `Center` anchors the element's origin, not its visual center, offset
/// by the relative displacement: a design choice preserved verbatim.
pub open spec fn resolve_x(align: HAlign, rel: int, width: int, window_w: int) -> int {
    match align {
        HAlign::Left => rel,
        HAlign::Right => window_w - rel - width,
        HAlign::Center => window_w / 2 - rel,
    }
}

/// Resolution of one vertical coordinate, per the alignment anchor.
pub open spec fn resolve_y(align: VAlign, rel: int, height: int, window_h: int) -> int {
    match align {
        VAlign::Top => rel,
        VAlign::Bottom => window_h - rel - height,
        VAlign::Center => window_h / 2 - rel,
    }
}

/// Absolute drawing origin of an element with the given offset and measured
/// size in a window of the given size. No clamping: an element may resolve to
/// a position outside the window.
pub open spec fn resolve_pos(offset: Offset, size: (int, int), window: (u32, u32)) -> (int, int) {
    (
        resolve_x(offset.align.0, offset.relative.0 as int, size.0, window.0 as int),
        resolve_y(offset.align.1, offset.relative.1 as int, size.1, window.1 as int),
    )
}

/// Law: with a (Right, Bottom) alignment the resolved position is the window
/// size minus the relative displacement minus the element size, per axis.
pub proof fn lemma_resolve_right_bottom(offset: Offset, size: (int, int), window: (u32, u32))
    requires
        offset.align.0 == HAlign::Right,
        offset.align.1 == VAlign::Bottom,
    ensures
        resolve_pos(offset, size, window).0 == window.0 - offset.relative.0 - size.0,
        resolve_pos(offset, size, window).1 == window.1 - offset.relative.1 - size.1,
{
}

/// Law: with a (Left, Top) alignment the resolved position equals the
/// relative displacement, whatever the element size and the window size are.
pub proof fn lemma_resolve_left_top(offset: Offset, size: (int, int), window: (u32, u32))
    requires
        offset.align.0 == HAlign::Left,
        offset.align.1 == VAlign::Top,
    ensures
        resolve_pos(offset, size, window).0 == offset.relative.0,
        resolve_pos(offset, size, window).1 == offset.relative.1,
{
}

/// The cursor lies strictly inside the hitbox of an element drawn at `pos`
/// with measured `size`. The box extends upward from the baseline origin.
pub open spec fn strictly_inside(cursor: Vector, pos: (int, int), size: (int, int)) -> bool {
    &&& pos.0 < cursor.x < pos.0 + size.0
    &&& pos.1 - size.1 < cursor.y < pos.1
}

/// The GUI context: per-frame input state, current window size, and the text
/// measurement collaborator.
pub struct Gui {
    pub input: input::InputState,
    pub window_size: (u32, u32),
    pub metrics: TextMetrics,
}

impl Gui {
    pub open spec fn wf(self) -> bool {
        self.metrics.wf()
    }

    pub fn new(metrics: TextMetrics) -> (gui: Gui)
        requires
            metrics.wf(),
        ensures
            gui.wf(),
            gui.metrics == metrics,
            gui.window_size == (0u32, 0u32),
            gui.input.cursor == (Vector { x: 0, y: 0 }),
            gui.input.last_cursor == (Vector { x: 0, y: 0 }),
            gui.input.pressed_mouse is None,
            gui.input.held_mouse is None,
            gui.input.released_mouse is None,
            gui.input.mouse_wheel == 0,
            gui.input.pressed_keys@ == Seq::<input::Key>::empty(),
            gui.input.held_keys@ == Seq::<input::Key>::empty(),
            gui.input.released_keys@ == Seq::<input::Key>::empty(),
    {
        Gui { input: input::InputState::new(), window_size: (0, 0), metrics }
    }

    /// Folds one decoded platform event into the context: input events update
    /// the input state, a resize updates the window size.
    pub fn event(&mut self, e: &Event)
        ensures
            input::event_post(old(self).input, final(self).input, *e),
            final(self).window_size == match *e {
                Event::Resize { width, height } => (width, height),
                _ => old(self).window_size,
            },
            final(self).metrics == old(self).metrics,
    {
        self.input.event(e);

        if let Event::Resize { width, height } = *e {
            self.window_size = (width, height);
        }
    }

    /// Measures one line of text under the fixed-pitch metric model.
    fn text_size(&self, text: &Vec<char>) -> (size: (i64, i64))
        requires
            self.wf(),
            text@.len() <= MAX_TEXT,
        ensures
            size.0 == text_width(self.metrics, text@),
            size.1 == text_height(self.metrics),
    {
        proof {
            assert(text@.len() * self.metrics.glyph_width <= 1048576 * 4096) by (nonlinear_arith)
                requires
                    text@.len() <= 1048576,
                    self.metrics.glyph_width <= 4096,
            ;
        }
        ((text.len() as i64) * (self.metrics.glyph_width as i64), self.metrics.glyph_height as i64)
    }

    /// Resolves the absolute drawing origin of an element with the given
    /// offset and measured size against the current window size.
    pub fn position_of(&self, offset: &Offset, size: (i64, i64)) -> (pos: (i64, i64))
        requires
            offset.wf(),
            0 <= size.0 <= MAX_SIZE,
            0 <= size.1 <= MAX_SIZE,
        ensures
            pos.0 == resolve_pos(*offset, (size.0 as int, size.1 as int), self.window_size).0,
            pos.1 == resolve_pos(*offset, (size.0 as int, size.1 as int), self.window_size).1,
    {
        let x: i64 = match offset.align.0 {
            HAlign::Left => offset.relative.0,
            HAlign::Right => self.window_size.0 as i64 - offset.relative.0 - size.0,
            HAlign::Center => (self.window_size.0 / 2) as i64 - offset.relative.0,
        };
        let y: i64 = match offset.align.1 {
            VAlign::Top => offset.relative.1,
            VAlign::Bottom => self.window_size.1 as i64 - offset.relative.1 - size.1,
            VAlign::Center => (self.window_size.1 / 2) as i64 - offset.relative.1,
        };

        (x, y)
    }

    /// Resolves a widget's absolute drawing origin from its offset and its
    /// measured size against the current window size. Pure: idempotent, no
    /// state is read besides the window size and the metrics.
    pub fn get_position<E: GuiElement>(&self, element: &E) -> (pos: (i64, i64))
        requires
            self.wf(),
            element.size_req(self),
            element.offset_spec().wf(),
            0 <= element.size_spec(self).0 <= MAX_SIZE,
            0 <= element.size_spec(self).1 <= MAX_SIZE,
        ensures
            pos.0 == resolve_pos(element.offset_spec(), element.size_spec(self), self.window_size).0,
            pos.1 == resolve_pos(element.offset_spec(), element.size_spec(self), self.window_size).1,
    {
        let offset = element.get_offset();
        let size = element.get_size(self);
        self.position_of(&offset, size)
    }
}

/// The uniform widget contract. Each widget pins its own behaviour through
/// the spec functions; the executable methods promise exactly those specs.
/// `render` is the only method that mutates state: it resolves the position,
/// hit-tests and updates interaction state, and emits draw commands, in that
/// order. `get_offset` and `get_size` are side-effect free.
pub trait GuiElement: Sized {
    /// The widget's current placement.
    spec fn offset_spec(&self) -> Offset;

    /// The widget's intrinsic measured size under `gui`'s metrics.
    spec fn size_spec(&self, gui: &Gui) -> (int, int);

    /// What measuring the widget needs (text length within the model).
    spec fn size_req(&self, gui: &Gui) -> bool;

    /// What re-anchoring the widget at `offset` needs.
    spec fn set_offset_req(&self, offset: &Offset) -> bool;

    /// How the widget (`self`, after the call) relates to `pre` once it has
    /// been re-anchored at `offset`.
    spec fn set_offset_post(&self, pre: Self, offset: Offset) -> bool;

    /// What rendering needs of the widget and the context.
    spec fn render_req(&self, gui: &Gui) -> bool;

    /// How one render call (`self` before, `post` after) transforms the
    /// widget, the context and the command list.
    spec fn render_post(
        &self,
        post: Self,
        pre_gui: Gui,
        post_gui: Gui,
        pre_cmds: Seq<DrawCommand>,
        post_cmds: Seq<DrawCommand>,
    ) -> bool;

    fn get_offset(&self) -> (offset: Offset)
        ensures
            offset == self.offset_spec(),
    ;

    fn set_offset(&mut self, offset: &Offset)
        requires
            old(self).set_offset_req(offset),
        ensures
            final(self).set_offset_post(*old(self), *offset),
            final(self).offset_spec() == *offset,
    ;

    /// Builder-style re-anchoring: consumes the widget and returns it.
    fn offset(self, offset: &Offset) -> (w: Self)
        requires
            self.set_offset_req(offset),
        ensures
            w.set_offset_post(self, *offset),
            w.offset_spec() == *offset,
    ;

    fn get_size(&self, gui: &Gui) -> (size: (i64, i64))
        requires
            self.size_req(gui),
        ensures
            size.0 == self.size_spec(gui).0,
            size.1 == self.size_spec(gui).1,
    ;

    fn render(&mut self, gui: &mut Gui, frame: &mut Vec<DrawCommand>)
        requires
            old(self).render_req(old(gui)),
        ensures
            old(self).render_post(
                *final(self),
                *old(gui),
                *final(gui),
                old(frame)@,
                final(frame)@,
            ),
    ;
}

/// Decodes an ASCII string into the character buffer the widgets hold text
/// in.
pub fn text_chars(s: &str) -> (v: Vec<char>)
    requires
        s.is_ascii(),
    ensures
        v@ == s@,
{
    broadcast use vstd::string::is_ascii_spec_bytes;

    let bytes = s.as_bytes();
    let mut v: Vec<char> = Vec::new();
    let mut i: usize = 0;
    while i < bytes.len()
        invariant
            s.is_ascii(),
            bytes@ == s.spec_bytes(),
            0 <= i <= s@.len(),
            v@.len() == i,
            forall|j: int| 0 <= j < i ==> v@[j] == s@[j],
        decreases bytes@.len() - i,
    {
        v.push(bytes[i] as char);
        i += 1;
    }
    proof {
        assert(v@ =~= s@);
    }
    v
}

/// A fresh copy of a character buffer.
pub fn clone_chars(src: &Vec<char>) -> (v: Vec<char>)
    ensures
        v@ == src@,
{
    let mut v: Vec<char> = Vec::new();
    append_chars(&mut v, src);
    proof {
        assert(v@ =~= src@);
    }
    v
}

/// Appends all of `src` to `dst`.
pub fn append_chars(dst: &mut Vec<char>, src: &Vec<char>)
    ensures
        final(dst)@ == old(dst)@ + src@,
{
    let mut i: usize = 0;
    while i < src.len()
        invariant
            0 <= i <= src@.len(),
            dst@ == old(dst)@ + src@.take(i as int),
        decreases src@.len() - i,
    {
        dst.push(src[i]);
        proof {
            assert(old(dst)@ + src@.take(i as int) + seq![src@[i as int]] =~= old(dst)@
                + src@.take(i as int + 1));
        }
        i += 1;
    }
    proof {
        assert(old(dst)@ + src@.take(src@.len() as int) =~= old(dst)@ + src@);
    }
}

} // verus!

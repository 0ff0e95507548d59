//! A click button: a label whose render hit-tests a pending mouse press and
//! claims it when hit.

use vstd::prelude::*;

use crate::input::consumed_post;
use crate::label::{label_rendered, Label};
use crate::{
    lemma_text_size_in_range, resolve_pos, strictly_inside, text_height, text_width, DrawCommand,
    Gui, GuiElement, Offset, MAX_TEXT,
};

verus! {

pub struct Button {
    pub pressed: bool,
    pub label: Label,
}

impl Button {
    pub fn new(title: &str, offset: Offset) -> (button: Button)
        requires
            title.is_ascii(),
        ensures
            button.pressed == false,
            button.label.title@ == title@,
            button.label.background == true,
            button.label.offset == offset,
    {
        let label = Label::new(title, offset);
        Button { pressed: false, label }
    }

    /// Whether this frame's render saw a click inside the button. The state
    /// is transient: it is recomputed from scratch by every render call.
    pub fn is_pressed(&self) -> (pressed: bool)
        ensures
            pressed == self.pressed,
    {
        self.pressed
    }
}

impl GuiElement for Button {
    open spec fn offset_spec(&self) -> Offset {
        self.label.offset
    }

    open spec fn size_spec(&self, gui: &Gui) -> (int, int) {
        (text_width(gui.metrics, self.label.title@), text_height(gui.metrics))
    }

    open spec fn size_req(&self, gui: &Gui) -> bool {
        &&& gui.wf()
        &&& self.label.title@.len() <= MAX_TEXT
    }

    open spec fn set_offset_req(&self, offset: &Offset) -> bool {
        true
    }

    open spec fn set_offset_post(&self, pre: Button, offset: Offset) -> bool {
        &&& self.pressed == pre.pressed
        &&& self.label.title@ == pre.label.title@
        &&& self.label.background == pre.label.background
        &&& self.label.offset == offset
    }

    open spec fn render_req(&self, gui: &Gui) -> bool {
        &&& gui.wf()
        &&& self.label.offset.wf()
        &&& self.label.title@.len() <= MAX_TEXT
    }

    /// One render either claims a pending click that lies strictly inside the
    /// button's hitbox (pressed, input consumed) or leaves the input intact
    /// for other widgets (not pressed); the label is drawn either way.
    open spec fn render_post(
        &self,
        post: Button,
        pre_gui: Gui,
        post_gui: Gui,
        pre_cmds: Seq<DrawCommand>,
        post_cmds: Seq<DrawCommand>,
    ) -> bool {
        let size = (text_width(pre_gui.metrics, self.label.title@), text_height(pre_gui.metrics));
        let pos = resolve_pos(self.label.offset, size, pre_gui.window_size);
        let hit = pre_gui.input.pressed_mouse is Some && strictly_inside(
            pre_gui.input.cursor,
            pos,
            size,
        );
        &&& post.label.title@ == self.label.title@
        &&& post.label.background == self.label.background
        &&& post.label.offset == self.label.offset
        &&& post.pressed == hit
        &&& if hit {
            consumed_post(pre_gui.input, post_gui.input)
        } else {
            post_gui.input == pre_gui.input
        }
        &&& post_gui.window_size == pre_gui.window_size
        &&& post_gui.metrics == pre_gui.metrics
        &&& label_rendered(post.label, pre_gui, pre_cmds, post_cmds)
    }

    fn get_offset(&self) -> Offset {
        self.label.offset
    }

    fn set_offset(&mut self, offset: &Offset) {
        self.label.offset = *offset;
    }

    fn offset(self, offset: &Offset) -> Button {
        let mut w = self;
        w.set_offset(offset);
        w
    }

    fn get_size(&self, gui: &Gui) -> (i64, i64) {
        gui.text_size(&self.label.title)
    }

    /// Resolve position, hit-test a pending mouse press against the label's
    /// hitbox, claim it on a hit, then draw the label.
    fn render(&mut self, gui: &mut Gui, frame: &mut Vec<DrawCommand>) {
        proof {
            lemma_text_size_in_range(gui.metrics, self.label.title@);
        }
        let hitbox = gui.text_size(&self.label.title);
        let position = gui.position_of(&self.label.offset, hitbox);
        let start = (position.0, position.1 - hitbox.1);
        let end = (position.0 + hitbox.0, position.1);

        self.pressed = false;
        if gui.input.pressed_mouse.is_some() {
            let cursor = gui.input.cursor;
            if cursor.x > start.0 && cursor.x < end.0 && cursor.y > start.1 && cursor.y < end.1 {
                self.pressed = true;
                gui.input.consume();
            } else {
                self.pressed = false;
            }
        }

        self.label.render(gui, frame);
    }
}

} // verus!

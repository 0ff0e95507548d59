//! A static line of text with an optional translucent background.

use vstd::prelude::*;

use crate::{
    clone_chars, color_background, color_text, is_rect, is_text, lemma_text_size_in_range,
    resolve_pos, text_chars, text_height, text_width, DrawCommand, Gui, GuiElement, Offset,
    FONT_SIZE, MAX_TEXT,
};

verus! {

pub struct Label {
    pub title: Vec<char>,
    pub background: bool,
    pub offset: Offset,
}

impl Label {
    pub fn new(title: &str, offset: Offset) -> (label: Label)
        requires
            title.is_ascii(),
        ensures
            label.title@ == title@,
            label.background == true,
            label.offset == offset,
    {
        Label { title: text_chars(title), background: true, offset }
    }
}

/// The commands a label with state `l` appends to a frame: under `gui`'s
/// window and metrics, a background rectangle two pixels up and left of the
/// text's hitbox and five pixels larger on each axis (if the background is
/// on), then the title text at the resolved position.
pub open spec fn label_rendered(
    l: Label,
    gui: Gui,
    pre_cmds: Seq<DrawCommand>,
    post_cmds: Seq<DrawCommand>,
) -> bool {
    let size = (text_width(gui.metrics, l.title@), text_height(gui.metrics));
    let pos = resolve_pos(l.offset, size, gui.window_size);
    if l.background {
        &&& post_cmds.len() == pre_cmds.len() + 2
        &&& post_cmds.take(pre_cmds.len() as int) == pre_cmds
        &&& is_rect(
            post_cmds[pre_cmds.len() as int],
            color_background(),
            pos.0 - 2,
            pos.1 - size.1 - 2,
            size.0 + 5,
            size.1 + 5,
        )
        &&& is_text(
            post_cmds[pre_cmds.len() as int + 1],
            color_text(),
            FONT_SIZE,
            l.title@,
            pos.0,
            pos.1,
        )
    } else {
        &&& post_cmds.len() == pre_cmds.len() + 1
        &&& post_cmds.take(pre_cmds.len() as int) == pre_cmds
        &&& is_text(post_cmds[pre_cmds.len() as int], color_text(), FONT_SIZE, l.title@, pos.0, pos.1)
    }
}

impl GuiElement for Label {
    open spec fn offset_spec(&self) -> Offset {
        self.offset
    }

    open spec fn size_spec(&self, gui: &Gui) -> (int, int) {
        (text_width(gui.metrics, self.title@), text_height(gui.metrics))
    }

    open spec fn size_req(&self, gui: &Gui) -> bool {
        &&& gui.wf()
        &&& self.title@.len() <= MAX_TEXT
    }

    open spec fn set_offset_req(&self, offset: &Offset) -> bool {
        true
    }

    open spec fn set_offset_post(&self, pre: Label, offset: Offset) -> bool {
        &&& self.title@ == pre.title@
        &&& self.background == pre.background
        &&& self.offset == offset
    }

    open spec fn render_req(&self, gui: &Gui) -> bool {
        &&& gui.wf()
        &&& self.offset.wf()
        &&& self.title@.len() <= MAX_TEXT
    }

    open spec fn render_post(
        &self,
        post: Label,
        pre_gui: Gui,
        post_gui: Gui,
        pre_cmds: Seq<DrawCommand>,
        post_cmds: Seq<DrawCommand>,
    ) -> bool {
        &&& post.title@ == self.title@
        &&& post.background == self.background
        &&& post.offset == self.offset
        &&& post_gui == pre_gui
        &&& label_rendered(*self, pre_gui, pre_cmds, post_cmds)
    }

    fn get_offset(&self) -> Offset {
        self.offset
    }

    fn set_offset(&mut self, offset: &Offset) {
        self.offset = *offset;
    }

    fn offset(self, offset: &Offset) -> Label {
        let mut w = self;
        w.set_offset(offset);
        w
    }

    fn get_size(&self, gui: &Gui) -> (i64, i64) {
        gui.text_size(&self.title)
    }

    /// Resolves the position, then emits the background (if any) and the
    /// title text. A label has no interactive state: the context is only
    /// read.
    fn render(&mut self, gui: &mut Gui, frame: &mut Vec<DrawCommand>) {
        proof {
            lemma_text_size_in_range(gui.metrics, self.title@);
        }
        let hitbox = gui.text_size(&self.title);
        let position = gui.position_of(&self.offset, hitbox);

        if self.background {
            frame.push(
                DrawCommand::Rect {
                    color: color_background(),
                    x: position.0 - 2,
                    y: position.1 - hitbox.1 - 2,
                    width: hitbox.0 + 5,
                    height: hitbox.1 + 5,
                },
            );
        }

        frame.push(
            DrawCommand::Text {
                color: color_text(),
                font_size: FONT_SIZE,
                text: clone_chars(&self.title),
                x: position.0,
                y: position.1,
            },
        );

        proof {
            assert(frame@.take(old(frame)@.len() as int) =~= old(frame)@);
        }
    }
}

} // verus!

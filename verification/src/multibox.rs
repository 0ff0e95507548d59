//! A caption plus a horizontal row of input boxes. The row is laid out every
//! render: each child sits one spacing past the previous child's measured
//! end (growing rightward for Left/Center alignment, leftward for Right).
//! The constructor places children at fixed multiples of the spacing; the
//! render-time accumulating layout is the canonical one and supersedes that
//! initial placement from the first frame on.

use vstd::prelude::*;

use crate::input::InputState;
use crate::inputbox::{
    full_text_spec, inputbox_render_rel, lemma_render_rel_frame, parse_i64_spec, InputBox,
};
use crate::label::{label_rendered, Label};
use crate::{
    text_chars, text_width, DrawCommand, Gui, GuiElement, HAlign, Offset, TextMetrics, MAX_COORD,
    MAX_SIZE, MAX_TEXT,
};

verus! {

/// Most children a row accepts.
pub const MAX_CHILDREN: usize = 1024;

/// Largest per-child spacing a row accepts.
pub const MAX_SPACING: i64 = 1048576;

/// Largest root displacement a row accepts: leaves room for the row to grow
/// while staying within the layout's coordinate range.
pub const MAX_BASE: i64 = 0x100_0000_0000;

pub struct MultiBox {
    pub description: Label,
    pub boxes: Vec<InputBox>,
    pub spacing: i64,
    pub offset: Offset,
}

/// A freshly constructed child: empty, unfocused, caption hidden, placed at
/// the construction-time position `base.x + (i + 1) * spacing`.
pub open spec fn child_initial(b: InputBox, base: Offset, spacing: i64, i: int) -> bool {
    &&& b.active == false
    &&& b.description@ == Seq::<char>::empty()
    &&& b.show_desc == false
    &&& b.input@ == Seq::<char>::empty()
    &&& b.offset.relative.0 == base.relative.0 + (i + 1) * spacing
    &&& b.offset.relative.1 == base.relative.1
    &&& b.offset.align == base.align
}

/// Sum of the measured widths of the first `i` boxes (their displayed text
/// after this frame's render).
pub open spec fn widths_sum(boxes: Seq<InputBox>, m: TextMetrics, i: int) -> int
    decreases i,
{
    if i <= 0 {
        0
    } else {
        widths_sum(boxes, m, i - 1) + text_width(m, full_text_spec(boxes[i - 1]))
    }
}

proof fn lemma_widths_sum_bound(boxes: Seq<InputBox>, m: TextMetrics, i: int)
    requires
        m.wf(),
        forall|j: int| 0 <= j < i ==> full_text_spec(#[trigger] boxes[j]).len() <= MAX_TEXT,
    ensures
        0 <= widths_sum(boxes, m, i) <= (if i >= 0 {
            i
        } else {
            0
        }) * (MAX_SIZE as int),
    decreases i,
{
    if i > 0 {
        lemma_widths_sum_bound(boxes, m, i - 1);
        crate::lemma_text_size_in_range(m, full_text_spec(boxes[i - 1]));
        assert((i - 1) * (MAX_SIZE as int) + MAX_SIZE == i * (MAX_SIZE as int)) by (nonlinear_arith);
    }
}

/// The horizontal displacement the render-time layout gives child `i`: the
/// accumulated widths of the earlier children plus one spacing per child past
/// the caption for Left/Center alignment, or a plain spacing multiple walked
/// leftward for Right alignment.
pub open spec fn child_offset_x(
    base: Offset,
    spacing: i64,
    desc_w: int,
    boxes_after: Seq<InputBox>,
    m: TextMetrics,
    i: int,
) -> int {
    match base.align.0 {
        HAlign::Right => base.relative.0 - (i + 1) * spacing,
        _ => base.relative.0 + desc_w + (i + 1) * spacing + widths_sum(boxes_after, m, i),
    }
}

/// The children of a row, rendered left to right, each seeing the input
/// state its predecessor left behind: `offs` are the offsets the layout gave
/// them and `states` the chain of input states (`states[0]` before the first
/// child, `states[i + 1]` after child `i`). Each child appends its two
/// commands in turn from position `row_start` of the command list (right
/// after the caption's commands).
pub open spec fn multibox_children_rendered(
    pre_boxes: Seq<InputBox>,
    post_boxes: Seq<InputBox>,
    offs: Seq<Offset>,
    states: Seq<InputState>,
    base: Offset,
    spacing: i64,
    desc_w: int,
    pre_gui: Gui,
    post_gui: Gui,
    row_start: int,
    post_cmds: Seq<DrawCommand>,
) -> bool {
    let n = pre_boxes.len() as int;
    &&& offs.len() == n
    &&& states.len() == n + 1
    &&& states[0] == pre_gui.input
    &&& states[n] == post_gui.input
    &&& forall|i: int|
        0 <= i < n ==> {
            &&& (#[trigger] offs[i]).relative.0 == child_offset_x(
                base,
                spacing,
                desc_w,
                post_boxes,
                pre_gui.metrics,
                i,
            )
            &&& offs[i].relative.1 == base.relative.1
            &&& offs[i].align == base.align
        }
    &&& forall|i: int|
        0 <= i < n ==> inputbox_render_rel(
            InputBox {
                active: pre_boxes[i].active,
                description: pre_boxes[i].description,
                show_desc: pre_boxes[i].show_desc,
                input: pre_boxes[i].input,
                offset: offs[i],
            },
            #[trigger] post_boxes[i],
            states[i],
            states[i + 1],
            pre_gui.window_size,
            pre_gui.metrics,
            post_cmds.take(row_start + 2 * i),
            post_cmds.take(row_start + 2 * i + 2),
        )
}

impl MultiBox {
    /// A row of `n_inputs` empty input boxes behind a caption, all anchored
    /// like `offset`, child `i` displaced a further `(i + 1) * spacing`.
    pub fn new(description: &str, spacing: i64, n_inputs: usize, offset: Offset) -> (m: MultiBox)
        requires
            description.is_ascii(),
            -MAX_SPACING <= spacing <= MAX_SPACING,
            n_inputs <= MAX_CHILDREN,
            -MAX_BASE <= offset.relative.0 <= MAX_BASE,
            -MAX_COORD <= offset.relative.1 <= MAX_COORD,
        ensures
            m.description.title@ == description@,
            m.description.background == true,
            m.description.offset == offset,
            m.spacing == spacing,
            m.offset == offset,
            m.boxes@.len() == n_inputs,
            forall|i: int|
                0 <= i < n_inputs ==> child_initial(#[trigger] m.boxes@[i], offset, spacing, i),
    {
        let mut boxes: Vec<InputBox> = Vec::new();
        let mut i: usize = 0;
        while i < n_inputs
            invariant
                0 <= i <= n_inputs,
                n_inputs <= MAX_CHILDREN,
                -MAX_SPACING <= spacing <= MAX_SPACING,
                -MAX_BASE <= offset.relative.0 <= MAX_BASE,
                boxes@.len() == i,
                forall|j: int| 0 <= j < i ==> child_initial(#[trigger] boxes@[j], offset, spacing, j),
            decreases n_inputs - i,
        {
            proof {
                assert((i + 1) * spacing <= 1025 * 1048576 && (i + 1) * spacing >= -1025
                    * 1048576) by (nonlinear_arith)
                    requires
                        0 <= i + 1 <= 1025,
                        -1048576 <= spacing <= 1048576,
                ;
                reveal_strlit("");
            }
            let mut child_offset = offset;
            child_offset.relative.0 = offset.relative.0 + ((i + 1) as i64) * spacing;
            let mut input_box = InputBox::new("", child_offset);
            input_box.show_desc = false;
            boxes.push(input_box);
            proof {
                assert(""@ =~= Seq::<char>::empty());
                assert(child_initial(boxes@[i as int], offset, spacing, i as int));
            }
            i += 1;
        }

        MultiBox { description: Label::new(description, offset), boxes, spacing, offset }
    }

    /// Builder-style initial text for the child at `index`.
    pub fn value(self, index: usize, text: &str) -> (m: MultiBox)
        requires
            index < self.boxes@.len(),
            text.is_ascii(),
        ensures
            m.description == self.description,
            m.spacing == self.spacing,
            m.offset == self.offset,
            m.boxes@.len() == self.boxes@.len(),
            forall|j: int|
                0 <= j < self.boxes@.len() && j != index ==> m.boxes@[j] == self.boxes@[j],
            m.boxes@[index as int].active == self.boxes@[index as int].active,
            m.boxes@[index as int].description@ == self.boxes@[index as int].description@,
            m.boxes@[index as int].show_desc == self.boxes@[index as int].show_desc,
            m.boxes@[index as int].input@ == text@,
            m.boxes@[index as int].offset == self.boxes@[index as int].offset,
    {
        let mut m = self;
        let mut b = m.boxes.remove(index);
        b.input = text_chars(text);
        m.boxes.insert(index, b);
        proof {
            assert(m.boxes@ =~= self.boxes@.update(index as int, m.boxes@[index as int]));
        }
        m
    }

    /// Reads the child at `index` parsed as an integer into `value`, exactly
    /// as the box's own accessor does: only while that box is inactive, and
    /// only if its whole field parses.
    pub fn input(&self, index: usize, value: &mut i64)
        requires
            index < self.boxes@.len(),
        ensures
            *final(value) == if !self.boxes@[index as int].active && parse_i64_spec(
                self.boxes@[index as int].input@,
            ) is Some {
                parse_i64_spec(self.boxes@[index as int].input@)->Some_0
            } else {
                *old(value)
            },
    {
        let b = &self.boxes[index];
        b.input(value);
    }

    /// The structural bounds the row's layout arithmetic relies on.
    pub open spec fn wf(self) -> bool {
        &&& self.boxes@.len() <= MAX_CHILDREN
        &&& -MAX_SPACING <= self.spacing <= MAX_SPACING
        &&& -MAX_BASE <= self.offset.relative.0 <= MAX_BASE
        &&& -MAX_COORD <= self.offset.relative.1 <= MAX_COORD
    }
}

/// A child as [`MultiBox::set_offset`] leaves it: same interaction state,
/// anchored like the new root offset, displaced a further `i * spacing`.
pub open spec fn child_repositioned(
    b: InputBox,
    pre_b: InputBox,
    base: Offset,
    spacing: i64,
    i: int,
) -> bool {
    &&& b.active == pre_b.active
    &&& b.description@ == pre_b.description@
    &&& b.show_desc == pre_b.show_desc
    &&& b.input@ == pre_b.input@
    &&& b.offset.relative.0 == base.relative.0 + i * spacing
    &&& b.offset.relative.1 == base.relative.1
    &&& b.offset.align == base.align
}

proof fn lemma_widths_sum_prefix_eq(a: Seq<InputBox>, b: Seq<InputBox>, m: TextMetrics, i: int)
    requires
        i <= a.len(),
        i <= b.len(),
        forall|j: int| 0 <= j < i ==> a[j] == b[j],
    ensures
        widths_sum(a, m, i) == widths_sum(b, m, i),
    decreases i,
{
    if i > 0 {
        lemma_widths_sum_prefix_eq(a, b, m, i - 1);
    }
}

proof fn lemma_child_offset_bound(
    base: Offset,
    spacing: i64,
    desc_w: int,
    boxes: Seq<InputBox>,
    m: TextMetrics,
    i: int,
)
    requires
        m.wf(),
        -MAX_SPACING <= spacing <= MAX_SPACING,
        -MAX_BASE <= base.relative.0 <= MAX_BASE,
        0 <= desc_w <= MAX_SIZE,
        0 <= i < MAX_CHILDREN,
        forall|j: int| 0 <= j < i ==> full_text_spec(#[trigger] boxes[j]).len() <= MAX_TEXT,
    ensures
        -MAX_COORD <= child_offset_x(base, spacing, desc_w, boxes, m, i) <= MAX_COORD,
{
    lemma_widths_sum_bound(boxes, m, i);
    assert(-1024 * 1048576 <= (i + 1) * spacing <= 1024 * 1048576) by (nonlinear_arith)
        requires
            0 <= i + 1 <= 1024,
            -1048576 <= spacing <= 1048576,
    ;
    assert(0 <= i * (MAX_SIZE as int) <= 1023 * 0x1_0000_0000) by (nonlinear_arith)
        requires
            0 <= i <= 1023,
    ;
}

impl GuiElement for MultiBox {
    open spec fn offset_spec(&self) -> Offset {
        self.offset
    }

    /// A known stub: the row reports no footprint of its own.
    open spec fn size_spec(&self, gui: &Gui) -> (int, int) {
        (0, 0)
    }

    open spec fn size_req(&self, gui: &Gui) -> bool {
        true
    }

    open spec fn set_offset_req(&self, offset: &Offset) -> bool {
        &&& self.boxes@.len() <= MAX_CHILDREN
        &&& -MAX_SPACING <= self.spacing <= MAX_SPACING
        &&& -MAX_BASE <= offset.relative.0 <= MAX_BASE
        &&& -MAX_COORD <= offset.relative.1 <= MAX_COORD
    }

    open spec fn set_offset_post(&self, pre: MultiBox, offset: Offset) -> bool {
        &&& self.description == pre.description
        &&& self.spacing == pre.spacing
        &&& self.offset == offset
        &&& self.boxes@.len() == pre.boxes@.len()
        &&& forall|i: int|
            0 <= i < pre.boxes@.len() ==> child_repositioned(
                #[trigger] self.boxes@[i],
                pre.boxes@[i],
                offset,
                pre.spacing,
                i,
            )
    }

    open spec fn render_req(&self, gui: &Gui) -> bool {
        &&& gui.wf()
        &&& self.wf()
        &&& self.description.offset.wf()
        &&& self.description.background == true
        &&& self.description.title@.len() <= MAX_TEXT
        &&& forall|j: int|
            0 <= j < self.boxes@.len() ==> full_text_spec(#[trigger] self.boxes@[j]).len()
                + gui.input.pressed_keys@.len() <= MAX_TEXT
    }

    /// One render draws the caption, then renders each child in turn at its
    /// accumulated position, threading the input state through the row (an
    /// earlier child that claims input starves the later ones).
    open spec fn render_post(
        &self,
        post: MultiBox,
        pre_gui: Gui,
        post_gui: Gui,
        pre_cmds: Seq<DrawCommand>,
        post_cmds: Seq<DrawCommand>,
    ) -> bool {
        let n = self.boxes@.len() as int;
        let desc_w = text_width(pre_gui.metrics, self.description.title@);
        &&& post.description.title@ == self.description.title@
        &&& post.description.background == self.description.background
        &&& post.description.offset == self.description.offset
        &&& post.spacing == self.spacing
        &&& post.offset == self.offset
        &&& post.boxes@.len() == n
        &&& post_gui.window_size == pre_gui.window_size
        &&& post_gui.metrics == pre_gui.metrics
        &&& post_cmds.len() == pre_cmds.len() + 2 + 2 * n
        &&& label_rendered(
            self.description,
            pre_gui,
            pre_cmds,
            post_cmds.take(pre_cmds.len() as int + 2),
        )
        &&& exists|offs: Seq<Offset>, states: Seq<InputState>|
            #[trigger] multibox_children_rendered(
                self.boxes@,
                post.boxes@,
                offs,
                states,
                self.offset,
                self.spacing,
                desc_w,
                pre_gui,
                post_gui,
                pre_cmds.len() as int + 2,
                post_cmds,
            )
    }

    fn get_offset(&self) -> Offset {
        self.offset
    }

    /// Repositions the root and every child at `offset.x + i * spacing` (the
    /// construction-time layout family; the next render supersedes it).
    fn set_offset(&mut self, offset: &Offset) {
        self.offset = *offset;
        let n = self.boxes.len();
        let mut i: usize = 0;
        while i < n
            invariant
                0 <= i <= n,
                n == old(self).boxes@.len(),
                self.boxes@.len() == n,
                n <= MAX_CHILDREN,
                -MAX_SPACING <= old(self).spacing <= MAX_SPACING,
                -MAX_BASE <= offset.relative.0 <= MAX_BASE,
                self.description == old(self).description,
                self.spacing == old(self).spacing,
                self.offset == *offset,
                forall|j: int| i <= j < n ==> self.boxes@[j] == old(self).boxes@[j],
                forall|j: int|
                    0 <= j < i ==> child_repositioned(
                        #[trigger] self.boxes@[j],
                        old(self).boxes@[j],
                        *offset,
                        old(self).spacing,
                        j,
                    ),
            decreases n - i,
        {
            proof {
                assert(-1024 * 1048576 <= i * self.spacing <= 1024 * 1048576) by (nonlinear_arith)
                    requires
                        0 <= i <= 1024,
                        -1048576 <= self.spacing <= 1048576,
                ;
            }
            let ghost boxes_before = self.boxes@;
            let mut b = self.boxes.remove(i);
            let mut child_offset = *offset;
            child_offset.relative.0 = offset.relative.0 + (i as i64) * self.spacing;
            b.offset = child_offset;
            self.boxes.insert(i, b);
            proof {
                assert(self.boxes@ =~= boxes_before.update(i as int, self.boxes@[i as int]));
            }
            i += 1;
        }
    }

    fn offset(self, offset: &Offset) -> MultiBox {
        let mut w = self;
        w.set_offset(offset);
        w
    }

    fn get_size(&self, gui: &Gui) -> (i64, i64) {
        (0, 0)
    }

    #[verifier::rlimit(100)]
    fn render(&mut self, gui: &mut Gui, frame: &mut Vec<DrawCommand>) {
        let ghost g0 = *gui;
        let ghost m0 = *self;
        let ghost pre_len = frame@.len() as int;
        let ghost desc_w = text_width(gui.metrics, self.description.title@);
        let ghost row_start = pre_len + 2;
        proof {
            crate::lemma_text_size_in_range(gui.metrics, self.description.title@);
        }

        self.description.render(gui, frame);
        proof {
            assert(frame@.take(frame@.len() as int) =~= frame@);
            assert(frame@.len() == row_start);
        }

        let desc_size = self.description.get_size(gui);
        let mut end = desc_size;
        let mut off_cur = self.offset;
        let ghost mut offs: Seq<Offset> = Seq::empty();
        let ghost mut states: Seq<InputState> = seq![gui.input];
        let n = self.boxes.len();
        let mut idx: usize = 0;
        while idx < n
            invariant
                0 <= idx <= n,
                n == m0.boxes@.len(),
                self.boxes@.len() == n,
                n <= MAX_CHILDREN,
                self.offset == m0.offset,
                self.spacing == m0.spacing,
                self.description.title@ == m0.description.title@,
                self.description.background == m0.description.background,
                self.description.offset == m0.description.offset,
                gui.wf(),
                gui.window_size == g0.window_size,
                gui.metrics == g0.metrics,
                gui.input.pressed_keys@.len() <= g0.input.pressed_keys@.len(),
                -MAX_SPACING <= m0.spacing <= MAX_SPACING,
                -MAX_BASE <= m0.offset.relative.0 <= MAX_BASE,
                -MAX_COORD <= m0.offset.relative.1 <= MAX_COORD,
                0 <= desc_w <= MAX_SIZE,
                desc_w == text_width(g0.metrics, m0.description.title@),
                forall|j: int| idx <= j < n ==> self.boxes@[j] == m0.boxes@[j],
                forall|j: int|
                    0 <= j < n ==> full_text_spec(#[trigger] m0.boxes@[j]).len()
                        + g0.input.pressed_keys@.len() <= MAX_TEXT,
                forall|j: int|
                    0 <= j < idx ==> full_text_spec(#[trigger] self.boxes@[j]).len() <= MAX_TEXT,
                offs.len() == idx,
                states.len() == idx + 1,
                states[0] == g0.input,
                states[idx as int] == gui.input,
                forall|j: int|
                    0 <= j < idx ==> {
                        &&& (#[trigger] offs[j]).relative.0 == child_offset_x(
                            m0.offset,
                            m0.spacing,
                            desc_w,
                            self.boxes@,
                            g0.metrics,
                            j,
                        )
                        &&& offs[j].relative.1 == m0.offset.relative.1
                        &&& offs[j].align == m0.offset.align
                    },
                forall|j: int|
                    0 <= j < idx ==> inputbox_render_rel(
                        InputBox {
                            active: m0.boxes@[j].active,
                            description: m0.boxes@[j].description,
                            show_desc: m0.boxes@[j].show_desc,
                            input: m0.boxes@[j].input,
                            offset: offs[j],
                        },
                        #[trigger] self.boxes@[j],
                        states[j],
                        states[j + 1],
                        g0.window_size,
                        g0.metrics,
                        frame@.take(row_start + 2 * j),
                        frame@.take(row_start + 2 * j + 2),
                    ),
                frame@.len() == row_start + 2 * idx,
                pre_len == old(frame)@.len(),
                row_start == pre_len + 2,
                label_rendered(m0.description, g0, old(frame)@, frame@.take(row_start)),
                off_cur.align == m0.offset.align,
                off_cur.relative.1 == m0.offset.relative.1,
                off_cur.relative.0 as int == if idx == 0 {
                    m0.offset.relative.0 as int
                } else {
                    child_offset_x(m0.offset, m0.spacing, desc_w, self.boxes@, g0.metrics, idx - 1)
                },
                end.0 as int == if idx == 0 {
                    desc_w
                } else {
                    text_width(g0.metrics, full_text_spec(self.boxes@[idx - 1]))
                },
                0 <= end.0 <= MAX_SIZE,
            decreases n - idx,
        {
            proof {
                lemma_child_offset_bound(
                    m0.offset,
                    m0.spacing,
                    desc_w,
                    self.boxes@,
                    g0.metrics,
                    idx as int,
                );
                if idx > 0 {
                    lemma_child_offset_bound(
                        m0.offset,
                        m0.spacing,
                        desc_w,
                        self.boxes@,
                        g0.metrics,
                        idx as int - 1,
                    );
                }
                assert((idx + 1) * m0.spacing == idx * m0.spacing + m0.spacing) by (nonlinear_arith);
            }
            match self.offset.align.0 {
                HAlign::Left | HAlign::Center => {
                    off_cur.relative.0 = off_cur.relative.0 + end.0 + self.spacing;
                },
                HAlign::Right => {
                    off_cur.relative.0 = off_cur.relative.0 - self.spacing;
                },
            }
            proof {
                assert(off_cur.relative.0 as int == child_offset_x(
                    m0.offset,
                    m0.spacing,
                    desc_w,
                    self.boxes@,
                    g0.metrics,
                    idx as int,
                ));
            }

            let ghost boxes_before = self.boxes@;
            let ghost gui_at_call = *gui;
            let ghost frame_at_call = frame@;
            let mut b = self.boxes.remove(idx);
            b.offset = off_cur;
            proof {
                assert(full_text_spec(m0.boxes@[idx as int]).len()
                    + g0.input.pressed_keys@.len() <= MAX_TEXT);
                assert(full_text_spec(b) == full_text_spec(m0.boxes@[idx as int]));
            }
            let ghost b_pre = b;
            b.render(gui, frame);
            proof {
                lemma_render_rel_frame(
                    b_pre,
                    b,
                    gui_at_call.input,
                    gui.input,
                    g0.window_size,
                    g0.metrics,
                    frame_at_call,
                    frame@,
                );
            }
            let size = b.get_size(gui);
            end = size;
            self.boxes.insert(idx, b);
            proof {
                assert(self.boxes@ =~= boxes_before.update(idx as int, self.boxes@[idx as int]));
                offs = offs.push(off_cur);
                states = states.push(gui.input);
                assert forall|j: int|
                    0 <= j <= idx implies widths_sum(self.boxes@, g0.metrics, j) == widths_sum(
                    boxes_before,
                    g0.metrics,
                    j,
                ) by {
                    lemma_widths_sum_prefix_eq(boxes_before, self.boxes@, g0.metrics, j);
                }
                assert(frame@.take(frame_at_call.len() as int) == frame_at_call);
                assert(frame@.take(row_start + 2 * idx + 2) =~= frame@);
                assert(frame@.take(row_start) =~= frame_at_call.take(row_start));
                assert(full_text_spec(self.boxes@[idx as int]).len() <= MAX_TEXT);
                crate::lemma_text_size_in_range(
                    g0.metrics,
                    full_text_spec(self.boxes@[idx as int]),
                );
                assert forall|j: int| 0 <= j < idx implies #[trigger] frame@.take(row_start + 2 * j)
                    == frame_at_call.take(row_start + 2 * j) && frame@.take(
                    row_start + 2 * j + 2,
                ) == frame_at_call.take(row_start + 2 * j + 2) by {
                    assert(frame@.take(row_start + 2 * j) =~= frame_at_call.take(
                        row_start + 2 * j,
                    ));
                    assert(frame@.take(row_start + 2 * j + 2) =~= frame_at_call.take(
                        row_start + 2 * j + 2,
                    ));
                }
            }
            idx += 1;
        }
        proof {
            assert(frame@.take(frame@.len() as int) =~= frame@);
            assert(multibox_children_rendered(
                m0.boxes@,
                self.boxes@,
                offs,
                states,
                m0.offset,
                m0.spacing,
                desc_w,
                g0,
                *gui,
                row_start,
                frame@,
            ));
            assert(multibox_children_rendered(
                m0.boxes@,
                self.boxes@,
                offs,
                states,
                m0.offset,
                m0.spacing,
                text_width(g0.metrics, m0.description.title@),
                g0,
                *gui,
                old(frame)@.len() as int + 2,
                frame@,
            ));
        }
    }
}

} // verus!

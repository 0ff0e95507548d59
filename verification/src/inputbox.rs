//! An editable text field with an active/inactive state: a click inside its
//! hitbox focuses it, pressed keys accumulate into its text while it is
//! active, and its text can be read back as an integer once it loses focus.

use vstd::prelude::*;

use crate::input::{
    consumed_post, contains_key, processed_post, InputState, Key, KEY_BACKSPACE, KEY_ESCAPE,
    KEY_MINUS, KEY_NUMPAD_MINUS, KEY_RETURN,
};
use crate::{
    append_chars, color_active, color_background, color_text, is_rect, is_text,
    lemma_text_size_in_range, resolve_pos, strictly_inside, text_chars, text_height, text_width,
    DrawCommand, Gui, GuiElement, Offset, TextMetrics, FONT_SIZE, MAX_TEXT,
};

verus! {

pub struct InputBox {
    pub active: bool,
    pub description: Vec<char>,
    pub show_desc: bool,
    pub input: Vec<char>,
    pub offset: Offset,
}

/// The character a key produces in the field: its code truncated to a byte.
/// A crude ASCII-only mapping (no shift, caps or Unicode handling), kept as a
/// documented limitation.
pub open spec fn key_char(k: Key) -> char {
    ((k.code % 256) as u8) as char
}

/// The effect of one pressed key on the field text: Backspace removes the
/// last character, Escape clears the field, either Minus key appends a
/// literal '-', and any other key appends its mapped character.
pub open spec fn apply_key(s: Seq<char>, k: Key) -> Seq<char> {
    if k.code == KEY_BACKSPACE {
        if s.len() == 0 {
            s
        } else {
            s.drop_last()
        }
    } else if k.code == KEY_ESCAPE {
        Seq::empty()
    } else if k.code == KEY_MINUS || k.code == KEY_NUMPAD_MINUS {
        s.push('-')
    } else {
        s.push(key_char(k))
    }
}

/// The effect of a run of pressed keys, applied in arrival order.
pub open spec fn apply_keys(s: Seq<char>, ks: Seq<Key>) -> Seq<char>
    decreases ks.len(),
{
    if ks.len() == 0 {
        s
    } else {
        apply_keys(apply_key(s, ks[0]), ks.drop_first())
    }
}

pub proof fn lemma_apply_keys_snoc(s: Seq<char>, ks: Seq<Key>, k: Key)
    ensures
        apply_keys(s, ks.push(k)) == apply_key(apply_keys(s, ks), k),
    decreases ks.len(),
{
    if ks.len() == 0 {
        assert(ks.push(k)[0] == k);
        assert(ks.push(k).drop_first() =~= Seq::<Key>::empty());
        assert(apply_keys(s, ks.push(k)) == apply_keys(apply_key(s, k), Seq::<Key>::empty()));
    } else {
        assert(ks.push(k)[0] == ks[0]);
        assert(ks.push(k).drop_first() =~= ks.drop_first().push(k));
        lemma_apply_keys_snoc(apply_key(s, ks[0]), ks.drop_first(), k);
    }
}

/// A run of keys grows the field by at most one character per key.
pub proof fn lemma_apply_keys_len(s: Seq<char>, ks: Seq<Key>)
    ensures
        apply_keys(s, ks).len() <= s.len() + ks.len(),
    decreases ks.len(),
{
    if ks.len() > 0 {
        lemma_apply_keys_len(apply_key(s, ks[0]), ks.drop_first());
    }
}

/// The text the box displays and hit-tests: `description: input` when the
/// description is shown, the bare field text otherwise, and a single space in
/// place of an empty string so the hitbox never degenerates.
pub open spec fn full_text_spec(b: InputBox) -> Seq<char> {
    let t = if b.show_desc {
        b.description@ + seq![':', ' '] + b.input@
    } else {
        b.input@
    };
    if t.len() == 0 {
        seq![' ']
    } else {
        t
    }
}

/// Whether `c` is a decimal digit.
pub open spec fn is_digit(c: char) -> bool {
    48 <= c as u32 <= 57
}

pub open spec fn all_digits(s: Seq<char>) -> bool {
    forall|i: int| 0 <= i < s.len() ==> is_digit(#[trigger] s[i])
}

/// Numeric value of a digit character.
pub open spec fn digit_val(c: char) -> int {
    (c as u32) as int - 48
}

/// Value of a run of digit characters, most significant first.
pub open spec fn digits_val(s: Seq<char>) -> int
    decreases s.len(),
{
    if s.len() == 0 {
        0
    } else {
        digits_val(s.drop_last()) * 10 + digit_val(s.last())
    }
}

/// What parsing the field text as a signed decimal integer yields: an
/// optional leading sign followed by at least one digit and nothing else,
/// with the value in range; anything else is rejected.
pub open spec fn parse_i64_spec(s: Seq<char>) -> Option<i64> {
    let neg = s.len() > 0 && s[0] == '-';
    let ds = if s.len() > 0 && (s[0] == '-' || s[0] == '+') {
        s.drop_first()
    } else {
        s
    };
    if ds.len() == 0 || !all_digits(ds) {
        None
    } else {
        let v = if neg {
            -digits_val(ds)
        } else {
            digits_val(ds)
        };
        if i64::MIN <= v <= i64::MAX {
            Some(v as i64)
        } else {
            None
        }
    }
}

proof fn lemma_digits_val_nonneg(s: Seq<char>)
    requires
        all_digits(s),
    ensures
        digits_val(s) >= 0,
    decreases s.len(),
{
    if s.len() > 0 {
        assert(all_digits(s.drop_last()));
        lemma_digits_val_nonneg(s.drop_last());
    }
}

/// Parses a signed decimal integer, exactly as [`parse_i64_spec`] describes.
pub fn parse_i64(text: &Vec<char>) -> (r: Option<i64>)
    ensures
        r == parse_i64_spec(text@),
{
    let n = text.len();
    let mut i: usize = 0;
    let mut neg = false;
    if n > 0 && (text[0] == '-' || text[0] == '+') {
        neg = text[0] == '-';
        i = 1;
    }
    if i == n {
        return None;
    }
    let ghost start = i as int;
    let ghost ds = text@.subrange(start, n as int);
    assert(ds =~= if text@.len() > 0 && (text@[0] == '-' || text@[0] == '+') {
        text@.drop_first()
    } else {
        text@
    });

    let mut acc: u64 = 0;
    let mut over = false;
    while i < n
        invariant
            0 <= start <= i <= n,
            n == text@.len(),
            ds == text@.subrange(start, n as int),
            ds == if text@.len() > 0 && (text@[0] == '-' || text@[0] == '+') {
                text@.drop_first()
            } else {
                text@
            },
            all_digits(text@.subrange(start, i as int)),
            !over ==> acc == digits_val(text@.subrange(start, i as int)),
            over ==> digits_val(text@.subrange(start, i as int)) > u64::MAX,
        decreases n - i,
    {
        let c = text[i];
        let cc = c as u32;
        if cc < 48 || cc > 57 {
            assert(ds[i - start] == text@[i as int]);
            assert(!is_digit(ds[i - start]));
            assert(!all_digits(ds));
            assert(parse_i64_spec(text@) is None);
            return None;
        }
        let d = (cc - 48) as u64;
        proof {
            let pre = text@.subrange(start, i as int);
            let ext = text@.subrange(start, i as int + 1);
            assert(ext.drop_last() =~= pre);
            assert(ext.last() == text@[i as int]);
            assert(digits_val(ext) == digits_val(pre) * 10 + digit_val(text@[i as int]));
            assert(all_digits(ext)) by {
                assert forall|j: int| 0 <= j < ext.len() implies is_digit(#[trigger] ext[j]) by {
                    if j < i - start {
                        assert(ext[j] == pre[j]);
                    } else {
                        assert(ext[j] == text@[i as int]);
                    }
                }
            };
        }
        if !over {
            if acc <= (u64::MAX - d) / 10 {
                proof {
                    assert(acc * 10 + d <= u64::MAX) by (nonlinear_arith)
                        requires
                            acc <= (u64::MAX - d) / 10,
                            d <= 9,
                    ;
                }
                acc = acc * 10 + d;
            } else {
                proof {
                    assert(acc * 10 + d > u64::MAX) by (nonlinear_arith)
                        requires
                            acc > (u64::MAX - d) / 10,
                            0 <= d <= 9,
                    ;
                }
                over = true;
            }
        } else {
            proof {
                lemma_digits_val_nonneg(text@.subrange(start, i as int));
                assert(digits_val(text@.subrange(start, i as int)) * 10 + digit_val(text@[i as int])
                    > u64::MAX) by (nonlinear_arith)
                    requires
                        digits_val(text@.subrange(start, i as int)) > u64::MAX,
                        digit_val(text@[i as int]) >= 0,
                ;
            }
        }
        i += 1;
    }
    assert(text@.subrange(start, n as int) =~= ds);

    if over {
        proof {
            lemma_digits_val_nonneg(ds);
        }
        return None;
    }
    if neg {
        if acc <= 9223372036854775807u64 {
            Some(-(acc as i64))
        } else if acc == 9223372036854775808u64 {
            Some(i64::MIN)
        } else {
            None
        }
    } else {
        if acc <= 9223372036854775807u64 {
            Some(acc as i64)
        } else {
            None
        }
    }
}

impl InputBox {
    pub fn new(description: &str, offset: Offset) -> (b: InputBox)
        requires
            description.is_ascii(),
        ensures
            b.active == false,
            b.description@ == description@,
            b.show_desc == true,
            b.input@ == Seq::<char>::empty(),
            b.offset == offset,
    {
        InputBox {
            active: false,
            description: text_chars(description),
            input: Vec::new(),
            show_desc: true,
            offset,
        }
    }

    /// Builder-style initial field text.
    pub fn value(self, text: &str) -> (b: InputBox)
        requires
            text.is_ascii(),
        ensures
            b.active == self.active,
            b.description@ == self.description@,
            b.show_desc == self.show_desc,
            b.input@ == text@,
            b.offset == self.offset,
    {
        let mut b = self;
        b.input = text_chars(text);
        b
    }

    /// Reads the field parsed as an integer into `value` — but only while the
    /// box is inactive (an edit in progress is never reflected), and only if
    /// the whole field parses; otherwise `value` is left untouched.
    pub fn input(&self, value: &mut i64)
        ensures
            *final(value) == if !self.active && parse_i64_spec(self.input@) is Some {
                parse_i64_spec(self.input@)->Some_0
            } else {
                *old(value)
            },
    {
        if !self.active {
            let parsed = parse_i64(&self.input);
            if let Some(v) = parsed {
                *value = v;
            }
        }
    }

    /// The displayed text as a buffer (see [`full_text_spec`]).
    pub fn full_text(&self) -> (v: Vec<char>)
        ensures
            v@ == full_text_spec(*self),
    {
        let mut t: Vec<char> = Vec::new();
        if self.show_desc {
            append_chars(&mut t, &self.description);
            t.push(':');
            t.push(' ');
            let ghost head = self.description@ + seq![':', ' '];
            assert(t@ =~= head);
            append_chars(&mut t, &self.input);
            assert(t@ =~= self.description@ + seq![':', ' '] + self.input@);
        } else {
            append_chars(&mut t, &self.input);
            assert(t@ =~= self.input@);
        }
        if t.len() == 0 {
            t.push(' ');
            assert(t@ =~= seq![' ']);
        }
        t
    }
}

/// How one render call relates an input box and the input state before it to
/// those after it, under the given window size and metrics, and what it
/// appends to the command list. Shared by the box itself and by the
/// composites that render rows of boxes.
///
/// A click inside the hitbox focuses the box and consumes all input; a click
/// outside unfocuses it without consuming (the click stays claimable by other
/// widgets). A pending Return unfocuses unconditionally. While the box stays
/// active, all pressed keys are applied to the field in arrival order and the
/// box then advances the frame (pressed state becomes held).
#[verifier::opaque]
pub open spec fn inputbox_render_rel(
    pre: InputBox,
    post: InputBox,
    pre_inp: InputState,
    post_inp: InputState,
    window: (u32, u32),
    metrics: TextMetrics,
    pre_cmds: Seq<DrawCommand>,
    post_cmds: Seq<DrawCommand>,
) -> bool {
    let size = (text_width(metrics, full_text_spec(pre)), text_height(metrics));
    let pos = resolve_pos(pre.offset, size, window);
    let inside = pre_inp.pressed_mouse is Some && strictly_inside(pre_inp.cursor, pos, size);
    let active1 = if pre_inp.pressed_mouse is Some {
        inside
    } else {
        pre.active
    };
    let keys1 = if inside {
        Seq::<Key>::empty()
    } else {
        pre_inp.pressed_keys@
    };
    let active2 = if keys1.contains(Key { code: KEY_RETURN }) {
        false
    } else {
        active1
    };
    &&& post.description@ == pre.description@
    &&& post.show_desc == pre.show_desc
    &&& post.offset == pre.offset
    &&& post.active == active2
    &&& post.input@ == if active2 {
        apply_keys(pre.input@, keys1)
    } else {
        pre.input@
    }
    &&& if inside {
        // consumed, and then (the box is necessarily active) processed
        &&& post_inp.cursor == pre_inp.cursor
        &&& post_inp.last_cursor == pre_inp.cursor
        &&& post_inp.pressed_mouse is None
        &&& post_inp.held_mouse is None
        &&& post_inp.released_mouse is None
        &&& post_inp.mouse_wheel == 0
        &&& post_inp.pressed_keys@ == Seq::<Key>::empty()
        &&& post_inp.held_keys@ == Seq::<Key>::empty()
        &&& post_inp.released_keys@ == Seq::<Key>::empty()
    } else if active2 {
        processed_post(pre_inp, post_inp)
    } else {
        post_inp == pre_inp
    }
    &&& post_cmds.len() == pre_cmds.len() + 2
    &&& post_cmds.take(pre_cmds.len() as int) == pre_cmds
    &&& is_rect(
        post_cmds[pre_cmds.len() as int],
        if pre.active {
            color_active()
        } else {
            color_background()
        },
        pos.0 - 2,
        pos.1 - size.1 - 2,
        size.0 + 5,
        size.1 + 5,
    )
    &&& is_text(
        post_cmds[pre_cmds.len() as int + 1],
        color_text(),
        FONT_SIZE,
        full_text_spec(pre),
        pos.0,
        pos.1,
    )
}

/// The frame-level consequences of one box render that a composite needs
/// while it lays out the rest of its row.
pub proof fn lemma_render_rel_frame(
    pre: InputBox,
    post: InputBox,
    pre_inp: InputState,
    post_inp: InputState,
    window: (u32, u32),
    metrics: TextMetrics,
    pre_cmds: Seq<DrawCommand>,
    post_cmds: Seq<DrawCommand>,
)
    requires
        inputbox_render_rel(pre, post, pre_inp, post_inp, window, metrics, pre_cmds, post_cmds),
    ensures
        post.description@ == pre.description@,
        post.show_desc == pre.show_desc,
        post.offset == pre.offset,
        post.input@.len() <= pre.input@.len() + pre_inp.pressed_keys@.len(),
        full_text_spec(post).len() <= full_text_spec(pre).len() + pre_inp.pressed_keys@.len(),
        post_inp.pressed_keys@.len() <= pre_inp.pressed_keys@.len(),
        post_inp.cursor == pre_inp.cursor,
        post_cmds.len() == pre_cmds.len() + 2,
        post_cmds.take(pre_cmds.len() as int) == pre_cmds,
{
    reveal(inputbox_render_rel);
    lemma_apply_keys_len(pre.input@, pre_inp.pressed_keys@);
    lemma_apply_keys_len(pre.input@, Seq::<Key>::empty());
}

impl GuiElement for InputBox {
    open spec fn offset_spec(&self) -> Offset {
        self.offset
    }

    open spec fn size_spec(&self, gui: &Gui) -> (int, int) {
        (text_width(gui.metrics, full_text_spec(*self)), text_height(gui.metrics))
    }

    open spec fn size_req(&self, gui: &Gui) -> bool {
        &&& gui.wf()
        &&& full_text_spec(*self).len() <= MAX_TEXT
    }

    open spec fn set_offset_req(&self, offset: &Offset) -> bool {
        true
    }

    open spec fn set_offset_post(&self, pre: InputBox, offset: Offset) -> bool {
        &&& self.active == pre.active
        &&& self.description@ == pre.description@
        &&& self.show_desc == pre.show_desc
        &&& self.input@ == pre.input@
        &&& self.offset == offset
    }

    open spec fn render_req(&self, gui: &Gui) -> bool {
        &&& gui.wf()
        &&& self.offset.wf()
        &&& full_text_spec(*self).len() <= MAX_TEXT
    }

    open spec fn render_post(
        &self,
        post: InputBox,
        pre_gui: Gui,
        post_gui: Gui,
        pre_cmds: Seq<DrawCommand>,
        post_cmds: Seq<DrawCommand>,
    ) -> bool {
        &&& inputbox_render_rel(
            *self,
            post,
            pre_gui.input,
            post_gui.input,
            pre_gui.window_size,
            pre_gui.metrics,
            pre_cmds,
            post_cmds,
        )
        &&& post_gui.window_size == pre_gui.window_size
        &&& post_gui.metrics == pre_gui.metrics
    }

    fn get_offset(&self) -> Offset {
        self.offset
    }

    fn set_offset(&mut self, offset: &Offset) {
        self.offset = *offset;
    }

    fn offset(self, offset: &Offset) -> InputBox {
        let mut w = self;
        w.set_offset(offset);
        w
    }

    fn get_size(&self, gui: &Gui) -> (i64, i64) {
        let ft = self.full_text();
        gui.text_size(&ft)
    }

    /// Draw the field (background color by focus state, then the text), then
    /// hit-test a pending click, then apply pending keys while active, and in
    /// that case advance the frame (see [`inputbox_render_rel`]).
    fn render(&mut self, gui: &mut Gui, frame: &mut Vec<DrawCommand>) {
        proof {
            reveal(inputbox_render_rel);
            lemma_text_size_in_range(gui.metrics, full_text_spec(*self));
        }
        let ft = self.full_text();
        let hitbox = gui.text_size(&ft);
        let position = gui.position_of(&self.offset, hitbox);
        let start = (position.0, position.1 - hitbox.1);
        let end = (position.0 + hitbox.0, position.1);
        let color = if self.active {
            color_active()
        } else {
            color_background()
        };

        frame.push(
            DrawCommand::Rect {
                color,
                x: start.0 - 2,
                y: start.1 - 2,
                width: hitbox.0 + 5,
                height: hitbox.1 + 5,
            },
        );
        frame.push(
            DrawCommand::Text {
                color: color_text(),
                font_size: FONT_SIZE,
                text: ft,
                x: position.0,
                y: position.1,
            },
        );
        proof {
            assert(frame@.take(old(frame)@.len() as int) =~= old(frame)@);
        }

        if gui.input.pressed_mouse.is_some() {
            let cursor = gui.input.cursor;
            if cursor.x > start.0 && cursor.x < end.0 && cursor.y > start.1 && cursor.y < end.1 {
                self.active = true;
                gui.input.consume();
            } else {
                self.active = false;
            }
        }

        if contains_key(&gui.input.pressed_keys, Key { code: KEY_RETURN }) {
            self.active = false;
        }

        if self.active {
            let ghost gui1 = *gui;
            let ghost input0 = self.input@;
            let ghost keys0 = gui.input.pressed_keys@;
            let n = gui.input.pressed_keys.len();
            let mut idx: usize = 0;
            while idx < n
                invariant
                    0 <= idx <= n,
                    *gui == gui1,
                    n == keys0.len(),
                    gui.input.pressed_keys@ == keys0,
                    self.input@ == apply_keys(input0, keys0.take(idx as int)),
                    self.active == true,
                    self.description@ == old(self).description@,
                    self.show_desc == old(self).show_desc,
                    self.offset == old(self).offset,
                decreases n - idx,
            {
                let k = gui.input.pressed_keys[idx];
                if k.code == KEY_BACKSPACE {
                    let _popped = self.input.pop();
                } else if k.code == KEY_ESCAPE {
                    self.input.clear();
                } else if k.code == KEY_MINUS || k.code == KEY_NUMPAD_MINUS {
                    self.input.push('-');
                } else {
                    self.input.push(((k.code % 256) as u8) as char);
                }
                proof {
                    lemma_apply_keys_snoc(input0, keys0.take(idx as int), k);
                    assert(keys0.take(idx as int).push(k) =~= keys0.take(idx as int + 1));
                    if k.code == KEY_BACKSPACE && apply_keys(input0, keys0.take(idx as int)).len()
                        > 0 {
                        assert(apply_keys(input0, keys0.take(idx as int)).subrange(
                            0,
                            apply_keys(input0, keys0.take(idx as int)).len() - 1,
                        ) =~= apply_keys(input0, keys0.take(idx as int)).drop_last());
                    }
                }
                idx += 1;
            }
            proof {
                assert(keys0.take(n as int) =~= keys0);
            }
            gui.input.processed();
        }
    }
}

} // verus!

//! Per-frame input tracking: cursor, mouse-button and keyboard edge/level
//! state, and the destructive consumption protocol that gives at most one
//! widget a claim on each pending event.

use vstd::prelude::*;

use crate::Vector;

verus! {

/// Identifier of a keyboard key, as reported by the host's event source.
///
/// The toolkit interprets a handful of control keys (see the `KEY_*`
/// constants); every other key is mapped to a character by truncating its
/// code to a byte. This crude ASCII-only mapping is a documented limitation,
/// not something to widen silently.
#[derive(Clone, Copy, PartialEq, Eq, Structural, Debug)]
pub struct Key {
    pub code: u32,
}

pub const KEY_BACKSPACE: u32 = 8;

pub const KEY_RETURN: u32 = 13;

pub const KEY_ESCAPE: u32 = 27;

pub const KEY_MINUS: u32 = 45;

pub const KEY_NUMPAD_MINUS: u32 = 1073741910;

/// Identifier of a mouse button, as reported by the host's event source.
#[derive(Clone, Copy, PartialEq, Eq, Structural, Debug)]
pub enum MouseButton {
    Left,
    Right,
    Middle,
    X1,
    X2,
    Unknown,
}

/// A platform event, decoded by the host into plain values before it is
/// handed to the toolkit.
#[derive(Clone, Copy, PartialEq, Eq, Structural, Debug)]
pub enum Event {
    CursorMove { x: i64, y: i64 },
    Scroll { delta: i64 },
    KeyPress { key: Key },
    KeyRelease { key: Key },
    MousePress { button: MouseButton },
    MouseRelease { button: MouseButton },
    Resize { width: u32, height: u32 },
}

/// The current state of input: which buttons and keys are freshly pressed
/// (this frame), held (since an earlier frame), or freshly released, plus the
/// cursor position and the accumulated scroll-wheel delta.
///
/// Only one mouse button is tracked at a time (a known limitation). A key in
/// `held_keys` is never simultaneously in `pressed_keys`.
pub struct InputState {
    pub last_cursor: Vector,
    pub cursor: Vector,
    pub pressed_mouse: Option<MouseButton>,
    pub held_mouse: Option<MouseButton>,
    pub released_mouse: Option<MouseButton>,
    pub mouse_wheel: i64,
    pub pressed_keys: Vec<Key>,
    pub held_keys: Vec<Key>,
    pub released_keys: Vec<Key>,
}

/// Addition on `i64` that clamps at the ends of the range instead of
/// overflowing (used for the accumulated wheel delta).
pub open spec fn sat_add_i64(a: int, b: int) -> int {
    if a + b > i64::MAX {
        i64::MAX as int
    } else if a + b < i64::MIN {
        i64::MIN as int
    } else {
        a + b
    }
}

/// The sequence `s` with its first occurrence of `k` (if any) removed.
pub open spec fn remove_first(s: Seq<Key>, k: Key) -> Seq<Key>
    decreases s.len(),
{
    if s.len() == 0 {
        s
    } else if s[0] == k {
        s.drop_first()
    } else {
        seq![s[0]] + remove_first(s.drop_first(), k)
    }
}

/// Exactly how one decoded platform event transforms the input state.
/// `Resize` events are not input and leave the state untouched.
pub open spec fn event_post(pre: InputState, post: InputState, e: Event) -> bool {
    match e {
        Event::CursorMove { x, y } => {
            &&& post.cursor == (Vector { x, y })
            &&& post.last_cursor == pre.last_cursor
            &&& post.pressed_mouse == pre.pressed_mouse
            &&& post.held_mouse == pre.held_mouse
            &&& post.released_mouse == pre.released_mouse
            &&& post.mouse_wheel == pre.mouse_wheel
            &&& post.pressed_keys@ == pre.pressed_keys@
            &&& post.held_keys@ == pre.held_keys@
            &&& post.released_keys@ == pre.released_keys@
        },
        Event::Scroll { delta } => {
            &&& post.cursor == pre.cursor
            &&& post.last_cursor == pre.last_cursor
            &&& post.pressed_mouse == pre.pressed_mouse
            &&& post.held_mouse == pre.held_mouse
            &&& post.released_mouse == pre.released_mouse
            &&& post.mouse_wheel == sat_add_i64(pre.mouse_wheel as int, delta as int)
            &&& post.pressed_keys@ == pre.pressed_keys@
            &&& post.held_keys@ == pre.held_keys@
            &&& post.released_keys@ == pre.released_keys@
        },
        Event::KeyPress { key } => {
            &&& post.cursor == pre.cursor
            &&& post.last_cursor == pre.last_cursor
            &&& post.pressed_mouse == pre.pressed_mouse
            &&& post.held_mouse == pre.held_mouse
            &&& post.released_mouse == pre.released_mouse
            &&& post.mouse_wheel == pre.mouse_wheel
            &&& post.pressed_keys@ == if pre.pressed_keys@.contains(key) || pre.held_keys@.contains(
                key,
            ) {
                pre.pressed_keys@
            } else {
                pre.pressed_keys@.push(key)
            }
            &&& post.held_keys@ == pre.held_keys@
            &&& post.released_keys@ == pre.released_keys@
        },
        Event::KeyRelease { key } => {
            &&& post.cursor == pre.cursor
            &&& post.last_cursor == pre.last_cursor
            &&& post.pressed_mouse == pre.pressed_mouse
            &&& post.held_mouse == pre.held_mouse
            &&& post.released_mouse == pre.released_mouse
            &&& post.mouse_wheel == pre.mouse_wheel
            &&& post.pressed_keys@ == remove_first(pre.pressed_keys@, key)
            &&& post.held_keys@ == remove_first(pre.held_keys@, key)
            &&& post.released_keys@ == pre.released_keys@.push(key)
        },
        Event::MousePress { button } => {
            &&& post.cursor == pre.cursor
            &&& post.last_cursor == pre.last_cursor
            &&& post.pressed_mouse == Some(button)
            &&& post.held_mouse == pre.held_mouse
            &&& post.released_mouse == pre.released_mouse
            &&& post.mouse_wheel == pre.mouse_wheel
            &&& post.pressed_keys@ == pre.pressed_keys@
            &&& post.held_keys@ == pre.held_keys@
            &&& post.released_keys@ == pre.released_keys@
        },
        Event::MouseRelease { button } => {
            &&& post.cursor == pre.cursor
            &&& post.last_cursor == pre.last_cursor
            &&& post.pressed_mouse is None
            &&& post.held_mouse is None
            &&& post.released_mouse == Some(button)
            &&& post.mouse_wheel == pre.mouse_wheel
            &&& post.pressed_keys@ == pre.pressed_keys@
            &&& post.held_keys@ == pre.held_keys@
            &&& post.released_keys@ == pre.released_keys@
        },
        Event::Resize { .. } => {
            &&& post.cursor == pre.cursor
            &&& post.last_cursor == pre.last_cursor
            &&& post.pressed_mouse == pre.pressed_mouse
            &&& post.held_mouse == pre.held_mouse
            &&& post.released_mouse == pre.released_mouse
            &&& post.mouse_wheel == pre.mouse_wheel
            &&& post.pressed_keys@ == pre.pressed_keys@
            &&& post.held_keys@ == pre.held_keys@
            &&& post.released_keys@ == pre.released_keys@
        },
    }
}

/// `post` is `pre` after a destructive [`InputState::consume`]: all pending
/// button, key and wheel state wiped, cursor positions untouched.
pub open spec fn consumed_post(pre: InputState, post: InputState) -> bool {
    &&& post.cursor == pre.cursor
    &&& post.last_cursor == pre.last_cursor
    &&& post.pressed_mouse is None
    &&& post.held_mouse is None
    &&& post.released_mouse is None
    &&& post.mouse_wheel == 0
    &&& post.pressed_keys@ == Seq::<Key>::empty()
    &&& post.held_keys@ == Seq::<Key>::empty()
    &&& post.released_keys@ == Seq::<Key>::empty()
}

/// `post` is `pre` after the end-of-frame [`InputState::processed`]
/// transition: pressed state promoted to held (keys in FIFO order), released
/// state cleared, wheel delta zeroed, previous cursor snapshotted.
pub open spec fn processed_post(pre: InputState, post: InputState) -> bool {
    &&& post.cursor == pre.cursor
    &&& post.last_cursor == pre.cursor
    &&& post.pressed_mouse is None
    &&& post.held_mouse == if pre.pressed_mouse is Some {
        pre.pressed_mouse
    } else {
        pre.held_mouse
    }
    &&& post.released_mouse is None
    &&& post.mouse_wheel == 0
    &&& post.pressed_keys@ == Seq::<Key>::empty()
    &&& post.held_keys@ == pre.held_keys@ + pre.pressed_keys@
    &&& post.released_keys@ == Seq::<Key>::empty()
}

impl InputState {
    pub fn new() -> (s: InputState)
        ensures
            s.cursor == (Vector { x: 0, y: 0 }),
            s.last_cursor == (Vector { x: 0, y: 0 }),
            s.pressed_mouse is None,
            s.held_mouse is None,
            s.released_mouse is None,
            s.mouse_wheel == 0,
            s.pressed_keys@ == Seq::<Key>::empty(),
            s.held_keys@ == Seq::<Key>::empty(),
            s.released_keys@ == Seq::<Key>::empty(),
    {
        InputState {
            last_cursor: Vector { x: 0, y: 0 },
            cursor: Vector { x: 0, y: 0 },
            pressed_mouse: None,
            held_mouse: None,
            released_mouse: None,
            mouse_wheel: 0,
            pressed_keys: Vec::new(),
            held_keys: Vec::new(),
            released_keys: Vec::new(),
        }
    }

    /// Called once all the frame's input has been acted on: everything that
    /// was pressed becomes held, everything released is forgotten.
    ///
    /// This call is not automatic. The widget that acts on pressed keys (an
    /// active [`crate::InputBox`]) makes it, so whichever such widget renders
    /// first in a frame wins contended keyboard input.
    pub fn processed(&mut self)
        ensures
            processed_post(*old(self), *final(self)),
    {
        self.last_cursor = self.cursor;

        if self.pressed_mouse.is_some() {
            self.held_mouse = self.pressed_mouse;
            self.pressed_mouse = None;
        }

        self.held_keys.append(&mut self.pressed_keys);

        self.released_keys.clear();
        self.released_mouse = None;

        self.mouse_wheel = 0;
    }

    /// Destructively claims all pending input: every button, key and wheel
    /// state is wiped (the cursor position is kept), so no widget rendered
    /// later in this frame can react to the same events.
    pub fn consume(&mut self)
        ensures
            consumed_post(*old(self), *final(self)),
    {
        self.pressed_mouse = None;
        self.held_mouse = None;
        self.released_mouse = None;

        self.pressed_keys.clear();
        self.released_keys.clear();
        self.held_keys.clear();

        self.mouse_wheel = 0;
    }

    /// Folds one decoded platform event into the state.
    ///
    /// A key press is recorded only if the key is not already pressed or held
    /// (an OS-repeated key-down neither duplicates nor resurrects an entry).
    /// A key release removes the first matching entry from both the pressed
    /// and the held list. Only one mouse button is tracked: a press
    /// overwrites any previous one.
    pub fn event(&mut self, e: &Event)
        ensures
            event_post(*old(self), *final(self), *e),
    {
        match *e {
            Event::CursorMove { x, y } => {
                self.cursor = Vector { x, y };
            },
            Event::Scroll { delta } => {
                let w = self.mouse_wheel;
                self.mouse_wheel = if delta >= 0 {
                    if w <= i64::MAX - delta {
                        w + delta
                    } else {
                        i64::MAX
                    }
                } else {
                    if w >= i64::MIN - delta {
                        w + delta
                    } else {
                        i64::MIN
                    }
                };
            },
            Event::KeyPress { key } => {
                if !contains_key(&self.pressed_keys, key) && !contains_key(&self.held_keys, key) {
                    self.pressed_keys.push(key);
                }
            },
            Event::KeyRelease { key } => {
                remove_first_key(&mut self.pressed_keys, key);
                remove_first_key(&mut self.held_keys, key);
                self.released_keys.push(key);
            },
            Event::MousePress { button } => {
                self.pressed_mouse = Some(button);
            },
            Event::MouseRelease { .. } => {
                self.pressed_mouse = None;
                self.held_mouse = None;
            },
            Event::Resize { .. } => {},
        }
        if let Event::MouseRelease { button } = *e {
            self.released_mouse = Some(button);
        }
    }
}

/// The key-tracking invariant: neither list repeats a key, and no key is
/// pressed and held at the same time. A fresh state satisfies it (both lists
/// are empty), and the lemmas below show every transition keeps it.
pub open spec fn keys_wf(s: InputState) -> bool {
    &&& s.pressed_keys@.no_duplicates()
    &&& s.held_keys@.no_duplicates()
    &&& s.pressed_keys@.disjoint(s.held_keys@)
}

proof fn lemma_remove_first_structure(s: Seq<Key>, k: Key)
    ensures
        forall|x: Key| #[trigger] remove_first(s, k).contains(x) ==> s.contains(x),
        s.no_duplicates() ==> remove_first(s, k).no_duplicates(),
    decreases s.len(),
{
    if s.len() == 0 {
    } else if s[0] == k {
        assert forall|x: Key| #[trigger] s.drop_first().contains(x) implies s.contains(x) by {
            let i = choose|i: int| 0 <= i < s.drop_first().len() && s.drop_first()[i] == x;
            assert(s[i + 1] == x);
        }
    } else {
        lemma_remove_first_structure(s.drop_first(), k);
        let rest = remove_first(s.drop_first(), k);
        let r = seq![s[0]] + rest;
        assert forall|x: Key| #[trigger] r.contains(x) implies s.contains(x) by {
            let i = choose|i: int| 0 <= i < r.len() && r[i] == x;
            if i == 0 {
                assert(s[0] == x);
            } else {
                assert(rest.contains(x));
                let j = choose|j: int| 0 <= j < s.drop_first().len() && s.drop_first()[j] == x;
                assert(s[j + 1] == x);
            }
        }
        if s.no_duplicates() {
            assert(s.drop_first().no_duplicates());
            assert forall|i: int, j: int|
                0 <= i < seq![s[0]].len() && 0 <= j < rest.len() implies seq![s[0]][i]
                != rest[j] by {
                if seq![s[0]][i] == rest[j] {
                    assert(rest.contains(s[0]));
                    let x = choose|x: int|
                        0 <= x < s.drop_first().len() && s.drop_first()[x] == s[0];
                    assert(s[x + 1] == s[0]);
                }
            }
            vstd::seq_lib::lemma_no_dup_in_concat(seq![s[0]], rest);
        }
    }
}

/// Law: folding any event into a well-formed state leaves it well-formed.
pub proof fn lemma_event_preserves_keys_wf(pre: InputState, post: InputState, e: Event)
    requires
        keys_wf(pre),
        event_post(pre, post, e),
    ensures
        keys_wf(post),
{
    match e {
        Event::KeyPress { key } => {
            if !(pre.pressed_keys@.contains(key) || pre.held_keys@.contains(key)) {
                let p = pre.pressed_keys@.push(key);
                assert forall|i: int, j: int|
                    0 <= i < p.len() && 0 <= j < p.len() && i != j implies p[i] != p[j] by {
                    if j == p.len() - 1 {
                        assert(p[i] == pre.pressed_keys@[i]);
                    } else if i == p.len() - 1 {
                        assert(p[j] == pre.pressed_keys@[j]);
                    }
                }
                assert forall|i: int, j: int|
                    0 <= i < p.len() && 0 <= j < pre.held_keys@.len() implies p[i]
                    != pre.held_keys@[j] by {
                    if i < p.len() - 1 {
                        assert(p[i] == pre.pressed_keys@[i]);
                    }
                }
            }
        },
        Event::KeyRelease { key } => {
            lemma_remove_first_structure(pre.pressed_keys@, key);
            lemma_remove_first_structure(pre.held_keys@, key);
            let p = remove_first(pre.pressed_keys@, key);
            let h = remove_first(pre.held_keys@, key);
            assert forall|i: int, j: int|
                0 <= i < p.len() && 0 <= j < h.len() implies p[i] != h[j] by {
                if p[i] == h[j] {
                    assert(p.contains(p[i]));
                    assert(h.contains(h[j]));
                    let a = choose|a: int|
                        0 <= a < pre.pressed_keys@.len() && pre.pressed_keys@[a] == p[i];
                    let b = choose|b: int|
                        0 <= b < pre.held_keys@.len() && pre.held_keys@[b] == h[j];
                    assert(pre.pressed_keys@[a] != pre.held_keys@[b]);
                }
            }
        },
        _ => {},
    }
}

/// Law: the end-of-frame promotion of pressed keys to held keys leaves a
/// well-formed state well-formed (so a key is never held twice).
pub proof fn lemma_processed_preserves_keys_wf(pre: InputState, post: InputState)
    requires
        keys_wf(pre),
        processed_post(pre, post),
    ensures
        keys_wf(post),
{
    assert forall|i: int, j: int|
        0 <= i < pre.held_keys@.len() && 0 <= j < pre.pressed_keys@.len() implies pre.held_keys@[i]
        != pre.pressed_keys@[j] by {
        assert(pre.pressed_keys@[j] != pre.held_keys@[i]);
    }
    vstd::seq_lib::lemma_no_dup_in_concat(pre.held_keys@, pre.pressed_keys@);
}

/// Law: consuming all input trivially re-establishes the key invariant.
pub proof fn lemma_consume_establishes_keys_wf(pre: InputState, post: InputState)
    requires
        consumed_post(pre, post),
    ensures
        keys_wf(post),
{
}

/// Whether `k` occurs in `keys`.
pub(crate) fn contains_key(keys: &Vec<Key>, k: Key) -> (r: bool)
    ensures
        r == keys@.contains(k),
{
    let mut i: usize = 0;
    while i < keys.len()
        invariant
            0 <= i <= keys@.len(),
            forall|j: int| 0 <= j < i ==> keys@[j] != k,
        decreases keys@.len() - i,
    {
        if keys[i] == k {
            assert(keys@.contains(k));
            return true;
        }
        i += 1;
    }
    false
}

/// Removes the first occurrence of `k` from `keys`, if there is one.
fn remove_first_key(keys: &mut Vec<Key>, k: Key)
    ensures
        final(keys)@ == remove_first(old(keys)@, k),
{
    let mut i: usize = 0;
    while i < keys.len()
        invariant
            0 <= i <= keys@.len(),
            keys@ == old(keys)@,
            forall|j: int| 0 <= j < i ==> keys@[j] != k,
        decreases keys@.len() - i,
    {
        if keys[i] == k {
            keys.remove(i);
            proof {
                lemma_remove_first_at(old(keys)@, k, i as int);
            }
            return ;
        }
        i += 1;
    }
    proof {
        lemma_remove_first_absent(keys@, k);
    }
}

proof fn lemma_remove_first_absent(s: Seq<Key>, k: Key)
    requires
        forall|j: int| 0 <= j < s.len() ==> s[j] != k,
    ensures
        remove_first(s, k) == s,
    decreases s.len(),
{
    if s.len() > 0 {
        lemma_remove_first_absent(s.drop_first(), k);
        assert(seq![s[0]] + s.drop_first() =~= s);
    }
}

proof fn lemma_remove_first_at(s: Seq<Key>, k: Key, i: int)
    requires
        0 <= i < s.len(),
        s[i] == k,
        forall|j: int| 0 <= j < i ==> s[j] != k,
    ensures
        remove_first(s, k) == s.remove(i),
    decreases i,
{
    if i == 0 {
        assert(s.drop_first() =~= s.remove(0));
    } else {
        lemma_remove_first_at(s.drop_first(), k, i - 1);
        assert(seq![s[0]] + s.drop_first().remove(i - 1) =~= s.remove(i));
    }
}

} // verus!

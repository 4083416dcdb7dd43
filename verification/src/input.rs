//! Frame-scoped input bookkeeping: which keys and buttons are down, which
//! changed this frame, and the mapping from keys to high-level actions.
//!
//! Keys and buttons are plain codes; the window layer decodes its own
//! events into calls here and chooses the code values.  Cursor and wheel
//! coordinates are carried as bit patterns of single-precision values.

use vstd::prelude::*;

verus! {

/// A high-level action the key map can trigger.
#[derive(Debug, Clone, Copy, PartialEq, Eq, Structural)]
pub enum Action {
    SkipWait,
    Exit,
}

/// One decoded input event, oldest first in the frame's queue.
#[derive(Debug, Clone, Copy)]
pub enum InputEvent {
    KeyPressed(u32),
    KeyReleased(u32),
    MousePressed(u8),
    MouseReleased(u8),
    CursorMoved { x: u32, y: u32 },
    MouseWheel { delta_y: u32 },
}

/// Whether a code occurs in the list.
pub open spec fn has_code<T>(s: Seq<T>, code: T) -> bool {
    exists|i: int| 0 <= i < s.len() && s[i] == code
}

fn contains_u32(s: &Vec<u32>, code: u32) -> (r: bool)
    ensures
        r == has_code(s@, code),
{
    let n = s.len();
    let mut i: usize = 0;
    while i < n
        invariant
            n == s@.len(),
            0 <= i <= n,
            forall|j: int| 0 <= j < i ==> s@[j] != code,
        decreases n - i,
    {
        if s[i] == code {
            return true;
        }
        i += 1;
    }
    false
}

fn contains_u8(s: &Vec<u8>, code: u8) -> (r: bool)
    ensures
        r == has_code(s@, code),
{
    let n = s.len();
    let mut i: usize = 0;
    while i < n
        invariant
            n == s@.len(),
            0 <= i <= n,
            forall|j: int| 0 <= j < i ==> s@[j] != code,
        decreases n - i,
    {
        if s[i] == code {
            return true;
        }
        i += 1;
    }
    false
}

/// Whether any key in the list was pressed this frame.
fn any_just_pressed(keys: &Vec<u32>, input: &InputState) -> (r: bool)
    ensures
        r == exists|i: int|
            0 <= i < keys@.len() && has_code(input.just_pressed_keys@, #[trigger] keys@[i]),
{
    let n = keys.len();
    let mut i: usize = 0;
    while i < n
        invariant
            n == keys@.len(),
            0 <= i <= n,
            forall|j: int| 0 <= j < i ==> !has_code(input.just_pressed_keys@, #[trigger] keys@[j]),
        decreases n - i,
    {
        if input.was_key_just_pressed(keys[i]) {
            return true;
        }
        i += 1;
    }
    false
}

/// Keys that trigger each action.
#[derive(Debug)]
pub struct ActionMap {
    pub skip_wait_keys: Vec<u32>,
    pub exit_keys: Vec<u32>,
}

impl ActionMap {
    /// A map with the given key lists.
    pub fn new(skip_wait_keys: Vec<u32>, exit_keys: Vec<u32>) -> (r: Self)
        ensures
            r.skip_wait_keys == skip_wait_keys,
            r.exit_keys == exit_keys,
    {
        Self { skip_wait_keys, exit_keys }
    }

    /// Whether a key bound to this action was pressed this frame.
    pub fn just_pressed(&self, action: Action, input: &InputState) -> (r: bool)
        ensures
            action is SkipWait ==> r == exists|i: int|
                0 <= i < self.skip_wait_keys@.len() && has_code(
                    input.just_pressed_keys@,
                    #[trigger] self.skip_wait_keys@[i],
                ),
            action is Exit ==> r == exists|i: int|
                0 <= i < self.exit_keys@.len() && has_code(
                    input.just_pressed_keys@,
                    #[trigger] self.exit_keys@[i],
                ),
    {
        match action {
            Action::SkipWait => any_just_pressed(&self.skip_wait_keys, input),
            Action::Exit => any_just_pressed(&self.exit_keys, input),
        }
    }
}

impl Default for ActionMap {
    /// An empty map: no key triggers anything until the caller binds its
    /// own codes.
    fn default() -> (r: Self)
        ensures
            r.skip_wait_keys@.len() == 0,
            r.exit_keys@.len() == 0,
    {
        Self { skip_wait_keys: Vec::new(), exit_keys: Vec::new() }
    }
}

/// Pressed and freshly-changed keys and buttons for the current frame.
#[derive(Debug)]
pub struct InputState {
    pub pressed_keys: Vec<u32>,
    pub just_pressed_keys: Vec<u32>,
    pub just_released_keys: Vec<u32>,
    pub pressed_mouse_buttons: Vec<u8>,
    pub just_pressed_mouse_buttons: Vec<u8>,
    pub just_released_mouse_buttons: Vec<u8>,
    pub events: Vec<InputEvent>,
    /// Last cursor position, as coordinate bit patterns.
    pub cursor: Option<[u32; 2]>,
}

impl InputState {
    pub fn new() -> (r: Self)
        ensures
            r.pressed_keys@.len() == 0,
            r.just_pressed_keys@.len() == 0,
            r.just_released_keys@.len() == 0,
            r.pressed_mouse_buttons@.len() == 0,
            r.just_pressed_mouse_buttons@.len() == 0,
            r.just_released_mouse_buttons@.len() == 0,
            r.events@.len() == 0,
            r.cursor is None,
    {
        Self {
            pressed_keys: Vec::new(),
            just_pressed_keys: Vec::new(),
            just_released_keys: Vec::new(),
            pressed_mouse_buttons: Vec::new(),
            just_pressed_mouse_buttons: Vec::new(),
            just_released_mouse_buttons: Vec::new(),
            events: Vec::new(),
            cursor: None,
        }
    }

    /// Record a key-down event; a repeat of a held key is ignored.
    /// Returns whether anything changed.
    pub fn on_key_pressed(&mut self, code: u32) -> (r: bool)
        ensures
            r == !has_code(old(self).pressed_keys@, code),
            r ==> final(self).pressed_keys@ == old(self).pressed_keys@.push(code)
                && final(self).just_pressed_keys@ == old(self).just_pressed_keys@.push(code)
                && final(self).events@ == old(self).events@.push(InputEvent::KeyPressed(code)),
            !r ==> *final(self) == *old(self),
            final(self).just_released_keys == old(self).just_released_keys,
            final(self).pressed_mouse_buttons == old(self).pressed_mouse_buttons,
            final(self).cursor == old(self).cursor,
    {
        if contains_u32(&self.pressed_keys, code) {
            return false;
        }
        self.pressed_keys.push(code);
        self.just_pressed_keys.push(code);
        self.events.push(InputEvent::KeyPressed(code));
        true
    }

    /// Record a key-up event: the key leaves the pressed set, every other
    /// held key stays.
    pub fn on_key_released(&mut self, code: u32)
        ensures
            final(self).pressed_keys@ == old(self).pressed_keys@.filter(|k: u32| k != code),
            !has_code(final(self).pressed_keys@, code),
            final(self).just_released_keys@ == old(self).just_released_keys@.push(code),
            final(self).events@ == old(self).events@.push(InputEvent::KeyReleased(code)),
            final(self).just_pressed_keys == old(self).just_pressed_keys,
            final(self).cursor == old(self).cursor,
    {
        let mut kept: Vec<u32> = Vec::new();
        let n = self.pressed_keys.len();
        let mut i: usize = 0;
        while i < n
            invariant
                n == self.pressed_keys@.len(),
                0 <= i <= n,
                kept@ == self.pressed_keys@.take(i as int).filter(|k: u32| k != code),
            decreases n - i,
        {
            let k = self.pressed_keys[i];
            proof {
                reveal(Seq::filter);
                assert(self.pressed_keys@.take(i + 1int).drop_last() =~= self.pressed_keys@.take(
                    i as int,
                ));
                assert(self.pressed_keys@.take(i + 1int).last() == self.pressed_keys@[i as int]);
            }
            if k != code {
                kept.push(k);
            }
            i += 1;
        }
        proof {
            reveal(Seq::filter);
            assert(self.pressed_keys@.take(n as int) =~= self.pressed_keys@);
        }
        self.pressed_keys = kept;
        proof {
            assert forall|j: int| 0 <= j < self.pressed_keys@.len() implies self.pressed_keys@[j]
                != code by {
                old(self).pressed_keys@.lemma_filter_pred(|k: u32| k != code, j);
            }
        }
        self.just_released_keys.push(code);
        self.events.push(InputEvent::KeyReleased(code));
    }

    /// Record a button-down event; a repeat of a held button is ignored.
    pub fn on_mouse_pressed(&mut self, button: u8) -> (r: bool)
        ensures
            r == !has_code(old(self).pressed_mouse_buttons@, button),
            r ==> final(self).pressed_mouse_buttons@ == old(self).pressed_mouse_buttons@.push(
                button,
            ) && final(self).just_pressed_mouse_buttons@ == old(self).just_pressed_mouse_buttons@
                .push(button) && final(self).events@ == old(self).events@.push(
                InputEvent::MousePressed(button),
            ),
            !r ==> *final(self) == *old(self),
    {
        if contains_u8(&self.pressed_mouse_buttons, button) {
            return false;
        }
        self.pressed_mouse_buttons.push(button);
        self.just_pressed_mouse_buttons.push(button);
        self.events.push(InputEvent::MousePressed(button));
        true
    }

    /// Record a button-up event: the button leaves the pressed set, every
    /// other held button stays.
    pub fn on_mouse_released(&mut self, button: u8)
        ensures
            final(self).pressed_mouse_buttons@ == old(self).pressed_mouse_buttons@.filter(
                |b: u8| b != button,
            ),
            !has_code(final(self).pressed_mouse_buttons@, button),
            final(self).just_released_mouse_buttons@ == old(self).just_released_mouse_buttons@
                .push(button),
            final(self).events@ == old(self).events@.push(InputEvent::MouseReleased(button)),
    {
        let mut kept: Vec<u8> = Vec::new();
        let n = self.pressed_mouse_buttons.len();
        let mut i: usize = 0;
        while i < n
            invariant
                n == self.pressed_mouse_buttons@.len(),
                0 <= i <= n,
                kept@ == self.pressed_mouse_buttons@.take(i as int).filter(|b: u8| b != button),
            decreases n - i,
        {
            let b = self.pressed_mouse_buttons[i];
            proof {
                reveal(Seq::filter);
                assert(self.pressed_mouse_buttons@.take(i + 1int).drop_last()
                    =~= self.pressed_mouse_buttons@.take(i as int));
                assert(self.pressed_mouse_buttons@.take(i + 1int).last()
                    == self.pressed_mouse_buttons@[i as int]);
            }
            if b != button {
                kept.push(b);
            }
            i += 1;
        }
        proof {
            reveal(Seq::filter);
            assert(self.pressed_mouse_buttons@.take(n as int) =~= self.pressed_mouse_buttons@);
        }
        self.pressed_mouse_buttons = kept;
        proof {
            assert forall|j: int|
                0 <= j < self.pressed_mouse_buttons@.len() implies self.pressed_mouse_buttons@[j]
                != button by {
                old(self).pressed_mouse_buttons@.lemma_filter_pred(|b: u8| b != button, j);
            }
        }
        self.just_released_mouse_buttons.push(button);
        self.events.push(InputEvent::MouseReleased(button));
    }

    /// Record a cursor move, coordinates as bit patterns.
    pub fn on_cursor_moved(&mut self, x: u32, y: u32)
        ensures
            final(self).cursor == Some([x, y]),
            final(self).events@ == old(self).events@.push(InputEvent::CursorMoved { x, y }),
    {
        self.cursor = Some([x, y]);
        self.events.push(InputEvent::CursorMoved { x, y });
    }

    /// Record a wheel move, the delta as a bit pattern.
    pub fn on_mouse_wheel(&mut self, delta_y: u32)
        ensures
            final(self).events@ == old(self).events@.push(InputEvent::MouseWheel { delta_y }),
            final(self).cursor == old(self).cursor,
    {
        self.events.push(InputEvent::MouseWheel { delta_y });
    }

    pub fn is_key_down(&self, code: u32) -> (r: bool)
        ensures
            r == has_code(self.pressed_keys@, code),
    {
        contains_u32(&self.pressed_keys, code)
    }

    pub fn was_key_just_pressed(&self, code: u32) -> (r: bool)
        ensures
            r == has_code(self.just_pressed_keys@, code),
    {
        contains_u32(&self.just_pressed_keys, code)
    }

    pub fn was_key_just_released(&self, code: u32) -> (r: bool)
        ensures
            r == has_code(self.just_released_keys@, code),
    {
        contains_u32(&self.just_released_keys, code)
    }

    /// Last cursor position, as coordinate bit patterns.
    pub fn cursor_position(&self) -> (r: Option<[u32; 2]>)
        ensures
            r == self.cursor,
    {
        self.cursor
    }

    /// The events decoded this frame, oldest first.
    pub fn events(&self) -> (r: &Vec<InputEvent>)
        ensures
            r == self.events,
    {
        &self.events
    }

    /// End of frame: the held sets persist, everything frame-scoped clears.
    pub fn end_frame(&mut self)
        ensures
            final(self).pressed_keys == old(self).pressed_keys,
            final(self).pressed_mouse_buttons == old(self).pressed_mouse_buttons,
            final(self).cursor == old(self).cursor,
            final(self).just_pressed_keys@.len() == 0,
            final(self).just_released_keys@.len() == 0,
            final(self).just_pressed_mouse_buttons@.len() == 0,
            final(self).just_released_mouse_buttons@.len() == 0,
            final(self).events@.len() == 0,
    {
        self.just_pressed_keys.clear();
        self.just_released_keys.clear();
        self.just_pressed_mouse_buttons.clear();
        self.just_released_mouse_buttons.clear();
        self.events.clear();
    }
}

} // verus!

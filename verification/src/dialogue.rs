//! Dialogue progressive-reveal state: per-dialogue character counters driven
//! by elapsed time, keyed by the same identity scheme as sprites.
//!
//! The revealed amount is kept in thousandths of a character; the whole
//! characters of it are the revealed prefix.  A reveal tick is reported
//! exactly once per advance in which some floored count increased.

use vstd::prelude::*;
use vstd::string::StrSliceExecFns;

use crate::game_object::{dialogue_key, DialogueBoxObject};

verus! {

/// A command the dialogue presentation hands back to the frame loop.
#[derive(Debug, Clone, Copy, PartialEq, Eq, Structural)]
pub enum UiCommand {
    Idle,
    StartGame,
    SkipWait,
    ExitApp,
}

/// One live dialogue and its reveal progress.
#[derive(Debug, Clone)]
pub struct DialogueEntry {
    /// The last-applied dialogue definition.
    pub object: DialogueBoxObject,
    /// Revealed amount, in thousandths of a character, clamped to the text
    /// length.
    pub shown_milli: u128,
}

/// The revealed amount cap of a dialogue: its character count, in
/// thousandths.
pub open spec fn total_milli(o: DialogueBoxObject) -> int {
    o.text@.len() as int * 1000
}

/// One frame's advance of a reveal counter.
pub open spec fn typing_step(shown: int, total: int, dt: int, rate: int, enabled: bool) -> int {
    if !enabled {
        total
    } else if shown + dt * rate >= total {
        total
    } else {
        shown + dt * rate
    }
}

/// The revealed amount after a whole sequence of frames.
pub open spec fn typing_after(
    shown: int,
    total: int,
    rate: int,
    enabled: bool,
    dts: Seq<int>,
) -> int
    decreases dts.len(),
{
    if dts.len() == 0 {
        shown
    } else {
        typing_after(typing_step(shown, total, dts[0], rate, enabled), total, rate, enabled, dts.drop_first())
    }
}

/// One frame of the reveal never moves backwards and never passes the
/// text length.
pub proof fn lemma_typing_step_bounds(shown: int, total: int, dt: int, rate: int, enabled: bool)
    requires
        0 <= shown <= total,
        dt >= 0,
        rate >= 0,
    ensures
        shown <= typing_step(shown, total, dt, rate, enabled) <= total,
{
    assert(dt * rate >= 0) by (nonlinear_arith)
        requires
            dt >= 0,
            rate >= 0,
    ;
}

/// Driven by any sequence of non-negative frame times, the revealed
/// amount is non-decreasing and never exceeds the text length until a
/// reset intervenes.
pub proof fn lemma_typewriter_monotone(
    shown: int,
    total: int,
    rate: int,
    enabled: bool,
    dts: Seq<int>,
)
    requires
        0 <= shown <= total,
        rate >= 0,
        forall|k: int| 0 <= k < dts.len() ==> dts[k] >= 0,
    ensures
        shown <= typing_after(shown, total, rate, enabled, dts) <= total,
    decreases dts.len(),
{
    if dts.len() > 0 {
        lemma_typing_step_bounds(shown, total, dts[0], rate, enabled);
        let next = typing_step(shown, total, dts[0], rate, enabled);
        assert(forall|k: int| 0 <= k < dts.drop_first().len() ==> dts.drop_first()[k] >= 0);
        lemma_typewriter_monotone(next, total, rate, enabled, dts.drop_first());
    }
}

/// Whether replacing `before` by `after` restarts the reveal: the text
/// changed, or a hidden dialogue became visible again.
pub open spec fn resets_typing(before: DialogueBoxObject, after: DialogueBoxObject) -> bool {
    before.text@ != after.text@ || (before.hidden && !after.hidden)
}

/// Everything one create-or-update of a dialogue does, as a relation
/// between the reveal state before and after: the settings fields are
/// untouched, a held key is updated in place (restarting the reveal when
/// [`resets_typing`] says so), an unseen key is appended at zero.
pub open spec fn dialogue_apply_transition(
    pre: DialogueState,
    post: DialogueState,
    dialogue: DialogueBoxObject,
) -> bool {
    &&& post.typewriter_enabled == pre.typewriter_enabled
    &&& post.chars_per_second == pre.chars_per_second
    &&& post.main_menu_enabled == pre.main_menu_enabled
    &&& (pre.wf() ==> post.wf())
    &&& ((exists|i: int|
        0 <= i < pre.entries@.len() && dialogue_key(#[trigger] pre.entries@[i].object)
            == dialogue_key(dialogue)) ==> {
        let i = choose|i: int|
            0 <= i < pre.entries@.len() && dialogue_key(#[trigger] pre.entries@[i].object)
                == dialogue_key(dialogue);
        post.entries@ == pre.entries@.update(
            i,
            DialogueEntry {
                object: dialogue,
                shown_milli: if resets_typing(pre.entries@[i].object, dialogue) {
                    0
                } else {
                    pre.entries@[i].shown_milli
                },
            },
        )
    })
    &&& ((forall|i: int|
        0 <= i < pre.entries@.len() ==> dialogue_key(#[trigger] pre.entries@[i].object)
            != dialogue_key(dialogue)) ==> post.entries@ == pre.entries@.push(
        DialogueEntry { object: dialogue, shown_milli: 0 },
    ))
}

/// The live set of dialogue boxes with their reveal state.
#[derive(Debug)]
pub struct DialogueState {
    /// Live dialogues in arrival order, identity keys unique.
    pub entries: Vec<DialogueEntry>,
    /// When off, every dialogue is shown fully at once.
    pub typewriter_enabled: bool,
    /// Reveal speed, characters per second.
    pub chars_per_second: u32,
    /// While the main menu is up no dialogue animates.
    pub main_menu_enabled: bool,
}

impl DialogueState {
    pub open spec fn wf(self) -> bool {
        let s = self.entries@;
        &&& forall|i: int, j: int|
            0 <= i < s.len() && 0 <= j < s.len() && i != j ==> dialogue_key(s[i].object)
                != dialogue_key(s[j].object)
        &&& forall|i: int| 0 <= i < s.len() ==> #[trigger] s[i].shown_milli <= total_milli(s[i].object)
    }

    /// An empty reveal state with the reference defaults.
    pub fn new() -> (r: Self)
        ensures
            r.wf(),
            r.entries@.len() == 0,
            r.typewriter_enabled,
            r.chars_per_second == 40,
            r.main_menu_enabled,
    {
        Self {
            entries: Vec::new(),
            typewriter_enabled: true,
            chars_per_second: 40,
            main_menu_enabled: true,
        }
    }

    /// While the menu is up dialogues do not animate; leaving it up closes
    /// nothing here, presentation state lives with the caller.
    pub fn set_main_menu_enabled(&mut self, enabled: bool)
        ensures
            *final(self) == (DialogueState { main_menu_enabled: enabled, ..*old(self) }),
    {
        self.main_menu_enabled = enabled;
    }

    /// The index of the dialogue whose identity key equals `key`, if any.
    fn find_index(&self, key: &String) -> (r: Option<usize>)
        ensures
            match r {
                Some(i) => 0 <= i < self.entries@.len() && dialogue_key(
                    self.entries@[i as int].object,
                ) == key@,
                None => forall|i: int|
                    0 <= i < self.entries@.len() ==> dialogue_key(self.entries@[i].object) != key@,
            },
    {
        let n = self.entries.len();
        let mut i: usize = 0;
        while i < n
            invariant
                n == self.entries@.len(),
                0 <= i <= n,
                forall|j: int| 0 <= j < i ==> dialogue_key(self.entries@[j].object) != key@,
            decreases n - i,
        {
            let ek = self.entries[i].object.scene_key();
            if ek == *key {
                return Some(i);
            }
            i += 1;
        }
        None
    }

    /// Create-or-update by identity key.  An update restarts the reveal
    /// when the text changed or a hidden dialogue became visible again;
    /// a new key starts at zero.
    pub fn apply_dialogue_object(&mut self, dialogue: DialogueBoxObject)
        requires
            old(self).wf(),
        ensures
            final(self).wf(),
            dialogue_apply_transition(*old(self), *final(self), dialogue),
    {
        let key = dialogue.scene_key();
        match self.find_index(&key) {
            Some(i) => {
                proof {
                    assert(exists|k: int|
                        0 <= k < self.entries@.len() && dialogue_key(self.entries@[k].object)
                            == dialogue_key(dialogue));
                    let k = choose|k: int|
                        0 <= k < self.entries@.len() && dialogue_key(self.entries@[k].object)
                            == dialogue_key(dialogue);
                    assert(k == i as int);
                }
                let reset = !(self.entries[i].object.text == dialogue.text) || (self.entries[i].object.hidden
                    && !dialogue.hidden);
                let shown = if reset {
                    0
                } else {
                    self.entries[i].shown_milli
                };
                let ghost pre = *self;
                self.entries[i] = DialogueEntry { object: dialogue, shown_milli: shown };
                proof {
                    let s = pre.entries@;
                    let t = self.entries@;
                    assert(dialogue_key(t[i as int].object) == dialogue_key(s[i as int].object));
                    assert forall|a: int, b: int|
                        0 <= a < t.len() && 0 <= b < t.len() && a != b implies dialogue_key(
                        t[a].object,
                    ) != dialogue_key(t[b].object) by {
                        assert(dialogue_key(s[a].object) != dialogue_key(s[b].object));
                    }
                }
            },
            None => {
                self.entries.push(DialogueEntry { object: dialogue, shown_milli: 0 });
            },
        }
    }

    /// Advance every visible dialogue's reveal by `dt_ms` milliseconds.
    /// Nothing moves while the main menu is up.  Returns whether some
    /// dialogue revealed at least one new whole character, so the caller
    /// can cue at most one tick sound per frame.
    pub fn advance_typing(&mut self, dt_ms: u64) -> (ticked: bool)
        requires
            old(self).wf(),
        ensures
            final(self).wf(),
            final(self).typewriter_enabled == old(self).typewriter_enabled,
            final(self).chars_per_second == old(self).chars_per_second,
            final(self).main_menu_enabled == old(self).main_menu_enabled,
            old(self).main_menu_enabled ==> *final(self) == *old(self) && !ticked,
            !old(self).main_menu_enabled ==> {
                let s = old(self).entries@;
                let t = final(self).entries@;
                &&& t.len() == s.len()
                &&& forall|i: int|
                    0 <= i < s.len() ==> #[trigger] t[i] == (DialogueEntry {
                        object: s[i].object,
                        shown_milli: if s[i].object.hidden {
                            s[i].shown_milli
                        } else {
                            typing_step(
                                s[i].shown_milli as int,
                                total_milli(s[i].object),
                                dt_ms as int,
                                old(self).chars_per_second as int,
                                old(self).typewriter_enabled,
                            ) as u128
                        },
                    })
                &&& ticked == exists|i: int|
                    #![trigger s[i].shown_milli]
                    0 <= i < s.len() && !s[i].object.hidden && typing_step(
                        s[i].shown_milli as int,
                        total_milli(s[i].object),
                        dt_ms as int,
                        old(self).chars_per_second as int,
                        old(self).typewriter_enabled,
                    ) / 1000 > s[i].shown_milli as int / 1000
            },
    {
        if self.main_menu_enabled {
            return false;
        }
        let mut ticked = false;
        let n = self.entries.len();
        let mut i: usize = 0;
        while i < n
            invariant
                !old(self).main_menu_enabled,
                *self == (DialogueState { entries: self.entries, ..*old(self) }),
                n == self.entries@.len(),
                n == old(self).entries@.len(),
                0 <= i <= n,
                old(self).wf(),
                forall|j: int| i <= j < n ==> #[trigger] self.entries@[j] == old(self).entries@[j],
                forall|j: int|
                    0 <= j < i ==> #[trigger] self.entries@[j] == (DialogueEntry {
                        object: old(self).entries@[j].object,
                        shown_milli: if old(self).entries@[j].object.hidden {
                            old(self).entries@[j].shown_milli
                        } else {
                            typing_step(
                                old(self).entries@[j].shown_milli as int,
                                total_milli(old(self).entries@[j].object),
                                dt_ms as int,
                                old(self).chars_per_second as int,
                                old(self).typewriter_enabled,
                            ) as u128
                        },
                    }),
                ticked == exists|j: int|
                    #![trigger old(self).entries@[j].shown_milli]
                    0 <= j < i && !old(self).entries@[j].object.hidden && typing_step(
                        old(self).entries@[j].shown_milli as int,
                        total_milli(old(self).entries@[j].object),
                        dt_ms as int,
                        old(self).chars_per_second as int,
                        old(self).typewriter_enabled,
                    ) / 1000 > old(self).entries@[j].shown_milli as int / 1000,
            decreases n - i,
        {
            let hidden = self.entries[i].object.hidden;
            if !hidden {
                let total_chars = self.entries[i].object.text.as_str().unicode_len();
                let total: u128 = (total_chars as u128) * 1000;
                let shown = self.entries[i].shown_milli;
                proof {
                    assert(shown <= total) by {
                        assert(self.entries@[i as int] == old(self).entries@[i as int]);
                    }
                }
                let new_shown: u128 = if !self.typewriter_enabled {
                    total
                } else {
                    proof {
                        assert((dt_ms as u128) * (self.chars_per_second as u128)
                            <= u128::MAX) by (nonlinear_arith)
                            requires
                                dt_ms <= u64::MAX,
                                self.chars_per_second <= u32::MAX,
                        ;
                    }
                    let inc: u128 = (dt_ms as u128) * (self.chars_per_second as u128);
                    proof {
                        assert(shown + inc <= u128::MAX) by (nonlinear_arith)
                            requires
                                shown <= total,
                                total == (total_chars as u128) * 1000,
                                total_chars <= u64::MAX,
                                inc == (dt_ms as u128) * (self.chars_per_second as u128),
                                dt_ms <= u64::MAX,
                                self.chars_per_second <= u32::MAX,
                        ;
                    }
                    if shown + inc >= total {
                        total
                    } else {
                        shown + inc
                    }
                };
                proof {
                    assert(total as int == total_milli(old(self).entries@[i as int].object));
                    assert(new_shown as int == typing_step(
                        shown as int,
                        total as int,
                        dt_ms as int,
                        self.chars_per_second as int,
                        self.typewriter_enabled,
                    ));
                }
                if new_shown / 1000 > shown / 1000 {
                    ticked = true;
                }
                let obj = self.entries[i].object.clone();
                self.entries[i] = DialogueEntry { object: obj, shown_milli: new_shown };
                proof {
                    let step = typing_step(
                        old(self).entries@[i as int].shown_milli as int,
                        total_milli(old(self).entries@[i as int].object),
                        dt_ms as int,
                        old(self).chars_per_second as int,
                        old(self).typewriter_enabled,
                    );
                    assert(step == new_shown as int);
                    assert((step / 1000 > old(self).entries@[i as int].shown_milli as int / 1000)
                        == (new_shown / 1000 > shown / 1000));
                }
            } else {
                proof {
                    assert(old(self).entries@[i as int].object.hidden);
                    assert(old(self).entries@[i as int].shown_milli == self.entries@[i as int].shown_milli);
                }
            }
            i += 1;
        }
        proof {
            assert forall|a: int, b: int|
                0 <= a < self.entries@.len() && 0 <= b < self.entries@.len() && a
                    != b implies dialogue_key(self.entries@[a].object) != dialogue_key(
                self.entries@[b].object,
            ) by {
                assert(dialogue_key(old(self).entries@[a].object) != dialogue_key(
                    old(self).entries@[b].object,
                ));
            }
        }
        ticked
    }

    /// How many whole characters of the dialogue at `i` are revealed.
    pub fn shown_chars(&self, i: usize) -> (r: usize)
        requires
            self.wf(),
            i < self.entries@.len(),
        ensures
            r == self.entries@[i as int].shown_milli / 1000,
            r <= self.entries@[i as int].object.text@.len(),
    {
        proof {
            assert(self.entries@[i as int].shown_milli <= total_milli(
                self.entries@[i as int].object,
            ));
            assert(self.entries@[i as int].shown_milli / 1000 <= (total_milli(
                self.entries@[i as int].object,
            ) / 1000)) by (nonlinear_arith)
                requires
                    self.entries@[i as int].shown_milli <= total_milli(
                        self.entries@[i as int].object,
                    ),
            ;
            assert(total_milli(self.entries@[i as int].object) / 1000
                == self.entries@[i as int].object.text@.len()) by (nonlinear_arith);
        }
        let total_chars = self.entries[i].object.text.as_str().unicode_len();
        let sc = self.entries[i].shown_milli / 1000;
        sc as usize
    }

    /// The revealed prefix of the dialogue text at `i`.  The caller appends
    /// its own continuation marker while the text is not fully revealed.
    pub fn revealed_text(&self, i: usize) -> (r: String)
        requires
            self.wf(),
            i < self.entries@.len(),
        ensures
            r@ == self.entries@[i as int].object.text@.subrange(
                0,
                self.entries@[i as int].shown_milli as int / 1000,
            ),
    {
        let sc = self.shown_chars(i);
        self.entries[i].object.text.as_str().substring_char(0, sc).to_owned()
    }

    /// Whether the dialogue at `i` is fully revealed.
    pub fn fully_revealed(&self, i: usize) -> (r: bool)
        requires
            self.wf(),
            i < self.entries@.len(),
        ensures
            r == (self.entries@[i as int].shown_milli == total_milli(
                self.entries@[i as int].object,
            )),
    {
        let total_chars = self.entries[i].object.text.as_str().unicode_len();
        let total: u128 = (total_chars as u128) * 1000;
        self.entries[i].shown_milli >= total
    }

    /// Whether some visible dialogue is still revealing text.  Always false
    /// while the main menu is up or the typewriter effect is off.
    pub fn has_active_typewriter_animation(&self) -> (r: bool)
        requires
            self.wf(),
        ensures
            r == (!self.main_menu_enabled && self.typewriter_enabled && exists|i: int|
                0 <= i < self.entries@.len() && !self.entries@[i].object.hidden
                    && #[trigger] self.entries@[i].shown_milli < total_milli(
                    self.entries@[i].object,
                )),
    {
        if self.main_menu_enabled || !self.typewriter_enabled {
            return false;
        }
        let n = self.entries.len();
        let mut i: usize = 0;
        while i < n
            invariant
                self.wf(),
                !self.main_menu_enabled,
                self.typewriter_enabled,
                n == self.entries@.len(),
                0 <= i <= n,
                forall|j: int|
                    0 <= j < i ==> self.entries@[j].object.hidden
                        || #[trigger] self.entries@[j].shown_milli >= total_milli(
                        self.entries@[j].object,
                    ),
            decreases n - i,
        {
            if !self.entries[i].object.hidden {
                let total_chars = self.entries[i].object.text.as_str().unicode_len();
                let total: u128 = (total_chars as u128) * 1000;
                if self.entries[i].shown_milli < total {
                    proof {
                        assert(exists|k: int|
                            0 <= k < self.entries@.len() && !self.entries@[k].object.hidden
                                && #[trigger] self.entries@[k].shown_milli < total_milli(
                                self.entries@[k].object,
                            )) by {
                            assert(!self.entries@[i as int].object.hidden
                                && self.entries@[i as int].shown_milli < total_milli(
                                self.entries@[i as int].object,
                            ));
                        }
                    }
                    return true;
                }
            }
            i += 1;
        }
        false
    }

    /// A wait may be skipped only once no dialogue text is still animating.
    pub fn can_skip_wait(&self) -> (r: bool)
        requires
            self.wf(),
        ensures
            r == !(!self.main_menu_enabled && self.typewriter_enabled && exists|i: int|
                0 <= i < self.entries@.len() && !self.entries@[i].object.hidden
                    && #[trigger] self.entries@[i].shown_milli < total_milli(
                    self.entries@[i].object,
                )),
    {
        !self.has_active_typewriter_animation()
    }
}

} // verus!

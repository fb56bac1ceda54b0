//! The hotkey that always brings input home: LCtrl+LAlt+Backslash unless
//! configured otherwise.

use vstd::prelude::*;

verus! {

pub const USAGE_LCTRL: u8 = 0xe0;

pub const USAGE_LALT: u8 = 0xe2;

pub const USAGE_BACKSLASH: u8 = 0x31;

/// Three keys that together are the hotkey, by their HID usages. Naming a
/// key twice makes a hotkey of fewer keys.
#[derive(Debug, Clone, Copy, PartialEq, Eq, Structural)]
pub struct Combo {
    pub first: u8,
    pub second: u8,
    pub third: u8,
}

impl Default for Combo {
    /// LCtrl+LAlt+Backslash.
    fn default() -> (c: Combo)
        ensures
            c == (Combo { first: USAGE_LCTRL, second: USAGE_LALT, third: USAGE_BACKSLASH }),
    {
        Combo { first: USAGE_LCTRL, second: USAGE_LALT, third: USAGE_BACKSLASH }
    }
}

/// Which keys of the combo are held.
pub struct Emergency {
    pub combo: Combo,
    pub first: bool,
    pub second: bool,
    pub third: bool,
}

impl Emergency {
    /// Nothing held.
    pub open spec fn idle(combo: Combo) -> Emergency {
        Emergency { combo, first: false, second: false, third: false }
    }

    /// Which keys are held after a key event.
    pub open spec fn after(self, usage: u8, pressed: bool) -> Emergency {
        Emergency {
            combo: self.combo,
            first: if usage == self.combo.first {
                pressed
            } else {
                self.first
            },
            second: if usage == self.combo.second {
                pressed
            } else {
                self.second
            },
            third: if usage == self.combo.third {
                pressed
            } else {
                self.third
            },
        }
    }

    /// Whether the whole combo is held.
    pub open spec fn complete(self) -> bool {
        self.first && self.second && self.third
    }

    pub fn new(combo: Combo) -> (e: Emergency)
        ensures
            e == Emergency::idle(combo),
    {
        Emergency { combo, first: false, second: false, third: false }
    }

    /// Track a usage; returns true when the full combo is held.
    pub fn update(&mut self, usage: u8, pressed: bool) -> (full: bool)
        ensures
            *final(self) == old(self).after(usage, pressed),
            full == final(self).complete(),
    {
        if usage == self.combo.first {
            self.first = pressed;
        }
        if usage == self.combo.second {
            self.second = pressed;
        }
        if usage == self.combo.third {
            self.third = pressed;
        }
        self.first && self.second && self.third
    }

    pub fn reset(&mut self)
        ensures
            *final(self) == Emergency::idle(old(self).combo),
    {
        self.first = false;
        self.second = false;
        self.third = false;
    }
}

/// Which keys are held after a list of key events.
pub open spec fn after_all(e: Emergency, keys: Seq<(u8, bool)>) -> Emergency
    decreases keys.len(),
{
    if keys.len() == 0 {
        e
    } else {
        after_all(e, keys.drop_last()).after(keys.last().0, keys.last().1)
    }
}

/// Whether a key is held after a list of key events: its latest event
/// pressed it, or there is none and it was held before.
pub open spec fn held_after(before: bool, key: u8, keys: Seq<(u8, bool)>) -> bool {
    ||| exists|i: int|
        0 <= i < keys.len() && #[trigger] keys[i] == (key, true) && forall|j: int|
            i < j < keys.len() ==> (#[trigger] keys[j]).0 != key
    ||| before && forall|j: int| 0 <= j < keys.len() ==> (#[trigger] keys[j]).0 != key
}

/// Whatever keys go down and up, in whatever order: each key of the combo
/// counts as held exactly as its own latest event says, and the combo is
/// complete exactly while all of its keys are held.
pub proof fn combo_completes_in_any_order(e: Emergency, keys: Seq<(u8, bool)>)
    ensures
        after_all(e, keys).combo == e.combo,
        after_all(e, keys).first == held_after(e.first, e.combo.first, keys),
        after_all(e, keys).second == held_after(e.second, e.combo.second, keys),
        after_all(e, keys).third == held_after(e.third, e.combo.third, keys),
        after_all(e, keys).complete() <==> {
            &&& held_after(e.first, e.combo.first, keys)
            &&& held_after(e.second, e.combo.second, keys)
            &&& held_after(e.third, e.combo.third, keys)
        },
    decreases keys.len(),
{
    if keys.len() > 0 {
        combo_completes_in_any_order(e, keys.drop_last());
        lemma_one_more_event(e.first, e.combo.first, keys);
        lemma_one_more_event(e.second, e.combo.second, keys);
        lemma_one_more_event(e.third, e.combo.third, keys);
    }
}

proof fn lemma_one_more_event(before: bool, key: u8, keys: Seq<(u8, bool)>)
    requires
        keys.len() > 0,
    ensures
        held_after(before, key, keys) == if keys.last().0 == key {
            keys.last().1
        } else {
            held_after(before, key, keys.drop_last())
        },
{
    let n = keys.len() - 1;
    let rest = keys.drop_last();
    assert(keys[n] == keys.last());
    assert forall|j: int| 0 <= j < n implies rest[j] == #[trigger] keys[j] by {}
    if keys.last().0 == key {
        if keys.last().1 {
            assert(keys[n] == (key, true));
        }
    } else if held_after(before, key, rest) {
        if exists|i: int|
            0 <= i < rest.len() && #[trigger] rest[i] == (key, true) && forall|j: int|
                i < j < rest.len() ==> (#[trigger] rest[j]).0 != key {
            let i = choose|i: int|
                0 <= i < rest.len() && #[trigger] rest[i] == (key, true) && forall|j: int|
                    i < j < rest.len() ==> (#[trigger] rest[j]).0 != key;
            assert(keys[i] == (key, true));
            assert forall|j: int| i < j < keys.len() implies (#[trigger] keys[j]).0 != key by {
                if j < n {
                    assert(rest[j].0 != key);
                }
            }
        } else {
            assert forall|j: int| 0 <= j < keys.len() implies (#[trigger] keys[j]).0 != key by {
                if j < n {
                    assert(rest[j].0 != key);
                }
            }
        }
    }
}

} // verus!

//! The input state that the bridge holds toward the USB host, and the
//! reports that carry it.

use vstd::prelude::*;

use crate::le::{i8_to_byte, u16_to_le};

verus! {

/// Where the pointer is taken to be until the first position arrives.
pub const POINTER_CENTER: u16 = 32768;

/// Keyboard, button and pointer state, and whether the last report went
/// through.
pub struct Hid {
    pub modifiers: u8,
    pub keys: [u8; 6],
    pub buttons: u8,
    pub x: u16,
    pub y: u16,
    pub hid_ok: bool,
}

/// The same, with the key slots as a sequence.
#[verifier::ext_equal]
pub struct HidView {
    pub modifiers: u8,
    pub keys: Seq<u8>,
    pub buttons: u8,
    pub x: u16,
    pub y: u16,
    pub hid_ok: bool,
}

impl View for Hid {
    type V = HidView;

    open spec fn view(&self) -> HidView {
        HidView {
            modifiers: self.modifiers,
            keys: self.keys@,
            buttons: self.buttons,
            x: self.x,
            y: self.y,
            hid_ok: self.hid_ok,
        }
    }
}

/// Six empty key slots.
pub open spec fn no_keys() -> Seq<u8> {
    seq![0u8, 0u8, 0u8, 0u8, 0u8, 0u8]
}

/// Whether a usage is one of the eight modifiers.
pub open spec fn is_modifier(usage: u8) -> bool {
    0xe0 <= usage <= 0xe7
}

/// The bit of a modifier in a keyboard report.
pub open spec fn modifier_bit(usage: u8) -> u8 {
    1u8 << ((usage - 0xe0) as u8)
}

/// What pressing or releasing a key did.
pub enum KeyOutcome {
    /// The state changed, or may have: this report carries it.
    Report([u8; 8]),
    /// The key was held already.
    AlreadyHeld,
    /// All six slots are taken (the boot keyboard limit).
    Dropped,
}

/// What the last write says against the one before.
#[derive(Debug, Clone, Copy, PartialEq, Eq, Structural)]
pub enum WriteNote {
    Same,
    /// Reports go through again.
    Recovered,
    /// Reports have stopped going through.
    Failing,
}

/// What a write says against the one before.
pub open spec fn write_note(before: bool, ok: bool) -> WriteNote {
    if before == ok {
        WriteNote::Same
    } else if ok {
        WriteNote::Recovered
    } else {
        WriteNote::Failing
    }
}

impl HidView {
    pub open spec fn initial() -> HidView {
        HidView {
            modifiers: 0,
            keys: no_keys(),
            buttons: 0,
            x: POINTER_CENTER,
            y: POINTER_CENTER,
            hid_ok: true,
        }
    }

    /// The boot keyboard report: modifiers, a reserved byte, six usages.
    pub open spec fn kbd_report(self) -> Seq<u8> {
        seq![self.modifiers, 0u8] + self.keys
    }

    /// The pointer report: buttons, position, wheel steps. Canonical
    /// coordinates (0..65535) are halved to the descriptor's 0..32767.
    pub open spec fn ptr_report(self, wheel: i8) -> Seq<u8> {
        seq![self.buttons] + crate::le::u16_le(self.x / 2) + crate::le::u16_le(self.y / 2)
            + seq![crate::le::i8_byte(wheel)]
    }

    /// No key, modifier or button held.
    pub open spec fn is_released(self) -> bool {
        self.modifiers == 0 && self.buttons == 0 && self.keys == no_keys()
    }

    pub open spec fn released(self) -> HidView {
        HidView { modifiers: 0, keys: no_keys(), buttons: 0, ..self }
    }

    /// Press a key: a modifier sets its bit; another key takes the first
    /// empty slot, unless it is held already or no slot is left.
    pub open spec fn pressed(self, usage: u8) -> HidView {
        if is_modifier(usage) {
            HidView { modifiers: self.modifiers | modifier_bit(usage), ..self }
        } else if self.keys.contains(usage) {
            self
        } else {
            match self.keys.index_of_first(0u8) {
                Some(slot) => HidView { keys: self.keys.update(slot, usage), ..self },
                None => self,
            }
        }
    }

    /// Release a key: a modifier clears its bit; another key leaves every
    /// slot that it is in.
    pub open spec fn unpressed(self, usage: u8) -> HidView {
        if is_modifier(usage) {
            HidView { modifiers: self.modifiers & !modifier_bit(usage), ..self }
        } else {
            HidView {
                keys: self.keys.map_values(
                    |k: u8|
                        if k == usage {
                            0u8
                        } else {
                            k
                        },
                ),
                ..self
            }
        }
    }

    pub open spec fn after_key(self, usage: u8, down: bool) -> HidView {
        if down {
            self.pressed(usage)
        } else {
            self.unpressed(usage)
        }
    }

    /// Whether a press is ignored because the key is held.
    pub open spec fn already_held(self, usage: u8, down: bool) -> bool {
        down && !is_modifier(usage) && self.keys.contains(usage)
    }

    /// Whether a press is dropped because all slots are taken.
    pub open spec fn overflows(self, usage: u8, down: bool) -> bool {
        down && !is_modifier(usage) && !self.keys.contains(usage) && !self.keys.contains(0u8)
    }

    /// How many slots are taken.
    pub open spec fn held_keys(self) -> nat {
        self.keys.filter(|k: u8| k != 0).len()
    }
}

proof fn lemma_first_zero(keys: Seq<u8>, i: int)
    requires
        0 <= i < keys.len(),
        keys[i] == 0,
        forall|j: int| 0 <= j < i ==> keys[j] != 0,
    ensures
        keys.index_of_first(0u8) == Some(i),
{
    keys.index_of_first_ensures(0u8);
    assert(keys.contains(keys[i]));
    let found = keys.index_of_first(0u8)->0;
    if found < i {
        assert(keys[found] != 0);
    }
}

impl Hid {
    pub fn new() -> (h: Hid)
        ensures
            h@ == HidView::initial(),
    {
        let h = Hid {
            modifiers: 0,
            keys: [0, 0, 0, 0, 0, 0],
            buttons: 0,
            x: POINTER_CENTER,
            y: POINTER_CENTER,
            hid_ok: true,
        };
        assert(h@ =~= HidView::initial());
        h
    }

    /// Record how writing the last report went, and whether that is news.
    pub fn note_write(&mut self, ok: bool) -> (n: WriteNote)
        ensures
            final(self)@ == (HidView { hid_ok: ok, ..old(self)@ }),
            n == write_note(old(self)@.hid_ok, ok),
    {
        let before = self.hid_ok;
        self.hid_ok = ok;
        if before == ok {
            WriteNote::Same
        } else if ok {
            WriteNote::Recovered
        } else {
            WriteNote::Failing
        }
    }

    pub fn kbd_report(&self) -> (r: [u8; 8])
        ensures
            r@ == self@.kbd_report(),
    {
        let k = self.keys;
        let r = [self.modifiers, 0, k[0], k[1], k[2], k[3], k[4], k[5]];
        assert(r@ =~= self@.kbd_report());
        r
    }

    pub fn ptr_report(&self, wheel: i8) -> (r: [u8; 6])
        ensures
            r@ == self@.ptr_report(wheel),
    {
        let x = u16_to_le(self.x / 2);
        let y = u16_to_le(self.y / 2);
        let r = [self.buttons, x[0], x[1], y[0], y[1], i8_to_byte(wheel)];
        assert(r@ =~= self@.ptr_report(wheel));
        r
    }

    pub fn key_event(&mut self, usage: u8, down: bool) -> (r: KeyOutcome)
        ensures
            final(self)@ == old(self)@.after_key(usage, down),
            match r {
                KeyOutcome::Report(report) => !old(self)@.already_held(usage, down)
                    && !old(self)@.overflows(usage, down) && report@ == final(self)@.kbd_report(),
                KeyOutcome::AlreadyHeld => old(self)@.already_held(usage, down),
                KeyOutcome::Dropped => old(self)@.overflows(usage, down),
            },
    {
        if 0xe0 <= usage && usage <= 0xe7 {
            let bit: u8 = 1u8 << (usage - 0xe0);
            if down {
                self.modifiers = self.modifiers | bit;
            } else {
                self.modifiers = self.modifiers & !bit;
            }
        } else if down {
            let mut slot: Option<usize> = None;
            let mut i: usize = 0;
            while i < 6
                invariant
                    i <= 6,
                    down,
                    !is_modifier(usage),
                    *self == *old(self),
                    forall|j: int| 0 <= j < i ==> self.keys@[j] != usage,
                    match slot {
                        Some(s) => s < i && self.keys@[s as int] == 0 && forall|j: int|
                            0 <= j < s ==> self.keys@[j] != 0,
                        None => forall|j: int| 0 <= j < i ==> self.keys@[j] != 0,
                    },
                decreases 6 - i,
            {
                if self.keys[i] == usage {
                    assert(self.keys@.contains(self.keys@[i as int]));
                    return KeyOutcome::AlreadyHeld;
                }
                if self.keys[i] == 0 && slot.is_none() {
                    slot = Some(i);
                }
                i += 1;
            }
            match slot {
                Some(s) => {
                    proof {
                        lemma_first_zero(self.keys@, s as int);
                        assert(self.keys@.contains(self.keys@[s as int]));
                    }
                    self.keys[s] = usage;
                },
                None => {
                    proof {
                        self.keys@.index_of_first_ensures(0u8);
                    }
                    return KeyOutcome::Dropped;
                },
            }
        } else {
            let mut i: usize = 0;
            while i < 6
                invariant
                    i <= 6,
                    self.modifiers == old(self).modifiers,
                    self.buttons == old(self).buttons,
                    self.x == old(self).x,
                    self.y == old(self).y,
                    self.hid_ok == old(self).hid_ok,
                    forall|j: int|
                        0 <= j < i ==> self.keys@[j] == if old(self).keys@[j] == usage {
                            0u8
                        } else {
                            old(self).keys@[j]
                        },
                    forall|j: int| i <= j < 6 ==> self.keys@[j] == old(self).keys@[j],
                decreases 6 - i,
            {
                if self.keys[i] == usage {
                    self.keys[i] = 0;
                }
                i += 1;
            }
            assert(self@.keys =~= old(self)@.unpressed(usage).keys);
        }
        KeyOutcome::Report(self.kbd_report())
    }

    /// Let go of everything. The two reports carry that to the host.
    pub fn release_all(&mut self) -> (r: ([u8; 8], [u8; 6]))
        ensures
            final(self)@ == old(self)@.released(),
            r.0@ == final(self)@.kbd_report(),
            r.1@ == final(self)@.ptr_report(0),
    {
        self.modifiers = 0;
        self.keys = [0, 0, 0, 0, 0, 0];
        self.buttons = 0;
        assert(self@.keys =~= no_keys());
        (self.kbd_report(), self.ptr_report(0))
    }

    pub fn held_key_count(&self) -> (n: u8)
        ensures
            n == self@.held_keys(),
    {
        let mut n: u8 = 0;
        let mut i: usize = 0;
        let ghost held = |k: u8| k != 0;
        while i < 6
            invariant
                i <= 6,
                n <= i,
                n == self.keys@.take(i as int).filter(held).len(),
                held == (|k: u8| k != 0),
            decreases 6 - i,
        {
            proof {
                reveal(Seq::filter);
                assert(self.keys@.take(i + 1).drop_last() =~= self.keys@.take(i as int));
            }
            if self.keys[i] != 0 {
                n += 1;
            }
            i += 1;
        }
        assert(self.keys@.take(6) =~= self.keys@);
        n
    }

    /// Whether any key, modifier or button is held.
    pub fn holds_input(&self) -> (b: bool)
        ensures
            b == !self@.is_released(),
    {
        let k = self.keys;
        let b = self.modifiers != 0 || self.buttons != 0 || k[0] != 0 || k[1] != 0 || k[2] != 0
            || k[3] != 0 || k[4] != 0 || k[5] != 0;
        assert(!b ==> self@.keys =~= no_keys());
        b
    }
}

/// Pressing or releasing a modifier changes its own bit and nothing else.
pub proof fn modifier_touches_only_its_bit(h: HidView, usage: u8, other: u8, down: bool)
    requires
        is_modifier(usage),
        is_modifier(other),
    ensures
        h.after_key(usage, down) == (HidView {
            modifiers: h.after_key(usage, down).modifiers,
            ..h
        }),
        (h.after_key(usage, down).modifiers & modifier_bit(usage) != 0) == down,
        other != usage ==> h.after_key(usage, down).modifiers & modifier_bit(other) == h.modifiers
            & modifier_bit(other),
{
    let m = h.modifiers;
    let a = (usage - 0xe0) as u8;
    let b = (other - 0xe0) as u8;
    assert((m | (1u8 << a)) & (1u8 << a) != 0) by (bit_vector)
        requires
            a < 8,
    ;
    assert((m & !(1u8 << a)) & (1u8 << a) == 0) by (bit_vector)
        requires
            a < 8,
    ;
    if a != b {
        assert((m | (1u8 << a)) & (1u8 << b) == m & (1u8 << b)) by (bit_vector)
            requires
                a < 8,
                b < 8,
                a != b,
        ;
        assert((m & !(1u8 << a)) & (1u8 << b) == m & (1u8 << b)) by (bit_vector)
            requires
                a < 8,
                b < 8,
                a != b,
        ;
    }
}

/// After a press the key is held, unless all slots were taken by others, in
/// which case nothing changes; after a release it is not held. No other key
/// comes or goes either way.
pub proof fn key_is_held_until_released(h: HidView, usage: u8, other: u8)
    requires
        h.keys.len() == 6,
        usage != 0,
        !is_modifier(usage),
        other != usage,
        other != 0,
    ensures
        !h.overflows(usage, true) ==> h.pressed(usage).keys.contains(usage),
        h.overflows(usage, true) ==> h.pressed(usage) == h,
        !h.unpressed(usage).keys.contains(usage),
        h.pressed(usage).keys.contains(other) == h.keys.contains(other),
        h.unpressed(usage).keys.contains(other) == h.keys.contains(other),
{
    h.keys.index_of_first_ensures(0u8);
    let up = h.unpressed(usage).keys;
    assert forall|i: int| 0 <= i < 6 implies up[i] != usage && ((up[i] == other) == (h.keys[i]
        == other)) by {}
    if h.keys.contains(other) {
        let i = h.keys.index_of(other);
        assert(up[i] == other);
        if !h.keys.contains(usage) && h.keys.contains(0u8) {
            assert(h.pressed(usage).keys[i] == other);
        }
    }
    if up.contains(other) {
        let i = up.index_of(other);
        assert(h.keys[i] == other);
    }
    if !h.keys.contains(usage) && h.keys.contains(0u8) {
        let s = h.keys.index_of_first(0u8)->0;
        let p = h.pressed(usage).keys;
        assert(p[s] == usage);
        if p.contains(other) {
            let i = p.index_of(other);
            assert(h.keys[i] == other);
        }
    }
}

} // verus!

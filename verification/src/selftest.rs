//! A scripted exercise of the bridge: a pointer diamond, an optional click,
//! and a line of text.

use vstd::prelude::*;

use crate::protocol::{Message, Status};

verus! {

/// A message of the script, and how long to wait after it (ms).
pub struct Beat {
    pub message: Message,
    pub pause: u64,
}

/// Where the pointer goes: out from the center to the four corners of a
/// diamond, and back.
pub open spec fn diamond() -> Seq<(u16, u16)> {
    seq![
        (32768u16, 32768u16),
        (16384u16, 32768u16),
        (32768u16, 16384u16),
        (49152u16, 32768u16),
        (32768u16, 49152u16),
        (32768u16, 32768u16),
    ]
}

/// The keys of "router ok" and Enter.
pub open spec fn typed() -> Seq<u8> {
    seq![0x15u8, 0x12, 0x18, 0x17, 0x08, 0x15, 0x2c, 0x12, 0x0e, 0x28]
}

/// The whole script.
pub open spec fn script_of(click: bool) -> Seq<Beat> {
    let moves = diamond().map_values(
        |p: (u16, u16)| Beat { message: Message::PointerAbs(p.0, p.1), pause: 200 },
    );
    let clicks = if click {
        seq![
            Beat { message: Message::PointerButton(0x01), pause: 50 },
            Beat { message: Message::PointerButton(0x00), pause: 0 },
        ]
    } else {
        Seq::empty()
    };
    let keys = Seq::new(
        20,
        |i: int|
            if i % 2 == 0 {
                Beat { message: Message::KeyDown(typed()[i / 2]), pause: 20 }
            } else {
                Beat { message: Message::KeyUp(typed()[i / 2]), pause: 20 }
            },
    );
    moves + clicks + keys + seq![Beat { message: Message::ReleaseAll, pause: 0 }]
}

/// The script, with or without a left click.
pub fn script(click: bool) -> (s: Vec<Beat>)
    ensures
        s@ == script_of(click),
{
    let corners = [
        (32768u16, 32768u16),
        (16384, 32768),
        (32768, 16384),
        (49152, 32768),
        (32768, 49152),
        (32768, 32768),
    ];
    assert(corners@ =~= diamond());
    let usages = [0x15u8, 0x12, 0x18, 0x17, 0x08, 0x15, 0x2c, 0x12, 0x0e, 0x28];
    assert(usages@ =~= typed());
    let mut s: Vec<Beat> = Vec::new();
    let mut i: usize = 0;
    while i < 6
        invariant
            i <= 6,
            corners@ == diamond(),
            s@.len() == i,
            forall|j: int|
                0 <= j < i ==> #[trigger] s@[j] == (Beat {
                    message: Message::PointerAbs(diamond()[j].0, diamond()[j].1),
                    pause: 200,
                }),
        decreases 6 - i,
    {
        let (x, y) = corners[i];
        s.push(Beat { message: Message::PointerAbs(x, y), pause: 200 });
        i += 1;
    }
    if click {
        s.push(Beat { message: Message::PointerButton(0x01), pause: 50 });
        s.push(Beat { message: Message::PointerButton(0x00), pause: 0 });
    }
    let ghost before = s@;
    proof {
        let want = script_of(click);
        assert forall|j: int| 0 <= j < before.len() implies before[j] == want[j] by {
            if j < 6 {
                assert(want[j] == (Beat {
                    message: Message::PointerAbs(diamond()[j].0, diamond()[j].1),
                    pause: 200,
                }));
            }
        }
    }
    let mut k: usize = 0;
    while k < 10
        invariant
            k <= 10,
            usages@ == typed(),
            s@.len() == before.len() + 2 * k,
            forall|j: int| 0 <= j < before.len() ==> s@[j] == before[j],
            forall|j: int|
                before.len() <= j < s@.len() ==> #[trigger] s@[j] == if (j - before.len()) % 2
                    == 0 {
                    Beat { message: Message::KeyDown(typed()[(j - before.len()) / 2]), pause: 20 }
                } else {
                    Beat { message: Message::KeyUp(typed()[(j - before.len()) / 2]), pause: 20 }
                },
        decreases 10 - k,
    {
        s.push(Beat { message: Message::KeyDown(usages[k]), pause: 20 });
        s.push(Beat { message: Message::KeyUp(usages[k]), pause: 20 });
        k += 1;
    }
    s.push(Beat { message: Message::ReleaseAll, pause: 0 });
    proof {
        let want = script_of(click);
        let n = before.len() as int;
        assert(want.len() == n + 21);
        assert forall|j: int| 0 <= j < want.len() implies s@[j] == want[j] by {
            if n <= j < n + 20 {
                let i = j - n;
                assert(want[j] == if i % 2 == 0 {
                    Beat { message: Message::KeyDown(typed()[i / 2]), pause: 20 }
                } else {
                    Beat { message: Message::KeyUp(typed()[i / 2]), pause: 20 }
                });
            }
        }
        assert(s@ =~= want);
    }
    s
}

/// What the status must be after the script: nothing held, and reports going
/// through.
pub fn check_status(s: &Status) -> (r: Result<(), &'static str>)
    ensures
        match r {
            Ok(_) => s.modifiers == 0 && s.held_keys == 0 && s.buttons == 0 && s.hid_ok,
            Err(e) => if s.modifiers != 0 || s.held_keys != 0 || s.buttons != 0 {
                e@ == "state not clean"@
            } else {
                !s.hid_ok && e@ == "bridge reports HID writes failing"@
            },
        },
{
    if s.modifiers != 0 || s.held_keys != 0 || s.buttons != 0 {
        return Err("state not clean");
    }
    if !s.hid_ok {
        return Err("bridge reports HID writes failing");
    }
    Ok(())
}

} // verus!

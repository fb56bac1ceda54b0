//! The Windows file-drop format.

use vstd::prelude::*;

use crate::le::u16_to_le;
use crate::text::chars_of;

verus! {

/// The UTF-16 code units of a character: itself, or a surrogate pair.
pub open spec fn utf16_units(c: char) -> Seq<u16> {
    let n = c as int;
    if n < 0x1_0000 {
        seq![n as u16]
    } else {
        seq![
            (0xd800 + (n - 0x1_0000) / 0x400) as u16,
            (0xdc00 + (n - 0x1_0000) % 0x400) as u16,
        ]
    }
}

/// A list of code units, least significant byte first.
pub open spec fn units_le(units: Seq<u16>) -> Seq<u8>
    decreases units.len(),
{
    if units.len() == 0 {
        Seq::empty()
    } else {
        units_le(units.drop_last()) + crate::le::u16_le(units.last())
    }
}

/// A text in UTF-16, least significant byte first.
pub open spec fn utf16_le(s: Seq<char>) -> Seq<u8>
    decreases s.len(),
{
    if s.len() == 0 {
        Seq::empty()
    } else {
        utf16_le(s.drop_last()) + units_le(utf16_units(s.last()))
    }
}

/// The DROPFILES header: 20 bytes, of which the offset of the path list (20)
/// and the flag for UTF-16 are set.
pub open spec fn drop_header() -> Seq<u8> {
    Seq::new(
        20,
        |i: int|
            if i == 0 {
                20u8
            } else if i == 16 {
                1u8
            } else {
                0u8
            },
    )
}

/// Paths in UTF-16, each with a NUL behind it.
pub open spec fn path_list(paths: Seq<Seq<char>>) -> Seq<u8>
    decreases paths.len(),
{
    if paths.len() == 0 {
        Seq::empty()
    } else {
        path_list(paths.drop_last()) + utf16_le(paths.last()) + crate::le::u16_le(0)
    }
}

/// A file drop: the header, the paths, and a NUL behind them all.
pub open spec fn file_drop(paths: Seq<Seq<char>>) -> Seq<u8> {
    drop_header() + path_list(paths) + crate::le::u16_le(0)
}

fn push_u16(buf: &mut Vec<u8>, x: u16)
    ensures
        final(buf)@ == old(buf)@ + crate::le::u16_le(x),
{
    let b = u16_to_le(x);
    buf.push(b[0]);
    buf.push(b[1]);
    assert(buf@ =~= old(buf)@ + crate::le::u16_le(x));
}

fn push_char(buf: &mut Vec<u8>, c: char)
    ensures
        final(buf)@ == old(buf)@ + units_le(utf16_units(c)),
{
    let n: u32 = c as u32;
    if n < 0x1_0000 {
        push_u16(buf, n as u16);
        proof {
            let u = utf16_units(c);
            assert(u.drop_last() =~= Seq::empty());
            assert(units_le(u.drop_last()) =~= Seq::empty());
            assert(buf@ =~= old(buf)@ + units_le(u));
        }
    } else {
        push_u16(buf, (0xd800 + (n - 0x1_0000) / 0x400) as u16);
        push_u16(buf, (0xdc00 + (n - 0x1_0000) % 0x400) as u16);
        proof {
            let u = utf16_units(c);
            let v = u.drop_last();
            assert(v.drop_last() =~= Seq::empty());
            assert(units_le(v.drop_last()) =~= Seq::empty());
            assert(units_le(v) =~= crate::le::u16_le(u[0]));
            assert(units_le(u) =~= crate::le::u16_le(u[0]) + crate::le::u16_le(u[1]));
            assert(buf@ =~= old(buf)@ + units_le(u));
        }
    }
}

fn push_text(buf: &mut Vec<u8>, s: &str)
    ensures
        final(buf)@ == old(buf)@ + utf16_le(s@),
{
    let v = chars_of(s);
    let mut i: usize = 0;
    assert(buf@ =~= old(buf)@ + utf16_le(v@.take(0)));
    while i < v.len()
        invariant
            i <= v@.len(),
            buf@ == old(buf)@ + utf16_le(v@.take(i as int)),
        decreases v.len() - i,
    {
        let ghost before = buf@;
        push_char(buf, v[i]);
        proof {
            let done = v@.take(i + 1);
            assert(done.drop_last() =~= v@.take(i as int));
            assert(buf@ =~= old(buf)@ + utf16_le(done));
        }
        i += 1;
    }
    assert(v@.take(i as int) =~= v@);
}

/// Build a CF_HDROP payload: a 20-byte DROPFILES header, then the paths
/// as UTF-16, each NUL-terminated, with a final extra NUL.
pub fn build_hdrop(paths: &[String]) -> (buf: Vec<u8>)
    ensures
        buf@ == file_drop(crate::uri::texts(paths@)),
{
    let mut buf: Vec<u8> = vec![
        20,
        0,
        0,
        0,
        0,
        0,
        0,
        0,
        0,
        0,
        0,
        0,
        0,
        0,
        0,
        0,
        1,
        0,
        0,
        0,
    ];
    assert(buf@ =~= drop_header());
    let ghost all = crate::uri::texts(paths@);
    let mut i: usize = 0;
    assert(buf@ =~= drop_header() + path_list(all.take(0)));
    while i < paths.len()
        invariant
            i <= paths@.len(),
            all == crate::uri::texts(paths@),
            buf@ == drop_header() + path_list(all.take(i as int)),
        decreases paths.len() - i,
    {
        let ghost before = buf@;
        push_text(&mut buf, paths[i].as_str());
        push_u16(&mut buf, 0);
        proof {
            let done = all.take(i + 1);
            assert(done.drop_last() =~= all.take(i as int));
            assert(done.last() == paths@[i as int]@);
            assert(buf@ =~= drop_header() + path_list(done));
        }
        i += 1;
    }
    assert(all.take(i as int) =~= all);
    push_u16(&mut buf, 0);
    buf
}

} // verus!

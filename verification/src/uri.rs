//! File URIs and file lists, as desktop clipboards carry them.

use vstd::prelude::*;

use crate::text::{chars_of, lines, push_str, string_of, text_of, trim};

verus! {

/// The value of a hexadecimal digit.
pub open spec fn hex_value(b: u8) -> Option<u8> {
    if 0x30 <= b <= 0x39 {
        Some((b - 0x30) as u8)
    } else if 0x41 <= b <= 0x46 {
        Some((b - 0x41 + 10) as u8)
    } else if 0x61 <= b <= 0x66 {
        Some((b - 0x61 + 10) as u8)
    } else {
        None
    }
}

fn hex_digit(b: u8) -> (r: Option<u8>)
    ensures
        r == hex_value(b),
{
    if 0x30 <= b && b <= 0x39 {
        Some(b - 0x30)
    } else if 0x41 <= b && b <= 0x46 {
        Some(b - 0x41 + 10)
    } else if 0x61 <= b && b <= 0x66 {
        Some(b - 0x61 + 10)
    } else {
        None
    }
}

/// The byte that two characters write in hexadecimal. A plus sign is allowed
/// in front, as in any number.
pub open spec fn hex_pair(a: u8, b: u8) -> Option<u8> {
    match (hex_value(a), hex_value(b)) {
        (Some(hi), Some(lo)) => Some((16 * hi + lo) as u8),
        (None, Some(lo)) => if a == 0x2b {
            Some(lo)
        } else {
            None
        },
        _ => None,
    }
}

fn hex_byte(a: u8, b: u8) -> (r: Option<u8>)
    ensures
        r == hex_pair(a, b),
{
    match (hex_digit(a), hex_digit(b)) {
        (Some(hi), Some(lo)) => Some(16 * hi + lo),
        (None, Some(lo)) => {
            if a == 0x2b {
                Some(lo)
            } else {
                None
            }
        },
        _ => None,
    }
}

/// Bytes with each `%XX` turned into the byte it writes. A percent sign with
/// fewer than two bytes behind it stands for itself; one with something else
/// than a number behind it makes the whole unreadable.
pub open spec fn percent_decoded(b: Seq<u8>) -> Option<Seq<u8>>
    decreases b.len(),
{
    if b.len() == 0 {
        Some(Seq::empty())
    } else if b[0] == 0x25 && b.len() > 2 {
        match (hex_pair(b[1], b[2]), percent_decoded(b.skip(3))) {
            (Some(v), Some(rest)) => Some(seq![v] + rest),
            _ => None,
        }
    } else {
        match percent_decoded(b.skip(1)) {
            Some(rest) => Some(seq![b[0]] + rest),
            None => None,
        }
    }
}

fn percent_decode(b: &[u8]) -> (r: Option<Vec<u8>>)
    ensures
        match r {
            Some(v) => percent_decoded(b@) == Some(v@),
            None => percent_decoded(b@) is None,
        },
{
    let mut out: Vec<u8> = Vec::with_capacity(b.len());
    let mut i: usize = 0;
    assert(b@.skip(0) =~= b@);
    proof {
        if percent_decoded(b@) is Some {
            assert(out@ + percent_decoded(b@)->0 =~= percent_decoded(b@)->0);
        }
    }
    while i < b.len()
        invariant
            i <= b@.len(),
            match percent_decoded(b@.skip(i as int)) {
                Some(rest) => percent_decoded(b@) == Some(out@ + rest),
                None => percent_decoded(b@) is None,
            },
        decreases b.len() - i,
    {
        let ghost here = b@.skip(i as int);
        let ghost before = out@;
        if b[i] == 0x25 && b.len() - i > 2 {
            assert(here.skip(3) =~= b@.skip(i + 3));
            match hex_byte(b[i + 1], b[i + 2]) {
                Some(v) => out.push(v),
                None => {
                    return None;
                },
            }
            i += 3;
        } else {
            assert(here.skip(1) =~= b@.skip(i + 1));
            out.push(b[i]);
            i += 1;
        }
        proof {
            if percent_decoded(b@.skip(i as int)) is Some {
                let rest = percent_decoded(b@.skip(i as int))->0;
                assert(out@ + rest =~= before + percent_decoded(here)->0);
            }
        }
    }
    assert(b@.skip(i as int) =~= Seq::empty());
    assert(out@ + Seq::<u8>::empty() =~= out@);
    Some(out)
}

/// What a file URI begins with.
pub open spec fn scheme() -> Seq<char> {
    seq!['f', 'i', 'l', 'e', ':', '/', '/']
}

/// The path behind a file URI: nothing if it is not one.
pub open spec fn path_of_uri(uri: Seq<char>) -> Option<Seq<char>> {
    let t = crate::text::trimmed(uri);
    if t.len() >= 7 && t.take(7) == scheme() {
        match percent_decoded(vstd::utf8::encode_utf8(t.skip(7))) {
            Some(bytes) => Some(crate::text::read_utf8(bytes)),
            None => None,
        }
    } else {
        None
    }
}

fn has_scheme(t: &[char]) -> (b: bool)
    ensures
        b == (t@.len() >= 7 && t@.take(7) == scheme()),
{
    let b = t.len() >= 7 && t[0] == 'f' && t[1] == 'i' && t[2] == 'l' && t[3] == 'e' && t[4] == ':'
        && t[5] == '/' && t[6] == '/';
    proof {
        if b {
            assert(t@.take(7) =~= scheme());
        } else if t@.len() >= 7 && t@.take(7) == scheme() {
            assert(t@.take(7)[0] == 'f' && t@.take(7)[1] == 'i' && t@.take(7)[2] == 'l'
                && t@.take(7)[3] == 'e' && t@.take(7)[4] == ':' && t@.take(7)[5] == '/'
                && t@.take(7)[6] == '/');
        }
    }
    b
}

/// The path behind a file URI.
pub fn uri_to_path(uri: &str) -> (r: Option<String>)
    ensures
        match r {
            Some(p) => path_of_uri(uri@) == Some(p@),
            None => path_of_uri(uri@) is None,
        },
{
    let t = trim(chars_of(uri).as_slice());
    if !has_scheme(t.as_slice()) {
        return None;
    }
    let tail = vstd::slice::slice_subrange(t.as_slice(), 7, t.len());
    assert(tail@ =~= t@.skip(7));
    let raw = string_of(tail);
    match percent_decode(raw.as_str().as_bytes()) {
        Some(bytes) => Some(text_of(bytes.as_slice())),
        None => None,
    }
}

/// Whether a byte stands for itself in a URI.
pub open spec fn is_plain(b: u8) -> bool {
    ||| 0x30 <= b <= 0x39
    ||| 0x41 <= b <= 0x5a
    ||| 0x61 <= b <= 0x7a
    ||| b == 0x2f
    ||| b == 0x2d
    ||| b == 0x5f
    ||| b == 0x2e
    ||| b == 0x7e
}

fn plain(b: u8) -> (r: bool)
    ensures
        r == is_plain(b),
{
    (0x30 <= b && b <= 0x39) || (0x41 <= b && b <= 0x5a) || (0x61 <= b && b <= 0x7a) || b == 0x2f
        || b == 0x2d || b == 0x5f || b == 0x2e || b == 0x7e
}

/// An upper-case hexadecimal digit.
pub open spec fn hex_char(n: u8) -> char {
    if n < 10 {
        (0x30 + n) as char
    } else {
        (0x41 + (n - 10)) as char
    }
}

fn to_hex(n: u8) -> (c: char)
    requires
        n < 16,
    ensures
        c == hex_char(n),
{
    if n < 10 {
        (0x30 + n) as char
    } else {
        (0x41 + (n - 10)) as char
    }
}

/// How a byte is written in a URI.
pub open spec fn escaped(b: u8) -> Seq<char> {
    if is_plain(b) {
        seq![b as char]
    } else {
        seq!['%', hex_char(b / 16), hex_char(b % 16)]
    }
}

/// How bytes are written in a URI.
pub open spec fn escaped_all(b: Seq<u8>) -> Seq<char>
    decreases b.len(),
{
    if b.len() == 0 {
        Seq::empty()
    } else {
        escaped_all(b.drop_last()) + escaped(b.last())
    }
}

/// The file URI of a path.
pub open spec fn uri_of_path(path: Seq<char>) -> Seq<char> {
    scheme() + escaped_all(vstd::utf8::encode_utf8(path))
}

/// The file URI of a path.
pub fn path_to_uri(path: &str) -> (uri: String)
    ensures
        uri@ == uri_of_path(path@),
{
    let head = ['f', 'i', 'l', 'e', ':', '/', '/'];
    assert(head@ =~= scheme());
    let mut enc = string_of(&head);
    let bytes = path.as_bytes();
    let mut i: usize = 0;
    assert(enc@ =~= scheme() + escaped_all(bytes@.take(0)));
    while i < bytes.len()
        invariant
            i <= bytes@.len(),
            enc@ == scheme() + escaped_all(bytes@.take(i as int)),
        decreases bytes.len() - i,
    {
        let b: u8 = bytes[i];
        let ghost before = enc@;
        if plain(b) {
            enc.push(b as char);
        } else {
            enc.push('%');
            enc.push(to_hex(b / 16));
            enc.push(to_hex(b % 16));
        }
        proof {
            let done = bytes@.take(i + 1);
            assert(done.drop_last() =~= bytes@.take(i as int));
            assert(enc@ =~= before + escaped(b));
            assert(enc@ =~= scheme() + escaped_all(done));
        }
        i += 1;
    }
    assert(bytes@.take(i as int) =~= bytes@);
    enc
}

/// Whether a line of a file list names a file: not empty, not a comment, and
/// not the verb in front of the list.
pub open spec fn names_file(line: Seq<char>) -> bool {
    &&& line.len() > 0
    &&& line[0] != '#'
    &&& line != seq!['c', 'o', 'p', 'y']
    &&& line != seq!['c', 'u', 't']
}

fn is_file_line(line: &[char]) -> (b: bool)
    ensures
        b == names_file(line@),
{
    if line.len() == 0 || line[0] == '#' {
        return false;
    }
    let copy = line.len() == 4 && line[0] == 'c' && line[1] == 'o' && line[2] == 'p' && line[3]
        == 'y';
    let cut = line.len() == 3 && line[0] == 'c' && line[1] == 'u' && line[2] == 't';
    proof {
        if copy {
            assert(line@ =~= seq!['c', 'o', 'p', 'y']);
        }
        if cut {
            assert(line@ =~= seq!['c', 'u', 't']);
        }
    }
    !copy && !cut
}

/// The path that a line of a file list names, if it names one.
pub open spec fn path_of_line(line: Seq<char>) -> Option<Seq<char>> {
    if names_file(line) {
        path_of_uri(line)
    } else {
        None
    }
}

/// The paths that some lines name.
pub open spec fn paths_of_lines(lines: Seq<Seq<char>>) -> Seq<Seq<char>> {
    lines.filter_map(|l: Seq<char>| path_of_line(l))
}

/// The contents of a list of strings.
pub open spec fn texts(v: Seq<String>) -> Seq<Seq<char>> {
    v.map_values(|s: String| s@)
}

/// The paths in the text of a file list.
pub fn paths_of_text(text: &str) -> (r: Vec<String>)
    ensures
        texts(r@) == paths_of_lines(crate::text::lines_of(text@)),
{
    let ls = lines(chars_of(text).as_slice());
    let mut r: Vec<String> = Vec::new();
    let ghost all = crate::text::lines_of(text@);
    let ghost f = |l: Seq<char>| path_of_line(l);
    let mut i: usize = 0;
    assert(texts(r@) =~= paths_of_lines(all.take(0)));
    while i < ls.len()
        invariant
            i <= ls@.len(),
            crate::text::nested(ls@) == all,
            f == (|l: Seq<char>| path_of_line(l)),
            texts(r@) == all.take(i as int).filter_map(f),
        decreases ls.len() - i,
    {
        let ghost before = texts(r@);
        let ghost done = all.take(i + 1);
        assert(done.drop_last() =~= all.take(i as int));
        assert(crate::text::nested(ls@)[i as int] == ls@[i as int]@);
        assert(done.last() == ls@[i as int]@);
        if is_file_line(ls[i].as_slice()) {
            let line = string_of(ls[i].as_slice());
            match uri_to_path(line.as_str()) {
                Some(p) => {
                    r.push(p);
                    assert(texts(r@) =~= before + seq![p@]);
                },
                None => {},
            }
        }
        i += 1;
    }
    assert(all.take(i as int) =~= all);
    r
}

/// Parse an x-special/gnome-copied-files or text/uri-list payload.
pub fn parse_file_list(data: &[u8]) -> (r: Vec<String>)
    ensures
        texts(r@) == paths_of_lines(crate::text::lines_of(crate::text::read_utf8(data@))),
{
    paths_of_text(text_of(data).as_str())
}

/// The file list that puts these paths on a desktop clipboard: the verb, and
/// a URI on a line of its own for each.
pub open spec fn copied_files(paths: Seq<Seq<char>>) -> Seq<char>
    decreases paths.len(),
{
    if paths.len() == 0 {
        seq!['c', 'o', 'p', 'y']
    } else {
        copied_files(paths.drop_last()) + seq!['\n'] + uri_of_path(paths.last())
    }
}

/// The file list that puts these paths on a desktop clipboard
/// (x-special/gnome-copied-files, what Nautilus pastes).
pub fn copied_file_list(paths: &[String]) -> (list: String)
    ensures
        list@ == copied_files(texts(paths@)),
{
    let head = ['c', 'o', 'p', 'y'];
    let mut list = string_of(&head);
    let ghost all = texts(paths@);
    assert(list@ =~= copied_files(all.take(0)));
    let mut i: usize = 0;
    while i < paths.len()
        invariant
            i <= paths@.len(),
            all == texts(paths@),
            list@ == copied_files(all.take(i as int)),
        decreases paths.len() - i,
    {
        let ghost before = list@;
        let uri = path_to_uri(paths[i].as_str());
        list.push('\n');
        push_str(&mut list, uri.as_str());
        proof {
            let done = all.take(i + 1);
            assert(done.drop_last() =~= all.take(i as int));
            assert(list@ =~= before + seq!['\n'] + uri@);
        }
        i += 1;
    }
    assert(all.take(i as int) =~= all);
    list
}

} // verus!

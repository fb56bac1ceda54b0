//! Text as it travels between machines: UTF-8, lines, line endings.

use vstd::prelude::*;

verus! {

/// `String::push`: appends the given character to the end of the string.
pub assume_specification[ String::push ](s: &mut String, c: char)
    ensures
        final(s)@ == old(s)@.push(c),
;

/// What `String::from_utf8_lossy` makes of bytes that are not UTF-8.
pub uninterp spec fn lossy_utf8(bytes: Seq<u8>) -> Seq<char>;

/// The text of received bytes: what they encode, or what can be made of them
/// where they are not UTF-8.
pub open spec fn read_utf8(bytes: Seq<u8>) -> Seq<char> {
    if vstd::utf8::valid_utf8(bytes) {
        vstd::utf8::decode_utf8(bytes)
    } else {
        lossy_utf8(bytes)
    }
}

/// Calls `String::from_utf8_lossy`. Bytes that are UTF-8 come back as the
/// text that they encode. For other bytes the result depends on the bytes
/// alone; where the replacement characters stand in it is left unsaid.
#[verifier::external_body]
pub(crate) fn from_utf8_lossy(bytes: &[u8]) -> (s: String)
    ensures
        s@ == if vstd::utf8::valid_utf8(bytes@) {
            vstd::utf8::decode_utf8(bytes@)
        } else {
            lossy_utf8(bytes@)
        },
{
    String::from_utf8_lossy(bytes).into_owned()
}

/// The text of received bytes.
pub fn text_of(bytes: &[u8]) -> (s: String)
    ensures
        s@ == read_utf8(bytes@),
{
    from_utf8_lossy(bytes)
}

/// The characters of a text.
pub fn chars_of(s: &str) -> (v: Vec<char>)
    ensures
        v@ == s@,
{
    let mut v: Vec<char> = Vec::new();
    for c in it: s.chars()
        invariant
            v@ == it.seq().take(it.index() as int),
            it.seq() == s@,
    {
        v.push(c);
        assert(it.seq().take(it.index() + 1) =~= it.seq().take(it.index() as int).push(c));
    }
    assert(s@.take(s@.len() as int) =~= s@);
    v
}

/// The text of some characters.
pub fn string_of(chars: &[char]) -> (s: String)
    ensures
        s@ == chars@,
{
    let mut s = String::new();
    let mut i: usize = 0;
    while i < chars.len()
        invariant
            i <= chars@.len(),
            s@ == chars@.take(i as int),
        decreases chars.len() - i,
    {
        s.push(chars[i]);
        i += 1;
        assert(chars@.take(i as int) =~= chars@.take(i - 1).push(chars@[i - 1]));
    }
    assert(chars@.take(i as int) =~= chars@);
    s
}

/// Append a string.
pub fn push_str(s: &mut String, tail: &str)
    ensures
        final(s)@ == old(s)@ + tail@,
{
    let v = chars_of(tail);
    let mut i: usize = 0;
    assert(s@ =~= s@ + v@.take(0));
    while i < v.len()
        invariant
            i <= v@.len(),
            s@ == old(s)@ + v@.take(i as int),
        decreases v.len() - i,
    {
        s.push(v[i]);
        i += 1;
        assert(s@ =~= old(s)@ + v@.take(i as int));
    }
    assert(v@.take(i as int) =~= v@);
}

/// Whether two texts are the same.
pub fn same_text(a: &str, b: &str) -> (r: bool)
    ensures
        r == (a@ == b@),
{
    let x = chars_of(a);
    let y = chars_of(b);
    if x.len() != y.len() {
        return false;
    }
    let mut i: usize = 0;
    while i < x.len()
        invariant
            i <= x@.len() == y@.len(),
            x@.take(i as int) =~= y@.take(i as int),
            x@ == a@,
            y@ == b@,
        decreases x.len() - i,
    {
        if x[i] != y[i] {
            return false;
        }
        i += 1;
    }
    assert(x@.take(i as int) =~= x@);
    assert(y@.take(i as int) =~= y@);
    true
}

/// Whether a text ends with another.
pub open spec fn ends(s: Seq<char>, tail: Seq<char>) -> bool {
    s.len() >= tail.len() && s.skip(s.len() - tail.len()) == tail
}

/// Whether a text ends with another.
pub fn ends_with(s: &str, tail: &str) -> (r: bool)
    ensures
        r == ends(s@, tail@),
{
    let x = chars_of(s);
    let y = chars_of(tail);
    if x.len() < y.len() {
        return false;
    }
    let start: usize = x.len() - y.len();
    let ghost z = x@.skip(start as int);
    let mut i: usize = 0;
    while i < y.len()
        invariant
            i <= y@.len(),
            start + y.len() == x.len(),
            z == x@.skip(start as int),
            z.take(i as int) =~= y@.take(i as int),
            x@ == s@,
            y@ == tail@,
        decreases y.len() - i,
    {
        if x[start + i] != y[i] {
            assert(z[i as int] == x@[start + i]);
            return false;
        }
        i += 1;
    }
    assert(z.take(i as int) =~= z);
    assert(y@.take(i as int) =~= y@);
    true
}

/// Unicode white space.
pub open spec fn is_white(c: char) -> bool {
    let n = c as int;
    ||| 0x09 <= n <= 0x0d
    ||| n == 0x20
    ||| n == 0x85
    ||| n == 0xa0
    ||| n == 0x1680
    ||| 0x2000 <= n <= 0x200a
    ||| n == 0x2028
    ||| n == 0x2029
    ||| n == 0x202f
    ||| n == 0x205f
    ||| n == 0x3000
}

fn white(c: char) -> (b: bool)
    ensures
        b == is_white(c),
{
    let n: u32 = c as u32;
    (0x09 <= n && n <= 0x0d) || n == 0x20 || n == 0x85 || n == 0xa0 || n == 0x1680 || (0x2000 <= n
        && n <= 0x200a) || n == 0x2028 || n == 0x2029 || n == 0x202f || n == 0x205f || n == 0x3000
}

/// Text without the white space around it.
pub open spec fn trimmed(s: Seq<char>) -> Seq<char>
    decreases s.len(),
{
    if s.len() == 0 {
        s
    } else if is_white(s[0]) {
        trimmed(s.drop_first())
    } else if is_white(s.last()) {
        trimmed(s.drop_last())
    } else {
        s
    }
}

/// Where text without the white space around it begins and ends.
fn trim_bounds(s: &[char]) -> (r: (usize, usize))
    ensures
        r.0 <= r.1 <= s@.len(),
        s@.subrange(r.0 as int, r.1 as int) == trimmed(s@),
{
    let mut a: usize = 0;
    let mut b: usize = s.len();
    assert(s@.subrange(0, b as int) =~= s@);
    while a < b && white(s[a])
        invariant
            a <= b == s@.len(),
            trimmed(s@.subrange(a as int, b as int)) == trimmed(s@),
        decreases b - a,
    {
        assert(s@.subrange(a as int, b as int).drop_first() =~= s@.subrange(a + 1, b as int));
        a += 1;
    }
    while a < b && white(s[b - 1])
        invariant
            a <= b <= s@.len(),
            a < b ==> !is_white(s@[a as int]),
            trimmed(s@.subrange(a as int, b as int)) == trimmed(s@),
        decreases b - a,
    {
        assert(s@.subrange(a as int, b as int).drop_last() =~= s@.subrange(a as int, b - 1));
        b -= 1;
    }
    (a, b)
}

/// Text without the white space around it.
pub fn trim(s: &[char]) -> (r: Vec<char>)
    ensures
        r@ == trimmed(s@),
{
    let (a, b) = trim_bounds(s);
    vstd::slice::slice_to_vec(vstd::slice::slice_subrange(s, a, b))
}

/// Where a line ends: the first newline.
pub open spec fn line_end(s: Seq<char>) -> Option<int> {
    s.index_of_first('\n')
}

/// A line without a carriage return at its end.
pub open spec fn without_cr(line: Seq<char>) -> Seq<char> {
    if line.len() > 0 && line.last() == '\r' {
        line.drop_last()
    } else {
        line
    }
}

/// The lines of a text. A line ends with LF or CRLF, which are not part of
/// it; the end of the last one is optional.
pub open spec fn lines_of(s: Seq<char>) -> Seq<Seq<char>>
    decreases s.len(),
{
    if s.len() == 0 {
        Seq::empty()
    } else {
        match line_end(s) {
            Some(n) => if 0 <= n < s.len() {
                seq![without_cr(s.take(n))] + lines_of(s.skip(n + 1))
            } else {
                Seq::empty()
            },
            None => seq![s],
        }
    }
}

/// The contents of a list of character lists.
pub open spec fn nested(v: Seq<Vec<char>>) -> Seq<Seq<char>> {
    v.map_values(|l: Vec<char>| l@)
}

proof fn lemma_line_end(s: Seq<char>, n: int)
    requires
        0 <= n < s.len(),
        s[n] == '\n',
        forall|j: int| 0 <= j < n ==> s[j] != '\n',
    ensures
        line_end(s) == Some(n),
{
    s.index_of_first_ensures('\n');
    assert(s.contains(s[n]));
    let found = line_end(s)->0;
    if found < n {
        assert(s[found] != '\n');
    }
}

/// The lines of a text.
pub fn lines(s: &[char]) -> (r: Vec<Vec<char>>)
    ensures
        nested(r@) == lines_of(s@),
{
    let mut r: Vec<Vec<char>> = Vec::new();
    let mut start: usize = 0;
    let mut i: usize = 0;
    assert(s@.skip(0) =~= s@);
    while i < s.len()
        invariant
            start <= i <= s@.len(),
            forall|j: int| start <= j < i ==> s@[j] != '\n',
            nested(r@) + lines_of(s@.skip(start as int)) == lines_of(s@),
        decreases s.len() - i,
    {
        if s[i] == '\n' {
            let end: usize = if i > start && s[i - 1] == '\r' {
                i - 1
            } else {
                i
            };
            let line = vstd::slice::slice_to_vec(vstd::slice::slice_subrange(s, start, end));
            let ghost rest = s@.skip(start as int);
            let ghost before = nested(r@);
            proof {
                let n = i - start;
                assert(rest[n] == '\n');
                assert forall|j: int| 0 <= j < n implies rest[j] != '\n' by {
                    assert(s@[start + j] != '\n');
                }
                lemma_line_end(rest, n);
                assert(rest.take(n) =~= s@.subrange(start as int, i as int));
                assert(line@ =~= without_cr(rest.take(n)));
                assert(rest.skip(n + 1) =~= s@.skip(i + 1));
            }
            r.push(line);
            assert(nested(r@) =~= before.push(line@));
            assert(nested(r@) + lines_of(s@.skip(i + 1)) =~= before + lines_of(rest));
            start = i + 1;
        }
        i += 1;
    }
    let ghost rest = s@.skip(start as int);
    let ghost before = nested(r@);
    if start < s.len() {
        let line = vstd::slice::slice_to_vec(vstd::slice::slice_subrange(s, start, s.len()));
        proof {
            rest.index_of_first_ensures('\n');
            assert forall|j: int| 0 <= j < rest.len() implies rest[j] != '\n' by {
                assert(s@[start + j] != '\n');
            }
            assert(line@ =~= rest);
        }
        r.push(line);
        assert(nested(r@) =~= before.push(line@));
        assert(before.push(line@) =~= before + lines_of(rest));
    } else {
        assert(before + lines_of(rest) =~= before);
    }
    r
}

/// Text with each CRLF turned into LF.
pub open spec fn lf(s: Seq<char>) -> Seq<char>
    decreases s.len(),
{
    if s.len() == 0 {
        s
    } else if s.len() >= 2 && s[0] == '\r' && s[1] == '\n' {
        seq!['\n'] + lf(s.skip(2))
    } else {
        seq![s[0]] + lf(s.skip(1))
    }
}

/// Text with each LF turned into CRLF.
pub open spec fn crlf(s: Seq<char>) -> Seq<char>
    decreases s.len(),
{
    if s.len() == 0 {
        s
    } else if s[0] == '\n' {
        seq!['\r', '\n'] + crlf(s.skip(1))
    } else {
        seq![s[0]] + crlf(s.skip(1))
    }
}

/// Turn each CRLF into LF.
pub fn to_lf(s: &str) -> (r: String)
    ensures
        r@ == lf(s@),
{
    let v = chars_of(s);
    let mut r = String::new();
    let mut i: usize = 0;
    assert(v@.skip(0) =~= v@);
    while i < v.len()
        invariant
            i <= v@.len(),
            r@ + lf(v@.skip(i as int)) == lf(v@),
        decreases v.len() - i,
    {
        let ghost rest = v@.skip(i as int);
        let ghost before = r@;
        if v.len() - i >= 2 && v[i] == '\r' && v[i + 1] == '\n' {
            r.push('\n');
            i += 2;
            assert(rest.skip(2) =~= v@.skip(i as int));
        } else {
            r.push(v[i]);
            i += 1;
            assert(rest.skip(1) =~= v@.skip(i as int));
        }
        assert(r@ + lf(v@.skip(i as int)) =~= before + lf(rest));
    }
    assert(r@ + lf(v@.skip(i as int)) =~= r@);
    r
}

/// Turn each LF into CRLF.
pub fn to_crlf(s: &str) -> (r: String)
    ensures
        r@ == crlf(s@),
{
    let v = chars_of(s);
    let mut r = String::new();
    let mut i: usize = 0;
    assert(v@.skip(0) =~= v@);
    while i < v.len()
        invariant
            i <= v@.len(),
            r@ + crlf(v@.skip(i as int)) == crlf(v@),
        decreases v.len() - i,
    {
        let ghost rest = v@.skip(i as int);
        let ghost before = r@;
        if v[i] == '\n' {
            r.push('\r');
        }
        r.push(v[i]);
        i += 1;
        assert(rest.skip(1) =~= v@.skip(i as int));
        assert(r@ + crlf(v@.skip(i as int)) =~= before + crlf(rest));
    }
    assert(r@ + crlf(v@.skip(i as int)) =~= r@);
    r
}

/// Line endings survive the trip: text given CRLF endings for one machine
/// is the same text once they are taken away again for the other.
pub proof fn line_endings_round_trip(s: Seq<char>)
    ensures
        lf(crlf(s)) == s,
    decreases s.len(),
{
    if s.len() > 0 {
        let rest = s.skip(1);
        line_endings_round_trip(rest);
        let c = crlf(s);
        if s[0] == '\n' {
            assert(c.skip(2) =~= crlf(rest));
            assert(lf(c) =~= s);
        } else {
            assert(c.skip(1) =~= crlf(rest));
            if s[0] == '\r' && rest.len() > 0 {
                assert(c[1] == crlf(rest)[0]);
                assert(crlf(rest)[0] != '\n');
            }
            assert(c[0] == s[0]);
            assert(lf(c) == seq![s[0]] + lf(crlf(rest)));
            assert(lf(c) =~= s);
        }
    }
}

} // verus!

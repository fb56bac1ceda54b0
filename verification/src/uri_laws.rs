//! What file URIs guarantee.

use vstd::prelude::*;

verus! {

/// The bytes of ASCII characters.
spec fn ascii_bytes(s: Seq<char>) -> Seq<u8> {
    s.map_values(|c: char| c as u8)
}

proof fn lemma_escaped_front(b: Seq<u8>)
    requires
        b.len() > 0,
    ensures
        crate::uri::escaped_all(b) == crate::uri::escaped(b[0]) + crate::uri::escaped_all(
            b.skip(1),
        ),
    decreases b.len(),
{
    if b.len() == 1 {
        assert(b.drop_last() =~= Seq::empty());
        assert(b.skip(1) =~= Seq::empty());
        assert(crate::uri::escaped_all(b.drop_last()) =~= Seq::empty());
        assert(crate::uri::escaped_all(b.skip(1)) =~= Seq::empty());
        assert(crate::uri::escaped_all(b) =~= crate::uri::escaped(b[0])
            + crate::uri::escaped_all(b.skip(1)));
    } else {
        lemma_escaped_front(b.drop_last());
        assert(b.drop_last().skip(1) =~= b.skip(1).drop_last());
        assert(crate::uri::escaped_all(b) =~= crate::uri::escaped(b[0])
            + crate::uri::escaped_all(b.skip(1)));
    }
}

/// A visible ASCII character.
spec fn is_visible(c: char) -> bool {
    0x21 <= c as int <= 0x7e
}

proof fn lemma_escaped_byte(v: u8)
    ensures
        forall|i: int|
            0 <= i < crate::uri::escaped(v).len() ==> is_visible(
                #[trigger] crate::uri::escaped(v)[i],
            ),
{
    assert(v / 16 < 16 && v % 16 < 16);
    assert(is_visible('%'));
    assert(is_visible(crate::uri::hex_char(v / 16)));
    assert(is_visible(crate::uri::hex_char(v % 16)));
}

proof fn lemma_escaped_chars(b: Seq<u8>)
    ensures
        forall|i: int|
            0 <= i < crate::uri::escaped_all(b).len() ==> is_visible(
                #[trigger] crate::uri::escaped_all(b)[i],
            ),
    decreases b.len(),
{
    if b.len() > 0 {
        let first = crate::uri::escaped_all(b.drop_last());
        let last = crate::uri::escaped(b.last());
        lemma_escaped_chars(b.drop_last());
        lemma_escaped_byte(b.last());
        assert forall|i: int| 0 <= i < crate::uri::escaped_all(b).len() implies is_visible(
            #[trigger] crate::uri::escaped_all(b)[i],
        ) by {
            if i < first.len() {
                assert(crate::uri::escaped_all(b)[i] == first[i]);
            } else {
                assert(crate::uri::escaped_all(b)[i] == last[i - first.len()]);
            }
        }
    }
}

proof fn lemma_hex_pair(v: u8)
    ensures
        crate::uri::hex_pair(
            crate::uri::hex_char(v / 16) as u8,
            crate::uri::hex_char(v % 16) as u8,
        ) == Some(v),
{
}

proof fn lemma_decode_escaped(b: Seq<u8>)
    ensures
        crate::uri::percent_decoded(ascii_bytes(crate::uri::escaped_all(b))) == Some(b),
    decreases b.len(),
{
    let e = ascii_bytes(crate::uri::escaped_all(b));
    if b.len() == 0 {
        assert(e =~= Seq::empty());
        assert(b =~= Seq::empty());
    } else {
        lemma_escaped_front(b);
        lemma_decode_escaped(b.skip(1));
        let rest = ascii_bytes(crate::uri::escaped_all(b.skip(1)));
        let v = b[0];
        assert(seq![v] + b.skip(1) =~= b);
        if crate::uri::is_plain(v) {
            assert(e[0] == v);
            assert(e.skip(1) =~= rest);
        } else {
            lemma_hex_pair(v);
            assert(e[0] == 0x25);
            assert(e[1] == crate::uri::hex_char(v / 16) as u8);
            assert(e[2] == crate::uri::hex_char(v % 16) as u8);
            assert(e.skip(3) =~= rest);
        }
    }
}

proof fn lemma_ascii_encoding(s: Seq<char>)
    requires
        forall|i: int| 0 <= i < s.len() ==> is_visible(#[trigger] s[i]),
    ensures
        vstd::utf8::encode_utf8(s) == ascii_bytes(s),
{
    assert forall|i: int| 0 <= i < s.len() implies '\0' <= #[trigger] s[i] <= '\u{7f}' by {
        assert(is_visible(s[i]));
    }
    vstd::utf8::is_ascii_chars_encode_utf8(s);
    assert(vstd::utf8::encode_utf8(s) =~= ascii_bytes(s));
}

/// A path survives being written as a URI and read back, whatever
/// characters it holds.
pub proof fn uri_round_trip(path: Seq<char>)
    ensures
        crate::uri::path_of_uri(crate::uri::uri_of_path(path)) == Some(path),
{
    let bytes = vstd::utf8::encode_utf8(path);
    let u = crate::uri::uri_of_path(path);
    let tail = crate::uri::escaped_all(bytes);
    lemma_escaped_chars(bytes);
    if tail.len() > 0 {
        assert(u.last() == tail[tail.len() - 1]);
    }
    assert(crate::text::trimmed(u) == u);
    assert(u.take(7) =~= crate::uri::scheme());
    assert(u.skip(7) =~= tail);
    lemma_ascii_encoding(tail);
    lemma_decode_escaped(bytes);
    vstd::utf8::encode_utf8_valid_utf8(path);
    vstd::utf8::encode_utf8_decode_utf8(path);
}

/// A line break and one more line behind a text is one more line.
pub proof fn one_more_line(p: Seq<char>, l: Seq<char>)
    requires
        p.len() > 0,
        p.last() != '\n',
        p.last() != '\r',
        l.len() > 0,
        forall|i: int| 0 <= i < l.len() ==> l[i] != '\n',
    ensures
        crate::text::lines_of(p + seq!['\n'] + l) == crate::text::lines_of(p).push(l),
    decreases p.len(),
{
    let s = p + seq!['\n'] + l;
    p.index_of_first_ensures('\n');
    s.index_of_first_ensures('\n');
    l.index_of_first_ensures('\n');
    assert(s[p.len() as int] == '\n');
    assert(s.contains(s[p.len() as int]));
    let m = crate::text::line_end(s)->0;
    assert(m <= p.len()) by {
        if m > p.len() {
            assert(s[p.len() as int] != '\n');
        }
    }
    if p.contains('\n') {
        let n = crate::text::line_end(p)->0;
        assert(n < p.len() - 1) by {
            assert(p[p.len() - 1] == p.last());
        }
        assert(s[n] == '\n');
        assert(m == n) by {
            if m < n {
                assert(p[m] != '\n');
                assert(s[m] == p[m]);
            }
            if n < m {
                assert(s[n] != '\n');
            }
        }
        let rest = p.skip(n + 1);
        assert(rest.last() == p.last());
        one_more_line(rest, l);
        assert(s.skip(n + 1) =~= rest + seq!['\n'] + l);
        assert(s.take(n) =~= p.take(n));
        assert(crate::text::lines_of(s) =~= crate::text::lines_of(p).push(l));
    } else {
        assert(m == p.len()) by {
            if m < p.len() {
                assert(p[m] == s[m]);
                assert(p.contains(p[m]));
            }
        }
        assert(s.take(m) =~= p);
        assert(s.skip(m + 1) =~= l);
        assert(crate::text::lines_of(l) =~= seq![l]);
        assert(crate::text::lines_of(s) =~= crate::text::lines_of(p).push(l));
    }
}

proof fn lemma_uri_visible(path: Seq<char>)
    ensures
        forall|i: int|
            0 <= i < crate::uri::uri_of_path(path).len() ==> is_visible(
                #[trigger] crate::uri::uri_of_path(path)[i],
            ),
        crate::uri::uri_of_path(path).len() >= 7,
        crate::uri::uri_of_path(path)[0] == 'f',
{
    let bytes = vstd::utf8::encode_utf8(path);
    let u = crate::uri::uri_of_path(path);
    lemma_escaped_chars(bytes);
    assert forall|i: int| 0 <= i < u.len() implies is_visible(#[trigger] u[i]) by {
        if i >= 7 {
            assert(u[i] == crate::uri::escaped_all(bytes)[i - 7]);
        }
    }
}

proof fn lemma_copied_files(paths: Seq<Seq<char>>)
    ensures
        ({
            let list = crate::uri::copied_files(paths);
            &&& list.len() > 0
            &&& is_visible(list.last())
            &&& crate::uri::paths_of_lines(crate::text::lines_of(list)) == paths
        }),
    decreases paths.len(),
{
    let list = crate::uri::copied_files(paths);
    let f = |l: Seq<char>| crate::uri::path_of_line(l);
    if paths.len() == 0 {
        let copy = seq!['c', 'o', 'p', 'y'];
        copy.index_of_first_ensures('\n');
        assert(crate::text::lines_of(list) =~= seq![copy]);
        assert(seq![copy].drop_last() =~= Seq::empty());
        assert(Seq::<Seq<char>>::empty().filter_map(f) =~= Seq::empty());
        assert(crate::uri::paths_of_lines(seq![copy]) =~= Seq::empty());
        assert(paths =~= Seq::empty());
    } else {
        let first = crate::uri::copied_files(paths.drop_last());
        let u = crate::uri::uri_of_path(paths.last());
        lemma_copied_files(paths.drop_last());
        lemma_uri_visible(paths.last());
        uri_round_trip(paths.last());
        assert(list.last() == u[u.len() - 1]);
        assert forall|i: int| 0 <= i < u.len() implies u[i] != '\n' by {
            assert(is_visible(u[i]));
        }
        one_more_line(first, u);
        let ls = crate::text::lines_of(first);
        assert(crate::text::lines_of(list) == ls.push(u));
        assert(ls.push(u).drop_last() =~= ls);
        assert(crate::uri::path_of_line(u) == Some(paths.last()));
        assert(ls.push(u).filter_map(f) == ls.filter_map(f) + seq![paths.last()]);
        assert(paths.drop_last() + seq![paths.last()] =~= paths);
    }
}

/// The file list that we put on a clipboard reads back as the very paths
/// that went into it, whatever characters they hold.
pub proof fn copied_file_list_round_trip(paths: Seq<Seq<char>>)
    ensures
        crate::uri::paths_of_lines(
            crate::text::lines_of(
                crate::text::read_utf8(vstd::utf8::encode_utf8(crate::uri::copied_files(paths))),
            ),
        ) == paths,
{
    let list = crate::uri::copied_files(paths);
    vstd::utf8::encode_utf8_valid_utf8(list);
    vstd::utf8::encode_utf8_decode_utf8(list);
    lemma_copied_files(paths);
}

/// A byte other than a percent sign stands for itself, whatever it is and
/// whatever follows it.
pub proof fn other_bytes_stand_for_themselves(v: u8, rest: Seq<u8>)
    requires
        v != 0x25,
    ensures
        match crate::uri::percent_decoded(rest) {
            Some(r) => crate::uri::percent_decoded(seq![v] + rest) == Some(seq![v] + r),
            None => crate::uri::percent_decoded(seq![v] + rest) is None,
        },
{
    let b = seq![v] + rest;
    assert(b.skip(1) =~= rest);
}

/// Bytes without a percent sign stand for themselves, and so they do in front
/// of any others.
pub proof fn bytes_without_percent_stay(b: Seq<u8>, rest: Seq<u8>)
    requires
        !b.contains(0x25),
    ensures
        crate::uri::percent_decoded(b) == Some(b),
        match crate::uri::percent_decoded(rest) {
            Some(r) => crate::uri::percent_decoded(b + rest) == Some(b + r),
            None => crate::uri::percent_decoded(b + rest) is None,
        },
    decreases b.len(),
{
    if b.len() == 0 {
        assert(b =~= Seq::empty());
        assert(b + rest =~= rest);
        if crate::uri::percent_decoded(rest) is Some {
            assert(b + crate::uri::percent_decoded(rest)->0 =~= crate::uri::percent_decoded(
                rest,
            )->0);
        }
    } else {
        let tail = b.skip(1);
        assert(b.contains(b[0]));
        assert forall|i: int| 0 <= i < tail.len() implies tail[i] != 0x25 by {
            assert(b.contains(b[i + 1]));
        }
        bytes_without_percent_stay(tail, rest);
        other_bytes_stand_for_themselves(b[0], tail);
        other_bytes_stand_for_themselves(b[0], tail + rest);
        assert(seq![b[0]] + tail =~= b);
        assert(seq![b[0]] + (tail + rest) =~= b + rest);
        if crate::uri::percent_decoded(rest) is Some {
            let r = crate::uri::percent_decoded(rest)->0;
            assert(seq![b[0]] + (tail + r) =~= b + r);
        }
    }
}

/// The sixteen digits, in the two ways of writing them.
pub open spec fn upper_digits() -> Seq<char> {
    seq!['0', '1', '2', '3', '4', '5', '6', '7', '8', '9', 'A', 'B', 'C', 'D', 'E', 'F']
}

pub open spec fn lower_digits() -> Seq<char> {
    seq!['0', '1', '2', '3', '4', '5', '6', '7', '8', '9', 'a', 'b', 'c', 'd', 'e', 'f']
}

/// Whether a byte is a hexadecimal digit.
pub open spec fn is_digit(b: u8) -> bool {
    upper_digits().contains(b as char) || lower_digits().contains(b as char)
}

/// A hexadecimal digit has the value of its place among the sixteen, in
/// upper case and in lower case, and nothing else is one.
pub proof fn digits_have_the_value_of_their_place(b: u8, v: u8)
    ensures
        crate::uri::hex_value(b) == Some(v) <==> v < 16 && (upper_digits()[v as int] == b as char
            || lower_digits()[v as int] == b as char),
        crate::uri::hex_value(b) is None <==> !is_digit(b),
{
    lemma_places(b);
    if crate::uri::hex_value(b) is Some {
        let w = crate::uri::hex_value(b)->0;
        assert(upper_digits()[w as int] == b as char || lower_digits()[w as int] == b as char);
        assert(upper_digits().contains(upper_digits()[w as int]));
        assert(lower_digits().contains(lower_digits()[w as int]));
    } else if is_digit(b) {
        if upper_digits().contains(b as char) {
            let i = upper_digits().index_of(b as char);
            assert(upper_digits()[i] == b as char);
        } else {
            let i = lower_digits().index_of(b as char);
            assert(lower_digits()[i] == b as char);
        }
    }
}

proof fn lemma_places(b: u8)
    ensures
        forall|i: int|
            0 <= i < 16 && #[trigger] upper_digits()[i] == b as char ==> crate::uri::hex_value(b)
                == Some(i as u8),
        forall|i: int|
            0 <= i < 16 && #[trigger] lower_digits()[i] == b as char ==> crate::uri::hex_value(b)
                == Some(i as u8),
        upper_digits().len() == 16,
        lower_digits().len() == 16,
        crate::uri::hex_value(b) is Some ==> crate::uri::hex_value(b)->0 < 16 && (
        upper_digits()[crate::uri::hex_value(b)->0 as int] == b as char
            || lower_digits()[crate::uri::hex_value(b)->0 as int] == b as char),
{
}

/// A percent sign and two hexadecimal digits stand for one byte, the first
/// digit for its upper half.
pub proof fn escapes_stand_for_one_byte(hi: u8, lo: u8, a: u8, b: u8, rest: Seq<u8>)
    requires
        hi < 16,
        lo < 16,
        upper_digits()[hi as int] == a as char || lower_digits()[hi as int] == a as char,
        upper_digits()[lo as int] == b as char || lower_digits()[lo as int] == b as char,
    ensures
        match crate::uri::percent_decoded(rest) {
            Some(r) => crate::uri::percent_decoded(seq![0x25u8, a, b] + rest) == Some(
                seq![(16 * hi + lo) as u8] + r,
            ),
            None => crate::uri::percent_decoded(seq![0x25u8, a, b] + rest) is None,
        },
{
    digits_have_the_value_of_their_place(a, hi);
    digits_have_the_value_of_their_place(b, lo);
    assert((seq![0x25u8, a, b] + rest).skip(3) =~= rest);
}

/// What else may follow a percent sign: a plus sign and a digit stand for
/// the digit's value, any other two bytes make the whole unreadable, and
/// with fewer than two bytes behind it a percent sign stands for itself.
pub proof fn other_percent_signs(a: u8, b: u8, rest: Seq<u8>)
    ensures
        !is_digit(b) || (!is_digit(a) && a != 0x2b) ==> crate::uri::percent_decoded(
            seq![0x25u8, a, b] + rest,
        ) is None,
        a == 0x2b ==> forall|v: u8|
            #![trigger lower_digits()[v as int]]
            v < 16 && (upper_digits()[v as int] == b as char || lower_digits()[v as int]
                == b as char) ==> crate::uri::percent_decoded(seq![0x25u8, a, b]) == Some(seq![v]),
        crate::uri::percent_decoded(seq![0x25u8]) == Some(seq![0x25u8]),
        crate::uri::percent_decoded(seq![0x25u8, a]) == Some(seq![0x25u8, a]),
{
    digits_have_the_value_of_their_place(a, 0);
    digits_have_the_value_of_their_place(b, 0);
    assert((seq![0x25u8, a, b] + rest).skip(3) =~= rest);
    assert(seq![0x25u8, a, b].skip(3) =~= Seq::empty());
    assert(seq![0x25u8].skip(1) =~= Seq::empty());
    assert(seq![0x25u8, a].skip(1) =~= seq![a]);
    assert(seq![a].skip(1) =~= Seq::empty());
    let none = Seq::<u8>::empty();
    assert(crate::uri::percent_decoded(none) == Some(none));
    assert(seq![0x25u8] + none =~= seq![0x25u8]);
    assert(seq![a] + none =~= seq![a]);
    assert(crate::uri::percent_decoded(seq![a]) == Some(seq![a]));
    assert(seq![0x25u8] + seq![a] =~= seq![0x25u8, a]);
    if a == 0x2b {
        assert(crate::uri::hex_value(a) is None);
        assert forall|v: u8|
            #![trigger lower_digits()[v as int]]
            v < 16 && (upper_digits()[v as int] == b as char || lower_digits()[v as int]
                == b as char) implies crate::uri::percent_decoded(seq![0x25u8, a, b]) == Some(
            seq![v],
        ) by {
            digits_have_the_value_of_their_place(b, v);
            assert(seq![v] + none =~= seq![v]);
        }
    }
}

proof fn lemma_no_percent_byte(c: char)
    requires
        c != '%',
    ensures
        forall|i: int|
            0 <= i < vstd::utf8::encode_scalar(c as u32).len() ==> (
            #[trigger] vstd::utf8::encode_scalar(c as u32)[i]) != 0x25,
{
    let n = c as u32;
    assert(n != 0x25);
    vstd::utf8::char_is_scalar(c);
    assert(n <= 0x7f ==> vstd::utf8::leading_byte_width_1(n) != 0x25) by (bit_vector)
        requires
            n != 0x25,
    ;
    assert(vstd::utf8::leading_byte_width_2(n) != 0x25) by (bit_vector);
    assert(vstd::utf8::leading_byte_width_3(n) != 0x25) by (bit_vector);
    assert(vstd::utf8::leading_byte_width_4(n) != 0x25) by (bit_vector);
    assert(vstd::utf8::last_continuation_byte(n) != 0x25) by (bit_vector);
    assert(vstd::utf8::second_last_continuation_byte(n) != 0x25) by (bit_vector);
    assert(vstd::utf8::third_last_continuation_byte(n) != 0x25) by (bit_vector);
}

proof fn lemma_no_percent_bytes(s: Seq<char>)
    requires
        !s.contains('%'),
    ensures
        !vstd::utf8::encode_utf8(s).contains(0x25),
    decreases s.len(),
{
    if s.len() > 0 {
        let rest = s.drop_first();
        assert(s.contains(s[0]));
        assert forall|i: int| 0 <= i < rest.len() implies rest[i] != '%' by {
            assert(s.contains(s[i + 1]));
        }
        lemma_no_percent_bytes(rest);
        lemma_no_percent_byte(s[0]);
        let head = vstd::utf8::encode_scalar(s[0] as u32);
        let tail = vstd::utf8::encode_utf8(rest);
        assert forall|i: int| 0 <= i < (head + tail).len() implies (head + tail)[i] != 0x25 by {
            if i < head.len() {
                assert(head[i] != 0x25);
            } else {
                assert(tail.contains(tail[i - head.len()]));
            }
        }
    }
}

/// A file URI without a percent sign names the path that is written behind
/// its scheme, character for character.
pub proof fn plain_uris_name_what_they_hold(path: Seq<char>)
    requires
        !path.contains('%'),
        path.len() > 0 ==> !crate::text::is_white(path.last()),
    ensures
        crate::uri::path_of_uri(seq!['f', 'i', 'l', 'e', ':', '/', '/'] + path) == Some(path),
{
    let u = seq!['f', 'i', 'l', 'e', ':', '/', '/'] + path;
    let bytes = vstd::utf8::encode_utf8(path);
    if path.len() > 0 {
        assert(u.last() == path.last());
    }
    assert(crate::text::trimmed(u) == u);
    assert(u.take(7) =~= crate::uri::scheme());
    assert(u.skip(7) =~= path);
    lemma_no_percent_bytes(path);
    bytes_without_percent_stay(bytes, Seq::empty());
    crate::text_laws::text_is_received_as_sent(path);
}

/// White space around a URI is passed over, and a URI of any other scheme
/// names no path.
pub proof fn only_file_uris_name_paths(a: Seq<char>, u: Seq<char>, b: Seq<char>)
    requires
        forall|i: int| 0 <= i < a.len() ==> crate::text::is_white(#[trigger] a[i]),
        forall|i: int| 0 <= i < b.len() ==> crate::text::is_white(#[trigger] b[i]),
        u.len() > 0 ==> !crate::text::is_white(u[0]) && !crate::text::is_white(u.last()),
    ensures
        crate::uri::path_of_uri(a + u + b) == crate::uri::path_of_uri(u),
        (forall|t: Seq<char>| u != seq!['f', 'i', 'l', 'e', ':', '/', '/'] + t)
            ==> crate::uri::path_of_uri(u) is None,
{
    crate::text_laws::trimming_takes_what_is_around(a, u, b);
    assert(crate::text::trimmed(u) == u);
    if u.len() >= 7 && u.take(7) == crate::uri::scheme() {
        assert(u =~= seq!['f', 'i', 'l', 'e', ':', '/', '/'] + u.skip(7));
    }
}

/// In the URI of a path the letters and digits of ASCII and `/ - _ . ~`
/// stand for themselves; every other byte is a percent sign and its two
/// upper-case digits.
pub proof fn bytes_in_a_uri(b: u8)
    ensures
        ({
            let c = b as char;
            let itself = 'a' <= c <= 'z' || 'A' <= c <= 'Z' || '0' <= c <= '9' || c == '/' || c
                == '-' || c == '_' || c == '.' || c == '~';
            crate::uri::escaped(b) == if itself {
                seq![c]
            } else {
                seq!['%', upper_digits()[b as int / 16], upper_digits()[b as int % 16]]
            }
        }),
{
}

/// The URI of a path is its scheme and its bytes, each written on its own
/// and in order.
pub proof fn uris_are_written_in_order(a: Seq<u8>, b: u8, path: Seq<char>)
    ensures
        crate::uri::escaped_all(Seq::empty()) == Seq::<char>::empty(),
        crate::uri::escaped_all(a.push(b)) == crate::uri::escaped_all(a) + crate::uri::escaped(b),
        crate::uri::uri_of_path(path) == seq!['f', 'i', 'l', 'e', ':', '/', '/']
            + crate::uri::escaped_all(vstd::utf8::encode_utf8(path)),
{
    assert(a.push(b).drop_last() =~= a);
}

/// The paths of a file list come line by line, in order. An empty line, a
/// comment and the verbs `copy` and `cut` name none; every other line names
/// what it names as a URI.
pub proof fn file_lists_are_read_line_by_line(ls: Seq<Seq<char>>, l: Seq<char>)
    ensures
        crate::uri::paths_of_lines(Seq::empty()) == Seq::<Seq<char>>::empty(),
        crate::uri::paths_of_lines(ls.push(l)) == if l.len() == 0 || l[0] == '#' || l == seq![
            'c',
            'o',
            'p',
            'y',
        ] || l == seq!['c', 'u', 't'] {
            crate::uri::paths_of_lines(ls)
        } else {
            match crate::uri::path_of_uri(l) {
                Some(p) => crate::uri::paths_of_lines(ls).push(p),
                None => crate::uri::paths_of_lines(ls),
            }
        },
{
    assert(ls.push(l).drop_last() =~= ls);
}

/// A copied file list is the verb and a line with its URI for each path.
pub proof fn copied_file_lists(paths: Seq<Seq<char>>, p: Seq<char>)
    ensures
        crate::uri::copied_files(Seq::empty()) == seq!['c', 'o', 'p', 'y'],
        crate::uri::copied_files(paths.push(p)) == crate::uri::copied_files(paths) + seq!['\n']
            + crate::uri::uri_of_path(p),
{
    assert(paths.push(p).drop_last() =~= paths);
}

} // verus!

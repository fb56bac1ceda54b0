//! What lines and line endings guarantee.

use vstd::prelude::*;

verus! {

/// Text in which no carriage return stands directly before a newline is the
/// same text with LF endings. Text without any carriage return is such text.
pub proof fn lf_endings_stay(s: Seq<char>)
    requires
        forall|i: int| 0 <= i < s.len() - 1 && #[trigger] s[i] == '\r' ==> s[i + 1] != '\n',
    ensures
        crate::text::lf(s) == s,
    decreases s.len(),
{
    if s.len() > 0 {
        let rest = s.skip(1);
        assert forall|i: int| 0 <= i < rest.len() - 1 && #[trigger] rest[i] == '\r' implies rest[i
            + 1] != '\n' by {
            assert(s[i + 1] == '\r');
        }
        lf_endings_stay(rest);
        assert(seq![s[0]] + rest =~= s);
    }
}

/// Text without a carriage return is the same text with LF endings, however
/// many newlines it has, and wherever they stand.
pub proof fn text_without_returns_stays(s: Seq<char>)
    requires
        !s.contains('\r'),
    ensures
        crate::text::lf(s) == s,
{
    assert forall|i: int| 0 <= i < s.len() - 1 && #[trigger] s[i] == '\r' implies s[i + 1]
        != '\n' by {
        assert(s.contains(s[i]));
    }
    lf_endings_stay(s);
}

/// Of a CRLF anywhere in a text the newline stays, and what is in front of it
/// and behind it is turned as it would be on its own.
pub proof fn crlf_becomes_lf(a: Seq<char>, b: Seq<char>)
    ensures
        crate::text::lf(a + seq!['\r', '\n'] + b) == crate::text::lf(a) + seq!['\n']
            + crate::text::lf(b),
    decreases a.len(),
{
    let s = a + seq!['\r', '\n'] + b;
    if a.len() == 0 {
        assert(s.skip(2) =~= b);
        assert(crate::text::lf(s) =~= crate::text::lf(a) + seq!['\n'] + crate::text::lf(b));
    } else if a.len() >= 2 && a[0] == '\r' && a[1] == '\n' {
        let rest = a.skip(2);
        crlf_becomes_lf(rest, b);
        assert(s.skip(2) =~= rest + seq!['\r', '\n'] + b);
        assert(crate::text::lf(s) =~= crate::text::lf(a) + seq!['\n'] + crate::text::lf(b));
    } else {
        let rest = a.skip(1);
        crlf_becomes_lf(rest, b);
        assert(s.skip(1) =~= rest + seq!['\r', '\n'] + b);
        assert(s[0] == a[0]);
        assert(a.len() >= 2 ==> s[1] == a[1]);
        assert(a.len() == 1 ==> s[1] == '\r');
        assert(crate::text::lf(s) =~= crate::text::lf(a) + seq!['\n'] + crate::text::lf(b));
    }
}

/// Turning CRLF into LF takes out carriage returns and nothing else: what is
/// left of the text without its carriage returns is the same before and
/// after, and the characters that go are as many as the CRLFs.
pub proof fn only_returns_are_taken_out(s: Seq<char>)
    ensures
        ({
            let other = |c: char| c != '\r';
            crate::text::lf(s).filter(other) == s.filter(other)
        }),
        s.len() - crate::text::lf(s).len() == Set::new(
            |i: int| 0 <= i < s.len() - 1 && s[i] == '\r' && s[i + 1] == '\n',
        ).len(),
        Set::new(|i: int| 0 <= i < s.len() - 1 && s[i] == '\r' && s[i + 1] == '\n').finite(),
{
    lemma_others_stay(s);
    lemma_taken_out(s, s.len() as int);
    assert(s.skip(0) =~= s);
    assert(Set::new(|i: int| 0 <= i < s.len() - 1 && s[i] == '\r' && s[i + 1] == '\n') =~= Set::new(
        |i: int| s.len() - s.len() <= i < s.len() - 1 && s[i] == '\r' && s[i + 1] == '\n',
    ));
}

proof fn lemma_others_stay(s: Seq<char>)
    ensures
        ({
            let other = |c: char| c != '\r';
            crate::text::lf(s).filter(other) == s.filter(other)
        }),
    decreases s.len(),
{
    let other = |c: char| c != '\r';
    if s.len() > 0 {
        let n: int = if s.len() >= 2 && s[0] == '\r' && s[1] == '\n' {
            2
        } else {
            1
        };
        let rest = s.skip(n);
        let kept = seq![s[n - 1]];
        lemma_others_stay(rest);
        assert(crate::text::lf(s) =~= kept + crate::text::lf(rest));
        Seq::filter_distributes_over_add(kept, crate::text::lf(rest), other);
        Seq::filter_distributes_over_add(s.take(n), rest, other);
        assert(s.take(n) + rest =~= s);
        reveal_with_fuel(Seq::filter, 3);
        if n == 2 {
            assert(s.take(2).drop_last() =~= seq!['\r']);
            assert(seq!['\r'].drop_last() =~= Seq::<char>::empty());
            assert(kept.drop_last() =~= Seq::<char>::empty());
            assert(s.take(2).filter(other) =~= kept.filter(other));
        } else {
            assert(s.take(1) =~= kept);
        }
    }
}

/// The places of the CRLFs among the last `k` characters are as many as the
/// characters that the last `k` lose.
proof fn lemma_taken_out(s: Seq<char>, k: int)
    requires
        0 <= k <= s.len(),
    ensures
        ({
            let from = s.len() - k;
            let places = Set::new(
                |i: int| from <= i < s.len() - 1 && s[i] == '\r' && s[i + 1] == '\n',
            );
            let rest = s.skip(from);
            &&& places.finite()
            &&& places.len() == rest.len() - crate::text::lf(rest).len()
        }),
    decreases k,
{
    let from = s.len() - k;
    let places = Set::new(|i: int| from <= i < s.len() - 1 && s[i] == '\r' && s[i + 1] == '\n');
    let rest = s.skip(from);
    if k == 0 {
        assert(places =~= Set::empty());
    } else if k >= 2 && s[from] == '\r' && s[from + 1] == '\n' {
        let fewer = Set::new(
            |i: int| from + 2 <= i < s.len() - 1 && s[i] == '\r' && s[i + 1] == '\n',
        );
        lemma_taken_out(s, k - 2);
        assert(places =~= fewer.insert(from));
        assert(rest.skip(2) =~= s.skip(from + 2));
    } else {
        let fewer = Set::new(
            |i: int| from + 1 <= i < s.len() - 1 && s[i] == '\r' && s[i + 1] == '\n',
        );
        lemma_taken_out(s, k - 1);
        assert(places =~= fewer);
        assert(rest.skip(1) =~= s.skip(from + 1));
    }
}

/// Text without a newline is the same text with CRLF endings, and each
/// newline of a text has a carriage return put before it: what is in front
/// of it and behind it is turned as it would be on its own.
pub proof fn lf_becomes_crlf(a: Seq<char>, b: Seq<char>)
    ensures
        !a.contains('\n') ==> crate::text::crlf(a) == a,
        crate::text::crlf(a + seq!['\n'] + b) == crate::text::crlf(a) + seq!['\r', '\n']
            + crate::text::crlf(b),
    decreases a.len(),
{
    let s = a + seq!['\n'] + b;
    if a.len() == 0 {
        assert(s.skip(1) =~= b);
        assert(crate::text::crlf(s) =~= crate::text::crlf(a) + seq!['\r', '\n']
            + crate::text::crlf(b));
    } else {
        let rest = a.skip(1);
        lf_becomes_crlf(rest, b);
        assert(s.skip(1) =~= rest + seq!['\n'] + b);
        assert(s[0] == a[0]);
        assert(crate::text::crlf(s) =~= crate::text::crlf(a) + seq!['\r', '\n']
            + crate::text::crlf(b));
        if !a.contains('\n') {
            assert(a.contains(a[0]));
            assert forall|i: int| 0 <= i < rest.len() implies rest[i] != '\n' by {
                assert(a.contains(a[i + 1]));
            }
            assert(seq![a[0]] + rest =~= a);
        }
    }
}

/// White space is the blank, the controls from TAB to CR, NEL, the no-break
/// space and the spaces and separators of Unicode; in ASCII there are six.
pub proof fn white_space(c: char)
    ensures
        (c as int) < 128 ==> (crate::text::is_white(c) <==> c == ' ' || c == '\t' || c == '\n'
            || c == '\u{b}' || c == '\u{c}' || c == '\r'),
        (c as int) >= 128 ==> (crate::text::is_white(c) <==> c == '\u{85}' || c == '\u{a0}' || c
            == '\u{1680}' || c == '\u{2000}' || c == '\u{2001}' || c == '\u{2002}' || c
            == '\u{2003}' || c == '\u{2004}' || c == '\u{2005}' || c == '\u{2006}' || c
            == '\u{2007}' || c == '\u{2008}' || c == '\u{2009}' || c == '\u{200a}' || c
            == '\u{2028}' || c == '\u{2029}' || c == '\u{202f}' || c == '\u{205f}' || c
            == '\u{3000}'),
{
}

/// White space around a text goes, however much there is. What is left
/// begins and ends with something else, and keeps the white space within.
pub proof fn trimming_takes_what_is_around(a: Seq<char>, t: Seq<char>, b: Seq<char>)
    requires
        forall|i: int| 0 <= i < a.len() ==> crate::text::is_white(#[trigger] a[i]),
        forall|i: int| 0 <= i < b.len() ==> crate::text::is_white(#[trigger] b[i]),
        t.len() > 0 ==> !crate::text::is_white(t[0]) && !crate::text::is_white(t.last()),
    ensures
        crate::text::trimmed(a + t + b) == t,
    decreases a.len() + b.len(),
{
    let s = a + t + b;
    if a.len() > 0 {
        assert(s[0] == a[0]);
        assert(s.drop_first() =~= a.drop_first() + t + b);
        assert forall|i: int| 0 <= i < a.drop_first().len() implies crate::text::is_white(
            #[trigger] a.drop_first()[i],
        ) by {
            assert(crate::text::is_white(a[i + 1]));
        }
        trimming_takes_what_is_around(a.drop_first(), t, b);
    } else if b.len() > 0 {
        if t.len() > 0 {
            assert(s[0] == t[0]);
            assert(s.last() == b.last());
            assert(s.drop_last() =~= a + t + b.drop_last());
            trimming_takes_what_is_around(a, t, b.drop_last());
        } else {
            assert(s[0] == b[0]);
            assert(s.drop_first() =~= a + t + b.drop_first());
            assert forall|i: int| 0 <= i < b.drop_first().len() implies crate::text::is_white(
                #[trigger] b.drop_first()[i],
            ) by {
                assert(crate::text::is_white(b[i + 1]));
            }
            trimming_takes_what_is_around(a, t, b.drop_first());
        }
    } else {
        assert(s =~= t);
    }
}

/// Text without a newline is one line, or none if it is empty. A newline
/// ends a line, and a carriage return directly before it is not part of the
/// line; any other carriage return is. The lines behind it are those of the
/// text behind it, empty ones among them.
pub proof fn lines_end_with_newlines(l: Seq<char>, rest: Seq<char>)
    requires
        !l.contains('\n'),
    ensures
        crate::text::lines_of(l) == if l.len() == 0 {
            Seq::empty()
        } else {
            seq![l]
        },
        crate::text::lines_of(l + seq!['\r', '\n'] + rest) == seq![l] + crate::text::lines_of(
            rest,
        ),
        l.len() == 0 || l.last() != '\r' ==> crate::text::lines_of(l + seq!['\n'] + rest)
            == seq![l] + crate::text::lines_of(rest),
{
    l.index_of_first_ensures('\n');
    lemma_first_line(l, rest);
    let m = l + seq!['\r'];
    assert forall|i: int| 0 <= i < m.len() implies m[i] != '\n' by {
        if i < l.len() {
            assert(l.contains(l[i]));
        }
    }
    lemma_first_line(m, rest);
    assert(m + seq!['\n'] + rest =~= l + seq!['\r', '\n'] + rest);
    assert(m.drop_last() =~= l);
}

proof fn lemma_first_line(l: Seq<char>, rest: Seq<char>)
    requires
        !l.contains('\n'),
    ensures
        crate::text::lines_of(l + seq!['\n'] + rest) == seq![crate::text::without_cr(l)]
            + crate::text::lines_of(rest),
{
    let s = l + seq!['\n'] + rest;
    let n = l.len() as int;
    s.index_of_first_ensures('\n');
    assert(s[n] == '\n');
    assert(s.contains(s[n]));
    let m = crate::text::line_end(s)->0;
    assert(m == n) by {
        if m < n {
            assert(l[m] == s[m]);
            assert(l.contains(l[m]));
        }
        if n < m {
            assert(s[n] != '\n');
        }
    }
    assert(s.take(n) =~= l);
    assert(s.skip(n + 1) =~= rest);
}

/// One text ends with another exactly if something can be put in front of
/// the other to make it.
pub proof fn an_end_has_a_front(s: Seq<char>, tail: Seq<char>)
    ensures
        crate::text::ends(s, tail) <==> exists|front: Seq<char>| s == #[trigger] (front + tail),
{
    if crate::text::ends(s, tail) {
        let front = s.take(s.len() - tail.len());
        assert(s =~= front + tail);
    }
    if exists|front: Seq<char>| s == #[trigger] (front + tail) {
        let front = choose|front: Seq<char>| s == #[trigger] (front + tail);
        assert(s.skip(s.len() - tail.len()) =~= tail);
    }
}

/// Text that was sent as UTF-8 is received as the same text, and other bytes
/// as what can be made of them.
pub proof fn text_is_received_as_sent(t: Seq<char>)
    ensures
        crate::text::read_utf8(vstd::utf8::encode_utf8(t)) == t,
        forall|bytes: Seq<u8>|
            !vstd::utf8::valid_utf8(bytes) ==> #[trigger] crate::text::read_utf8(bytes)
                == crate::text::lossy_utf8(bytes),
{
    vstd::utf8::encode_utf8_valid_utf8(t);
    vstd::utf8::encode_utf8_decode_utf8(t);
}

} // verus!

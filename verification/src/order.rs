//! Sorting by byte keys.

use vstd::prelude::*;

verus! {

/// Dictionary order of byte strings: the first difference decides, and a
/// string comes before what it begins.
pub open spec fn before_or_same(a: Seq<u8>, b: Seq<u8>) -> bool
    decreases a.len(),
{
    if a.len() == 0 {
        true
    } else if b.len() == 0 {
        false
    } else if a[0] != b[0] {
        a[0] < b[0]
    } else {
        before_or_same(a.skip(1), b.skip(1))
    }
}

fn not_after(a: &[u8], b: &[u8]) -> (r: bool)
    ensures
        r == before_or_same(a@, b@),
{
    let mut i: usize = 0;
    assert(a@.skip(0) =~= a@);
    assert(b@.skip(0) =~= b@);
    while i < a.len()
        invariant
            i <= a@.len(),
            i <= b@.len(),
            before_or_same(a@, b@) == before_or_same(a@.skip(i as int), b@.skip(i as int)),
        decreases a.len() - i,
    {
        if i == b.len() {
            return false;
        }
        if a[i] != b[i] {
            return a[i] < b[i];
        }
        assert(a@.skip(i as int).skip(1) =~= a@.skip(i + 1));
        assert(b@.skip(i as int).skip(1) =~= b@.skip(i + 1));
        i += 1;
    }
    true
}

/// Put index `x` where its key belongs among indices in key order, behind
/// equal keys.
pub open spec fn inserted(keys: Seq<Seq<u8>>, order: Seq<int>, x: int) -> Seq<int>
    decreases order.len(),
{
    if order.len() == 0 || before_or_same(keys[order.last()], keys[x]) {
        order.push(x)
    } else {
        inserted(keys, order.drop_last(), x).push(order.last())
    }
}

/// The first `n` indices in the order of their keys.
pub open spec fn sorted_prefix(keys: Seq<Seq<u8>>, n: nat) -> Seq<int>
    decreases n,
{
    if n == 0 {
        Seq::empty()
    } else {
        inserted(keys, sorted_prefix(keys, (n - 1) as nat), n - 1)
    }
}

/// All indices in the order of their keys; equal keys keep their order.
pub open spec fn sorted_order(keys: Seq<Seq<u8>>) -> Seq<int> {
    sorted_prefix(keys, keys.len())
}

/// The contents of a list of keys.
pub open spec fn key_bytes(keys: Seq<Vec<u8>>) -> Seq<Seq<u8>> {
    keys.map_values(|k: Vec<u8>| k@)
}

/// Indices as numbers.
pub open spec fn indices(order: Seq<usize>) -> Seq<int> {
    order.map_values(|i: usize| i as int)
}

proof fn lemma_inserted_at(keys: Seq<Seq<u8>>, order: Seq<int>, x: int, j: int)
    requires
        0 <= j <= order.len(),
        j > 0 ==> before_or_same(keys[order[j - 1]], keys[x]),
        forall|k: int| j <= k < order.len() ==> !before_or_same(keys[#[trigger] order[k]], keys[x]),
    ensures
        inserted(keys, order, x) == order.insert(j, x),
    decreases order.len(),
{
    if order.len() == 0 || before_or_same(keys[order.last()], keys[x]) {
        if j < order.len() {
            assert(!before_or_same(keys[order[order.len() - 1]], keys[x]));
        }
        assert(order.insert(j, x) =~= order.push(x));
    } else {
        assert(j < order.len());
        let rest = order.drop_last();
        assert forall|k: int| j <= k < rest.len() implies !before_or_same(
            keys[#[trigger] rest[k]],
            keys[x],
        ) by {
            assert(rest[k] == order[k]);
        }
        lemma_inserted_at(keys, rest, x, j);
        assert(rest.insert(j, x).push(order.last()) =~= order.insert(j, x));
    }
}

proof fn lemma_inserted_range(keys: Seq<Seq<u8>>, order: Seq<int>, x: int, n: int)
    requires
        0 <= x < n,
        forall|i: int| 0 <= i < order.len() ==> 0 <= #[trigger] order[i] < n,
    ensures
        inserted(keys, order, x).len() == order.len() + 1,
        forall|i: int| 0 <= i <= order.len() ==> 0 <= #[trigger] inserted(keys, order, x)[i] < n,
    decreases order.len(),
{
    if !(order.len() == 0 || before_or_same(keys[order.last()], keys[x])) {
        lemma_inserted_range(keys, order.drop_last(), x, n);
    }
}

/// The indices of a prefix are a rearrangement of that prefix.
proof fn lemma_sorted_prefix(keys: Seq<Seq<u8>>, n: nat)
    requires
        n <= keys.len(),
    ensures
        sorted_prefix(keys, n).len() == n,
        forall|i: int| 0 <= i < n ==> 0 <= #[trigger] sorted_prefix(keys, n)[i] < n,
    decreases n,
{
    if n > 0 {
        lemma_sorted_prefix(keys, (n - 1) as nat);
        lemma_inserted_range(keys, sorted_prefix(keys, (n - 1) as nat), n - 1, n as int);
    }
}

/// The indices are in range, one for each key.
pub proof fn sorted_order_in_range(keys: Seq<Seq<u8>>)
    ensures
        sorted_order(keys).len() == keys.len(),
        forall|i: int| 0 <= i < keys.len() ==> 0 <= #[trigger] sorted_order(keys)[i] < keys.len(),
{
    lemma_sorted_prefix(keys, keys.len());
}

/// The order in which keys stand when sorted.
pub fn sort_order(keys: &[Vec<u8>]) -> (order: Vec<usize>)
    ensures
        indices(order@) == sorted_order(key_bytes(keys@)),
        order@.len() == keys@.len(),
        forall|i: int| 0 <= i < order@.len() ==> (#[trigger] order@[i]) < keys@.len(),
{
    let ghost kb = key_bytes(keys@);
    let mut order: Vec<usize> = Vec::new();
    let mut n: usize = 0;
    assert(indices(order@) =~= sorted_prefix(kb, 0));
    while n < keys.len()
        invariant
            n <= keys@.len(),
            kb == key_bytes(keys@),
            order@.len() == n,
            forall|i: int| 0 <= i < n ==> (#[trigger] order@[i]) < n,
            indices(order@) == sorted_prefix(kb, n as nat),
        decreases keys.len() - n,
    {
        let mut j: usize = order.len();
        while j > 0 && !not_after(keys[order[j - 1]].as_slice(), keys[n].as_slice())
            invariant
                n < keys@.len(),
                kb == key_bytes(keys@),
                j <= order@.len() == n,
                forall|i: int| 0 <= i < n ==> (#[trigger] order@[i]) < n,
                forall|k: int|
                    j <= k < order@.len() ==> !before_or_same(
                        kb[indices(order@)[k]],
                        kb[n as int],
                    ),
            decreases j,
        {
            assert(indices(order@)[j - 1] == order@[j - 1]);
            j -= 1;
        }
        proof {
            let o = indices(order@);
            if j > 0 {
                assert(o[j - 1] == order@[j - 1]);
            }
            assert forall|k: int| j <= k < o.len() implies !before_or_same(
                kb[#[trigger] o[k]],
                kb[n as int],
            ) by {}
            lemma_inserted_at(kb, o, n as int, j as int);
            assert(indices(order@.insert(j as int, n)) =~= o.insert(j as int, n as int));
        }
        order.insert(j, n);
        n += 1;
    }
    order
}

// --- what the order guarantees -----------------------------------------

proof fn lemma_total(a: Seq<u8>, b: Seq<u8>)
    ensures
        before_or_same(a, b) || before_or_same(b, a),
        before_or_same(a, b) && before_or_same(b, a) ==> a == b,
    decreases a.len(),
{
    if a.len() == 0 {
        if b.len() == 0 {
            assert(a =~= b);
        }
    } else if b.len() > 0 && a[0] == b[0] {
        lemma_total(a.skip(1), b.skip(1));
        if a.skip(1) == b.skip(1) {
            assert(a =~= seq![a[0]] + a.skip(1));
            assert(b =~= seq![b[0]] + b.skip(1));
        }
    }
}

proof fn lemma_transitive(a: Seq<u8>, b: Seq<u8>, c: Seq<u8>)
    requires
        before_or_same(a, b),
        before_or_same(b, c),
    ensures
        before_or_same(a, c),
    decreases a.len(),
{
    if a.len() > 0 && b.len() > 0 && c.len() > 0 && a[0] == b[0] && b[0] == c[0] {
        lemma_transitive(a.skip(1), b.skip(1), c.skip(1));
    }
}

/// Whether indices stand in the order of their keys.
pub open spec fn in_order(keys: Seq<Seq<u8>>, order: Seq<int>) -> bool {
    forall|i: int, j: int|
        #![trigger order[i], order[j]]
        0 <= i <= j < order.len() ==> before_or_same(keys[order[i]], keys[order[j]])
}

proof fn lemma_inserted_in_order(keys: Seq<Seq<u8>>, order: Seq<int>, x: int)
    requires
        in_order(keys, order),
    ensures
        in_order(keys, inserted(keys, order, x)),
        inserted(keys, order, x).len() == order.len() + 1,
        forall|i: int|
            0 <= i <= order.len() ==> (#[trigger] inserted(keys, order, x)[i] == x
                || order.contains(inserted(keys, order, x)[i])),
    decreases order.len(),
{
    let r = inserted(keys, order, x);
    lemma_total(keys[x], keys[x]);
    if order.len() == 0 || before_or_same(keys[order.last()], keys[x]) {
        assert forall|i: int, j: int|
            #![trigger r[i], r[j]]
            0 <= i <= j < r.len() implies before_or_same(keys[r[i]], keys[r[j]]) by {
            if j == order.len() && i < j {
                assert(r[i] == order[i]);
                assert(before_or_same(keys[order[i]], keys[order[order.len() - 1]]));
                lemma_transitive(keys[order[i]], keys[order.last()], keys[x]);
            } else if j < order.len() {
                assert(r[i] == order[i] && r[j] == order[j]);
            }
        }
        assert forall|i: int| 0 <= i <= order.len() implies (#[trigger] r[i] == x
            || order.contains(r[i])) by {
            if i < order.len() {
                assert(r[i] == order[i]);
            }
        }
    } else {
        let rest = order.drop_last();
        assert(in_order(keys, rest)) by {
            assert forall|i: int, j: int|
                #![trigger rest[i], rest[j]]
                0 <= i <= j < rest.len() implies before_or_same(keys[rest[i]], keys[rest[j]]) by {
                assert(rest[i] == order[i] && rest[j] == order[j]);
            }
        }
        lemma_inserted_in_order(keys, rest, x);
        let q = inserted(keys, rest, x);
        lemma_total(keys[order.last()], keys[x]);
        assert forall|i: int| 0 <= i < q.len() implies before_or_same(
            keys[#[trigger] q[i]],
            keys[order.last()],
        ) && (q[i] == x || order.contains(q[i])) by {
            if q[i] != x {
                let k = rest.index_of(q[i]);
                assert(order[k] == q[i]);
                assert(order[order.len() - 1] == order.last());
            }
        }
        lemma_total(keys[order.last()], keys[order.last()]);
        assert forall|i: int, j: int|
            #![trigger r[i], r[j]]
            0 <= i <= j < r.len() implies before_or_same(keys[r[i]], keys[r[j]]) by {
            if j < q.len() {
                assert(r[i] == q[i] && r[j] == q[j]);
            } else if i < q.len() {
                assert(r[i] == q[i]);
            }
        }
        assert forall|i: int| 0 <= i <= order.len() implies (#[trigger] r[i] == x
            || order.contains(r[i])) by {
            if i < q.len() {
                assert(r[i] == q[i]);
            } else {
                assert(order[order.len() - 1] == order.last());
            }
        }
    }
}

proof fn lemma_prefix_in_order(keys: Seq<Seq<u8>>, n: nat)
    requires
        n <= keys.len(),
    ensures
        in_order(keys, sorted_prefix(keys, n)),
    decreases n,
{
    if n > 0 {
        lemma_prefix_in_order(keys, (n - 1) as nat);
        lemma_inserted_in_order(keys, sorted_prefix(keys, (n - 1) as nat), n - 1);
    }
}

proof fn lemma_arranged_multiset<A>(items: Seq<A>, keys: Seq<Seq<u8>>, n: nat)
    requires
        n <= items.len() == keys.len(),
    ensures
        sorted_prefix(keys, n).map_values(|i: int| items[i]).to_multiset() == items.take(
            n as int,
        ).to_multiset(),
    decreases n,
{
    broadcast use vstd::seq_lib::group_to_multiset_ensures;
    let at = |i: int| items[i];
    if n == 0 {
        assert(sorted_prefix(keys, 0).map_values(at) =~= items.take(0));
    } else {
        let before = sorted_prefix(keys, (n - 1) as nat);
        lemma_arranged_multiset(items, keys, (n - 1) as nat);
        lemma_inserted_values(items, keys, before, n - 1);
        assert(items.take(n as int) =~= items.take(n - 1).push(items[n - 1]));
    }
}

proof fn lemma_inserted_values<A>(items: Seq<A>, keys: Seq<Seq<u8>>, order: Seq<int>, x: int)
    ensures
        inserted(keys, order, x).map_values(|i: int| items[i]).to_multiset() == order.map_values(
            |i: int| items[i],
        ).to_multiset().insert(items[x]),
    decreases order.len(),
{
    broadcast use vstd::seq_lib::group_to_multiset_ensures;
    let at = |i: int| items[i];
    let r = inserted(keys, order, x);
    if order.len() == 0 || before_or_same(keys[order.last()], keys[x]) {
        assert(r.map_values(at) =~= order.map_values(at).push(items[x]));
    } else {
        let rest = order.drop_last();
        lemma_inserted_values(items, keys, rest, x);
        assert(r.map_values(at) =~= inserted(keys, rest, x).map_values(at).push(
            items[order.last()],
        ));
        assert(order.map_values(at) =~= rest.map_values(at).push(items[order.last()]));
        assert(r.map_values(at).to_multiset() =~= order.map_values(at).to_multiset().insert(
            items[x],
        ));
    }
}

/// Things arranged by their keys.
pub open spec fn arranged<A>(items: Seq<A>, keys: Seq<Seq<u8>>) -> Seq<A> {
    sorted_order(keys).map_values(|i: int| items[i])
}

/// Sorting loses nothing, adds nothing, and puts keys in order.
pub proof fn arranging_sorts<A>(items: Seq<A>, keys: Seq<Seq<u8>>)
    requires
        items.len() == keys.len(),
    ensures
        arranged(items, keys).to_multiset() == items.to_multiset(),
        in_order(keys, sorted_order(keys)),
{
    lemma_arranged_multiset(items, keys, items.len());
    assert(items.take(items.len() as int) =~= items);
    lemma_prefix_in_order(keys, keys.len());
}

/// Whether things stand in the order of their keys.
pub open spec fn sorted_by<A>(s: Seq<A>, key: spec_fn(A) -> Seq<u8>) -> bool {
    forall|i: int, j: int|
        #![trigger s[i], s[j]]
        0 <= i <= j < s.len() ==> before_or_same(key(s[i]), key(s[j]))
}

/// Whether no two things that occur among `s` have the same key, unless they
/// are the same.
pub open spec fn keys_tell_apart<A>(s: Seq<A>, key: spec_fn(A) -> Seq<u8>) -> bool {
    forall|i: int, j: int|
        #![trigger s[i], s[j]]
        0 <= i < s.len() && 0 <= j < s.len() && key(s[i]) == key(s[j]) ==> s[i] == s[j]
}

proof fn lemma_same_multiset_same_order<A>(s: Seq<A>, t: Seq<A>, key: spec_fn(A) -> Seq<u8>)
    requires
        s.to_multiset() == t.to_multiset(),
        sorted_by(s, key),
        sorted_by(t, key),
        keys_tell_apart(s, key),
    ensures
        s == t,
    decreases s.len(),
{
    broadcast use vstd::seq_lib::group_to_multiset_ensures;
    assert(s.len() == s.to_multiset().len());
    assert(t.len() == t.to_multiset().len());
    if s.len() == 0 {
        assert(s =~= t);
    } else {
        let a = s.last();
        let b = t.last();
        assert(s.contains(s[s.len() - 1]));
        assert(t.contains(t[t.len() - 1]));
        assert(s.to_multiset().count(a) > 0);
        assert(t.to_multiset().count(b) > 0);
        assert(t.contains(a));
        assert(s.contains(b));
        let i = t.index_of(a);
        let j = s.index_of(b);
        assert(t[i] == a && s[j] == b);
        assert(before_or_same(key(t[i]), key(t[t.len() - 1])));
        assert(before_or_same(key(s[j]), key(s[s.len() - 1])));
        lemma_total(key(a), key(b));
        assert(s[j] == s[s.len() - 1]);
        let s1 = s.drop_last();
        let t1 = t.drop_last();
        assert(s =~= s1.push(a));
        assert(t =~= t1.push(b));
        assert(s1.to_multiset() =~= s.to_multiset().remove(a));
        assert(t1.to_multiset() =~= t.to_multiset().remove(a));
        assert(sorted_by(s1, key)) by {
            assert forall|i: int, j: int|
                #![trigger s1[i], s1[j]]
                0 <= i <= j < s1.len() implies before_or_same(key(s1[i]), key(s1[j])) by {
                assert(s1[i] == s[i] && s1[j] == s[j]);
            }
        }
        assert(sorted_by(t1, key)) by {
            assert forall|i: int, j: int|
                #![trigger t1[i], t1[j]]
                0 <= i <= j < t1.len() implies before_or_same(key(t1[i]), key(t1[j])) by {
                assert(t1[i] == t[i] && t1[j] == t[j]);
            }
        }
        assert(keys_tell_apart(s1, key)) by {
            assert forall|i: int, j: int|
                #![trigger s1[i], s1[j]]
                0 <= i < s1.len() && 0 <= j < s1.len() && key(s1[i]) == key(
                    s1[j],
                ) implies s1[i] == s1[j] by {
                assert(s1[i] == s[i] && s1[j] == s[j]);
            }
        }
        lemma_same_multiset_same_order(s1, t1, key);
    }
}

/// Sorting does not depend on the order that things came in, as long as
/// their keys tell them apart.
pub proof fn arranging_ignores_order<A>(s: Seq<A>, t: Seq<A>, key: spec_fn(A) -> Seq<u8>)
    requires
        s.to_multiset() == t.to_multiset(),
        keys_tell_apart(s, key),
    ensures
        arranged(s, s.map_values(key)) == arranged(t, t.map_values(key)),
{
    lemma_arranged_sorted(s, key);
    lemma_arranged_sorted(t, key);
    let a = arranged(s, s.map_values(key));
    let b = arranged(t, t.map_values(key));
    sorted_order_in_range(s.map_values(key));
    let order = sorted_order(s.map_values(key));
    assert(keys_tell_apart(a, key)) by {
        assert forall|i: int, j: int|
            #![trigger a[i], a[j]]
            0 <= i < a.len() && 0 <= j < a.len() && key(a[i]) == key(a[j]) implies a[i] == a[j] by {
            assert(a[i] == s[order[i]] && a[j] == s[order[j]]);
        }
    }
    lemma_same_multiset_same_order(a, b, key);
}

proof fn lemma_arranged_sorted<A>(s: Seq<A>, key: spec_fn(A) -> Seq<u8>)
    ensures
        sorted_by(arranged(s, s.map_values(key)), key),
        arranged(s, s.map_values(key)).to_multiset() == s.to_multiset(),
{
    let keys = s.map_values(key);
    let order = sorted_order(keys);
    let a = arranged(s, keys);
    arranging_sorts(s, keys);
    sorted_order_in_range(keys);
    assert forall|i: int, j: int|
        #![trigger a[i], a[j]]
        0 <= i <= j < a.len() implies before_or_same(key(a[i]), key(a[j])) by {
        assert(a[i] == s[order[i]] && a[j] == s[order[j]]);
        assert(keys[order[i]] == key(s[order[i]]));
        assert(keys[order[j]] == key(s[order[j]]));
    }
}

proof fn lemma_inserted_keeps(keys: Seq<Seq<u8>>, order: Seq<int>, x: int, y: int)
    ensures
        order.contains(y) || y == x ==> inserted(keys, order, x).contains(y),
    decreases order.len(),
{
    let r = inserted(keys, order, x);
    if order.len() == 0 || before_or_same(keys[order.last()], keys[x]) {
        if y == x {
            assert(r[order.len() as int] == y);
        } else if order.contains(y) {
            assert(r[order.index_of(y)] == y);
        }
    } else {
        let rest = order.drop_last();
        lemma_inserted_keeps(keys, rest, x, y);
        let q = inserted(keys, rest, x);
        if order.contains(y) || y == x {
            if y == order.last() {
                assert(r[r.len() - 1] == y);
            } else {
                if order.contains(y) {
                    assert(rest[order.index_of(y)] == y);
                }
                assert(r[q.index_of(y)] == y);
            }
        }
    }
}

proof fn lemma_prefix_holds(keys: Seq<Seq<u8>>, n: nat, y: int)
    requires
        0 <= y < n,
    ensures
        sorted_prefix(keys, n).contains(y),
    decreases n,
{
    if y < n - 1 {
        lemma_prefix_holds(keys, (n - 1) as nat, y);
    }
    lemma_inserted_keeps(keys, sorted_prefix(keys, (n - 1) as nat), n - 1, y);
}

/// Every index has its place in the order.
pub proof fn every_index_occurs(keys: Seq<Seq<u8>>)
    ensures
        forall|y: int| 0 <= y < keys.len() ==> sorted_order(keys).contains(y),
{
    assert forall|y: int| 0 <= y < keys.len() implies sorted_order(keys).contains(y) by {
        lemma_prefix_holds(keys, keys.len(), y);
    }
}

} // verus!

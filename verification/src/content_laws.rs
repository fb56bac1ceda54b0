//! What names, numbers, hashes and lists of files guarantee.

use vstd::prelude::*;

use crate::files::{DirOutcome, Listing, Node, PackRefusal, PathEntry, StageStep};
use crate::paths::{PartView, PathPart};

verus! {

// --- numbers and hashes ---------------------------------------------------

/// The ten digits.
pub open spec fn digits() -> Seq<char> {
    seq!['0', '1', '2', '3', '4', '5', '6', '7', '8', '9']
}

/// A number below ten is its digit; any other is what stands for its tens,
/// and the digit that is left. So no number begins with a zero but zero.
pub proof fn numbers_are_written_in_digits(n: nat, d: nat)
    requires
        d < 10,
    ensures
        crate::decimal::decimal(d) == seq![digits()[d as int]],
        n > 0 ==> crate::decimal::decimal(10 * n + d) == crate::decimal::decimal(n).push(
            digits()[d as int],
        ),
{
    assert(n > 0 ==> (10 * n + d) / 10 == n && (10 * n + d) % 10 == d);
}

/// A hash takes bytes one by one: each is mixed into the low byte, and the
/// sum is multiplied by the FNV prime, modulo 2^64. No bytes leave it as it
/// is.
pub proof fn hashes_take_bytes_in_order(h: u64, data: Seq<u8>, b: u8)
    ensures
        crate::signature::hash_bytes(h, Seq::empty()) == h,
        crate::signature::hash_bytes(h, data.push(b)) == ((crate::signature::hash_bytes(h, data) ^ (
        b as u64)) * 1099511628211) % 18446744073709551616,
{
    assert(data.push(b).drop_last() =~= data);
}

/// The hash of content begins at the FNV basis and ends with its kind mixed
/// in.
pub proof fn content_hashes_begin_at_the_basis(kind: u8, data: Seq<u8>)
    ensures
        crate::signature::content_hash_of(kind, data) == crate::signature::hash_bytes(
            14695981039346656037,
            data,
        ) ^ (kind as u64),
{
}

/// The signature of a list takes the bytes of each name, and then its size,
/// one after the other.
pub proof fn signatures_take_names_and_sizes(
    items: Seq<(Seq<char>, u64)>,
    name: Seq<char>,
    size: u64,
)
    ensures
        crate::signature::hash_list(Seq::empty()) == 14695981039346656037,
        crate::signature::hash_list(items.push((name, size))) == ((crate::signature::hash_bytes(
            crate::signature::hash_list(items),
            vstd::utf8::encode_utf8(name),
        ) ^ size) * 1099511628211) % 18446744073709551616,
{
    assert(items.push((name, size)).drop_last() =~= items);
}

/// The id of an offer is the two halves of its hash, mixed.
pub proof fn offer_ids_fold_hashes(high: u32, low: u32)
    ensures
        crate::signature::offer_id_of((high * 4294967296 + low) as u64) == low ^ high,
{
}

/// The hash of a batch is the signature of what it holds, with its kind
/// mixed in; the size that is offered is the bytes that it holds.
pub proof fn batches_are_hashed_by_what_they_hold(batch: Seq<Node>, items: nat, hash: u64)
    ensures
        crate::files::batch_listing(batch) matches Some(l) ==> {
            &&& crate::offers::batch_hash(batch) == Some(
                crate::signature::hash_list(l.files) ^ 3u64,
            )
            &&& l.total <= u64::MAX ==> crate::offers::offer_of(items, batch, hash) == Some(
                crate::offers::batch_offer(items, l.total as u64, hash),
            )
        },
        crate::files::batch_listing(batch) is None ==> crate::offers::batch_hash(batch) is None
            && crate::offers::offer_of(items, batch, hash) is None,
{
}

// --- order ----------------------------------------------------------------

/// Dictionary order: behind the same beginning, the smaller byte comes
/// first, whatever follows; and a text comes before any longer one that it
/// begins.
pub proof fn first_difference_decides(p: Seq<u8>, a: Seq<u8>, b: Seq<u8>, x: u8, y: u8)
    ensures
        x < y ==> crate::order::before_or_same(p + seq![x] + a, p + seq![y] + b),
        x < y ==> !crate::order::before_or_same(p + seq![y] + b, p + seq![x] + a),
        crate::order::before_or_same(p, p + a),
        a.len() > 0 ==> !crate::order::before_or_same(p + a, p),
    decreases p.len(),
{
    if p.len() > 0 {
        let q = p.skip(1);
        first_difference_decides(q, a, b, x, y);
        assert((p + seq![x] + a).skip(1) =~= q + seq![x] + a);
        assert((p + seq![y] + b).skip(1) =~= q + seq![y] + b);
        assert((p + a).skip(1) =~= q + a);
        assert(p.len() == 1 + q.len());
    }
}

/// Whether things with the same key stand in the order in which they came.
pub open spec fn is_stable(keys: Seq<Seq<u8>>, order: Seq<int>) -> bool {
    forall|i: int, j: int|
        #![trigger order[i], order[j]]
        0 <= i < j < order.len() && keys[order[i]] == keys[order[j]] ==> order[i] < order[j]
}

proof fn lemma_inserted_stable(keys: Seq<Seq<u8>>, order: Seq<int>, x: int)
    requires
        is_stable(keys, order),
        forall|i: int| 0 <= i < order.len() ==> #[trigger] order[i] < x,
    ensures
        is_stable(keys, crate::order::inserted(keys, order, x)),
        forall|i: int|
            0 <= i < crate::order::inserted(keys, order, x).len() ==> (
            #[trigger] crate::order::inserted(keys, order, x)[i] == x || order.contains(
                crate::order::inserted(keys, order, x)[i],
            )),
    decreases order.len(),
{
    let r = crate::order::inserted(keys, order, x);
    if order.len() == 0 || crate::order::before_or_same(keys[order.last()], keys[x]) {
        assert forall|i: int| 0 <= i < r.len() implies #[trigger] r[i] == x || order.contains(
            r[i],
        ) by {
            if i < order.len() {
                assert(order[i] == r[i]);
            }
        }
        assert forall|i: int, j: int|
            #![trigger r[i], r[j]]
            0 <= i < j < r.len() && keys[r[i]] == keys[r[j]] implies r[i] < r[j] by {
            assert(r[i] == order[i]);
            if j < order.len() {
                assert(r[j] == order[j]);
            }
        }
    } else {
        let rest = order.drop_last();
        let last = order.last();
        let s = crate::order::inserted(keys, rest, x);
        assert(order[order.len() - 1] == last);
        assert forall|i: int| 0 <= i < rest.len() implies #[trigger] rest[i] < x by {
            assert(rest[i] == order[i]);
        }
        assert forall|i: int, j: int|
            #![trigger rest[i], rest[j]]
            0 <= i < j < rest.len() && keys[rest[i]] == keys[rest[j]] implies rest[i] < rest[j] by {
            assert(rest[i] == order[i] && rest[j] == order[j]);
        }
        lemma_inserted_stable(keys, rest, x);
        assert forall|i: int| 0 <= i < r.len() implies #[trigger] r[i] == x || order.contains(
            r[i],
        ) by {
            if i < s.len() {
                assert(r[i] == s[i]);
                if s[i] != x {
                    let m = rest.index_of(s[i]);
                    assert(order[m] == s[i]);
                }
            }
        }
        first_difference_decides(keys[x], Seq::empty(), Seq::empty(), 0, 0);
        assert(keys[x] + Seq::empty() =~= keys[x]);
        assert forall|i: int, j: int|
            #![trigger r[i], r[j]]
            0 <= i < j < r.len() && keys[r[i]] == keys[r[j]] implies r[i] < r[j] by {
            assert(r[i] == s[i]);
            if j < s.len() {
                assert(r[j] == s[j]);
            } else if s[i] != x {
                let m = rest.index_of(s[i]);
                assert(order[m] == s[i]);
            }
        }
    }
}

proof fn lemma_prefix_stable(keys: Seq<Seq<u8>>, n: nat)
    ensures
        is_stable(keys, crate::order::sorted_prefix(keys, n)),
        forall|i: int|
            0 <= i < crate::order::sorted_prefix(keys, n).len()
                ==> #[trigger] crate::order::sorted_prefix(keys, n)[i] < n,
    decreases n,
{
    if n > 0 {
        let before = crate::order::sorted_prefix(keys, (n - 1) as nat);
        lemma_prefix_stable(keys, (n - 1) as nat);
        lemma_inserted_stable(keys, before, n - 1);
        let r = crate::order::sorted_prefix(keys, n);
        assert forall|i: int| 0 <= i < r.len() implies #[trigger] r[i] < n by {
            if r[i] != n - 1 {
                let m = before.index_of(r[i]);
                assert(before[m] < n - 1);
            }
        }
    }
}

/// Things with the same key keep the order in which they came.
pub proof fn sorting_is_stable(keys: Seq<Seq<u8>>)
    ensures
        is_stable(keys, crate::order::sorted_order(keys)),
{
    lemma_prefix_stable(keys, keys.len());
}

/// The place of a kind of component in the order of kinds.
pub open spec fn place_of_kind(p: PathPart) -> int {
    if p is Prefix {
        0
    } else if p is RootDir {
        1
    } else if p is CurDir {
        2
    } else if p is ParentDir {
        3
    } else {
        4
    }
}

/// Components are in the order of their kinds: a drive, the root, `.`, `..`
/// and names; two drives, or two names, in the order of their bytes.
pub proof fn kinds_of_components_are_in_order(p: PathPart, q: PathPart)
    ensures
        place_of_kind(p) < place_of_kind(q) ==> p@.before_or_same(q@) && !q@.before_or_same(p@),
        p matches PathPart::Normal(a) ==> (q matches PathPart::Normal(b) ==> (p@.before_or_same(q@)
            <==> crate::order::before_or_same(a@, b@))),
        p matches PathPart::Prefix(a) ==> (q matches PathPart::Prefix(b) ==> (p@.before_or_same(q@)
            <==> crate::order::before_or_same(a@, b@))),
        p is RootDir && q is RootDir || p is CurDir && q is CurDir || p is ParentDir
            && q is ParentDir ==> p@ == q@,
{
}

/// Paths are in the order of the first component that differs, whatever
/// follows; and a path comes before what lies under it.
pub proof fn first_component_decides(
    p: Seq<PartView>,
    a: Seq<PartView>,
    b: Seq<PartView>,
    x: PartView,
    y: PartView,
)
    ensures
        x != y ==> (crate::paths::path_before_or_same(p + seq![x] + a, p + seq![y] + b)
            <==> x.before_or_same(y)),
        crate::paths::path_before_or_same(p, p + a),
        a.len() > 0 ==> !crate::paths::path_before_or_same(p + a, p),
    decreases p.len(),
{
    if p.len() > 0 {
        let q = p.skip(1);
        first_component_decides(q, a, b, x, y);
        assert((p + seq![x] + a).skip(1) =~= q + seq![x] + a);
        assert((p + seq![y] + b).skip(1) =~= q + seq![y] + b);
        assert((p + a).skip(1) =~= q + a);
    }
}

// --- what a batch holds ---------------------------------------------------

/// The bytes in a list of files.
pub open spec fn bytes_in(files: Seq<(Seq<char>, u64)>) -> nat
    decreases files.len(),
{
    if files.len() == 0 {
        0
    } else {
        bytes_in(files.drop_last()) + files.last().1 as nat
    }
}

proof fn lemma_bytes_in(a: Seq<(Seq<char>, u64)>, b: Seq<(Seq<char>, u64)>)
    ensures
        bytes_in(a + b) == bytes_in(a) + bytes_in(b),
    decreases b.len(),
{
    if b.len() == 0 {
        assert(a + b =~= a);
    } else {
        lemma_bytes_in(a, b.drop_last());
        assert((a + b).drop_last() =~= a + b.drop_last());
    }
}

/// Whether a name lies under a directory; every name lies under none.
pub open spec fn lies_under(name: Seq<char>, dir: Seq<char>) -> bool {
    dir.len() > 0 ==> name.len() > dir.len() && name.take(dir.len() as int) == dir
        && name[dir.len() as int] == '/'
}

/// A name under a directory is the directory, a slash and the name; under
/// none it is the name alone.
pub proof fn names_under_directories(dir: Seq<char>, name: Seq<char>)
    ensures
        dir.len() > 0 ==> crate::files::relative(dir, name) == dir + seq!['/'] + name,
        dir.len() == 0 ==> crate::files::relative(dir, name) == name,
        lies_under(crate::files::relative(dir, name), dir),
{
    if dir.len() > 0 {
        let rel = crate::files::relative(dir, name);
        assert(rel =~= dir + seq!['/'] + name);
        assert(rel.take(dir.len() as int) =~= dir);
    }
}

/// A file is listed once, under its name, with its size; what is neither a
/// file nor a directory is passed over, and what cannot be read spoils the
/// listing.
pub proof fn single_things_are_listed(e: PathEntry, size: u64, dir: Seq<char>, name: String)
    requires
        e.name == Some(name),
    ensures
        crate::files::listed(Node::File(e, size), dir) matches Some(l) && l.files == seq![
            (crate::files::relative(dir, name@), size),
        ] && l.total == size,
        crate::files::listed(Node::Other(e), dir) matches Some(l) && l.files.len() == 0 && l.total
            == 0,
        crate::files::listed(Node::Unreadable(e), dir) is None,
{
}

/// Things are listed one after the other, in the order given: the files of
/// the next come behind those before it, and its bytes are added.
pub proof fn things_are_listed_in_order(nodes: Seq<Node>, order: Seq<int>, i: int, dir: Seq<char>)
    requires
        0 <= i < nodes.len(),
    ensures
        crate::files::listed_in_order(nodes, Seq::empty(), dir) matches Some(l) && l.files.len()
            == 0 && l.total == 0,
        ({
            let before = crate::files::listed_in_order(nodes, order, dir);
            let next = crate::files::listed(nodes[i], dir);
            let all = crate::files::listed_in_order(nodes, order.push(i), dir);
            &&& all is Some <==> before is Some && next is Some
            &&& all matches Some(l) ==> l.files == before->0.files + next->0.files && l.total
                == before->0.total + next->0.total
        }),
{
    assert(order.push(i).drop_last() =~= order);
}

/// A directory is listed as what is in it, in the order of the keys, under
/// its own name.
pub proof fn directories_are_listed(e: PathEntry, children: Vec<Node>, dir: Seq<char>, name: String)
    requires
        e.name == Some(name),
    ensures
        crate::files::listed(Node::Dir(e, children), dir) == crate::files::listed_in_order(
            children@,
            crate::order::sorted_order(children@.map_values(|n: Node| n.spec_entry().key@)),
            crate::files::relative(dir, name@),
        ),
{
}

proof fn lemma_tree(node: Node, dir: Seq<char>)
    ensures
        crate::files::listed(node, dir) matches Some(l) ==> {
            &&& l.total == bytes_in(l.files)
            &&& forall|k: int|
                0 <= k < l.files.len() ==> lies_under((#[trigger] l.files[k]).0, dir)
        },
    decreases node, 0nat,
{
    let name = node.spec_entry().spec_name();
    let rel = crate::files::relative(dir, name);
    names_under_directories(dir, name);
    match node {
        Node::File(_, size) => {
            let l = crate::files::listed(node, dir)->0;
            assert(l.files.drop_last() =~= Seq::empty());
            assert(bytes_in(l.files.drop_last()) == 0);
        },
        Node::Dir(_, children) => {
            let order = crate::order::sorted_order(crate::files::keys_of(children@));
            lemma_list(children@, order, rel);
            if let Some(l) = crate::files::listed(node, dir) {
                assert forall|k: int| 0 <= k < l.files.len() implies lies_under(
                    (#[trigger] l.files[k]).0,
                    dir,
                ) by {
                    let n = l.files[k].0;
                    assert(lies_under(n, rel));
                    if dir.len() > 0 {
                        assert(n.take(dir.len() as int) =~= n.take(rel.len() as int).take(
                            dir.len() as int,
                        ));
                        assert(n[dir.len() as int] == n.take(rel.len() as int)[dir.len() as int]);
                    }
                }
            }
        },
        _ => {},
    }
}

proof fn lemma_list(nodes: Seq<Node>, order: Seq<int>, dir: Seq<char>)
    ensures
        crate::files::listed_in_order(nodes, order, dir) matches Some(l) ==> {
            &&& l.total == bytes_in(l.files)
            &&& forall|k: int|
                0 <= k < l.files.len() ==> lies_under((#[trigger] l.files[k]).0, dir)
        },
    decreases nodes, order.len(),
{
    if order.len() > 0 && 0 <= order.last() < nodes.len() {
        lemma_list(nodes, order.drop_last(), dir);
        lemma_tree(nodes[order.last()], dir);
        let before = crate::files::listed_in_order(nodes, order.drop_last(), dir);
        let next = crate::files::listed(nodes[order.last()], dir);
        if before is Some && next is Some {
            let a = before->0.files;
            let b = next->0.files;
            lemma_bytes_in(a, b);
            assert forall|k: int| 0 <= k < (a + b).len() implies lies_under(
                (#[trigger] (a + b)[k]).0,
                dir,
            ) by {
                if k < a.len() {
                    assert((a + b)[k] == a[k]);
                } else {
                    assert((a + b)[k] == b[k - a.len()]);
                }
            }
        }
    }
}

/// The size of a batch is the sum of the sizes of the files that it lists,
/// and whatever is in a directory is listed under the directory's name.
pub proof fn listings_add_up(batch: Seq<Node>, node: Node, dir: Seq<char>)
    ensures
        crate::files::batch_listing(batch) matches Some(l) ==> l.total == bytes_in(l.files),
        crate::files::listed(node, dir) matches Some(l) ==> l.total == bytes_in(l.files)
            && forall|k: int| 0 <= k < l.files.len() ==> lies_under((#[trigger] l.files[k]).0, dir),
{
    let order = crate::order::sorted_order(crate::files::keys_of(batch));
    lemma_list(batch, order, Seq::empty());
    lemma_tree(node, dir);
}

/// The signature and the size of a listing are of its files and its bytes.
pub proof fn signatures_are_of_the_files(l: Listing)
    requires
        l.total <= u64::MAX,
    ensures
        crate::files::signature_of(l).0 == crate::signature::hash_list(l.files),
        crate::files::signature_of(l).1 == l.total,
{
}

/// A staged batch is named after its time.
pub proof fn stages_are_named_after_their_time(millis: nat)
    ensures
        crate::files::stage_name(millis) == seq!['b', 'w', '-'] + crate::decimal::decimal(millis),
{
    reveal_strlit("bw-");
    assert("bw-"@ =~= seq!['b', 'w', '-']);
}

// --- the file drop --------------------------------------------------------

/// A file drop is its header, each path with a zero behind it, and one more
/// zero. The header is 20 bytes: where the paths begin, and that they are in
/// UTF-16.
pub proof fn file_drops(paths: Seq<Seq<char>>, p: Seq<char>)
    ensures
        crate::hdrop::file_drop(paths) == seq![
            20u8, 0, 0, 0, 0, 0, 0, 0, 0, 0, 0, 0, 0, 0, 0, 0, 1, 0, 0, 0,
        ] + crate::hdrop::path_list(paths) + seq![0u8, 0],
        crate::hdrop::path_list(Seq::empty()) == Seq::<u8>::empty(),
        crate::hdrop::path_list(paths.push(p)) == crate::hdrop::path_list(paths)
            + crate::hdrop::utf16_le(p) + seq![0u8, 0],
{
    assert(paths.push(p).drop_last() =~= paths);
    assert(crate::hdrop::drop_header() =~= seq![
        20u8, 0, 0, 0, 0, 0, 0, 0, 0, 0, 0, 0, 0, 0, 0, 0, 1, 0, 0, 0,
    ]);
    assert(crate::le::u16_le(0) =~= seq![0u8, 0]);
}

/// A text in UTF-16 is its characters, one after the other: a character of
/// the first 65536 as two bytes, the low one first, and any other as four,
/// of which the first two hold the upper ten bits of what exceeds 65536 and
/// the last two the lower ten.
pub proof fn characters_in_utf16(s: Seq<char>, c: char)
    ensures
        crate::hdrop::utf16_le(Seq::empty()) == Seq::<u8>::empty(),
        crate::hdrop::utf16_le(s.push(c)) == crate::hdrop::utf16_le(s) + crate::hdrop::utf16_le(
            seq![c],
        ),
        ({
            let b = crate::hdrop::utf16_le(seq![c]);
            if (c as int) < 65536 {
                b.len() == 2 && b[0] + 256 * b[1] == c as int
            } else {
                let high = b[0] + 256 * b[1] - 0xd800;
                let low = b[2] + 256 * b[3] - 0xdc00;
                &&& b.len() == 4
                &&& 0 <= high < 1024
                &&& 0 <= low < 1024
                &&& c as int == 65536 + 1024 * high + low
            }
        }),
{
    assert(s.push(c).drop_last() =~= s);
    assert(seq![c].drop_last() =~= Seq::empty());
    let u = crate::hdrop::utf16_units(c);
    let b = crate::hdrop::utf16_le(seq![c]);
    let none = crate::hdrop::utf16_le(Seq::empty());
    assert(none =~= Seq::empty());
    assert(b =~= crate::hdrop::units_le(u));
    assert(crate::hdrop::utf16_le(s.push(c)) =~= crate::hdrop::utf16_le(s) + b);
    let v = u.drop_last();
    assert(crate::hdrop::units_le(Seq::empty()) =~= Seq::empty());
    if (c as int) < 65536 {
        assert(v =~= Seq::empty());
        assert(b =~= crate::le::u16_le(u[0]));
        crate::le::u16_is_written_low_byte_first(u[0], 0, 0);
    } else {
        assert(v.drop_last() =~= Seq::empty());
        assert(crate::hdrop::units_le(v) =~= crate::le::u16_le(u[0]));
        assert(b =~= crate::le::u16_le(u[0]) + crate::le::u16_le(u[1]));
        crate::le::u16_is_written_low_byte_first(u[0], 0, 0);
        crate::le::u16_is_written_low_byte_first(u[1], 0, 0);
    }
}

// --- palettes -------------------------------------------------------------

/// The palettes of a PNG are looked at chunk by chunk: one whose length is
/// no multiple of three breaks off inside a color. What lies behind the
/// first image data, or breaks off itself, is not looked at; nor is a
/// palette of a picture that is not made of indices.
pub proof fn palettes_are_looked_at(png: Seq<u8>, at: int)
    requires
        0 <= at,
    ensures
        ({
            let n = 16777216 * png[at] + 65536 * png[at + 1] + 256 * png[at + 2] + png[at + 3];
            let t = seq![png[at + 4], png[at + 5], png[at + 6], png[at + 7]];
            let data = seq![0x49u8, 0x44, 0x41, 0x54];
            let palette = seq![0x50u8, 0x4c, 0x54, 0x45];
            &&& at + 12 > png.len() ==> crate::images::whole_palettes(png, at)
            &&& at + 12 <= png.len() && t == data ==> crate::images::whole_palettes(png, at)
            &&& at + 12 <= png.len() && t == palette && n % 3 != 0
                ==> !crate::images::whole_palettes(png, at)
            &&& at + 12 <= png.len() && t != data && (t != palette || n % 3 == 0) ==> (
            crate::images::whole_palettes(png, at) <==> at + 12 + n > png.len()
                || crate::images::whole_palettes(png, at + 12 + n))
        }),
        png.len() <= 25 || png[25] != 3 ==> crate::images::palette_is_whole(png),
        png.len() > 25 && png[25] == 3 ==> (crate::images::palette_is_whole(png)
            <==> crate::images::whole_palettes(png, 8)),
        crate::images::palette_is_whole(png) ==> crate::images::bmp_for(png)
            == crate::images::bmp_of_png(png),
        !crate::images::palette_is_whole(png) ==> crate::images::bmp_for(png) is None,
{
    let t = seq![png[at + 4], png[at + 5], png[at + 6], png[at + 7]];
    let data = seq![0x49u8, 0x44, 0x41, 0x54];
    let palette = seq![0x50u8, 0x4c, 0x54, 0x45];
    assert(t == data ==> t[0] == data[0] && t[1] == data[1] && t[2] == data[2] && t[3] == data[3]);
    assert(t == palette ==> t[0] == palette[0] && t[1] == palette[1] && t[2] == palette[2] && t[3]
        == palette[3]);
    if crate::images::is_chunk(png, at, crate::images::IDAT) {
        assert(t =~= data);
    }
    if crate::images::is_chunk(png, at, crate::images::PLTE) {
        assert(t =~= palette);
    }
}

// --- refusals -------------------------------------------------------------

/// Why a batch is not packed, in words; sizes are in whole MiB.
pub proof fn refusals_in_words(total: u64, cap: u64, path: String)
    ensures
        PackRefusal::Unreadable.spec_text() == "a path in the batch is unreadable"@,
        PackRefusal::OverCap(total, cap).spec_text() == "batch is "@ + crate::decimal::decimal(
            total as nat / 1048576,
        ) + "MB, over the "@ + crate::decimal::decimal(cap as nat / 1048576)
            + "MB channel cap"@,
        PackRefusal::NoBasename(path).spec_text() == "no basename for "@ + path@,
{
}

/// A batch is packed exactly if everything in it is readable and its files
/// hold no more bytes than allowed; one of just so many bytes is.
pub proof fn batches_within_the_cap_are_packed(batch: Seq<Node>, cap: u64)
    ensures
        crate::files::batch_listing(batch) matches Some(l) ==> bytes_in(l.files) <= u64::MAX ==> {
            &&& bytes_in(l.files) <= cap ==> crate::files::packing(batch, cap) is Ok
            &&& bytes_in(l.files) > cap ==> crate::files::packing(batch, cap) == Err::<
                (),
                PackRefusal,
            >(PackRefusal::OverCap(bytes_in(l.files) as u64, cap))
        },
        crate::files::packing(batch, cap) == Err::<(), PackRefusal>(PackRefusal::Unreadable) <==> !(
        forall|i: int| 0 <= i < batch.len() ==> crate::files::readable(#[trigger] batch[i])),
{
    let order = crate::order::sorted_order(crate::files::keys_of(batch));
    lemma_list(batch, order, Seq::empty());
    crate::files::signature_needs_every_path(batch);
}

/// A directory that was there before is never used: its name passes on to
/// that of the next millisecond, which is another. A fresh one is used, and
/// a failure ends it.
pub proof fn only_fresh_directories_are_used(millis: u128)
    ensures
        crate::files::stage_step(millis, DirOutcome::Made) == StageStep::Use,
        crate::files::stage_step(millis, DirOutcome::Failed) == StageStep::Fail,
        millis < u128::MAX ==> (crate::files::stage_step(millis, DirOutcome::Taken) matches
            StageStep::Try(next) && next == millis + 1 && crate::files::stage_name(next as nat)
            != crate::files::stage_name(millis as nat)),
        crate::files::stage_step(millis, DirOutcome::Taken) != StageStep::Use,
{
    crate::files::stage_names_are_distinct(millis as nat, millis as nat + 1);
}

/// Staged batches are kept for three days.
pub proof fn stages_are_kept_for_three_days()
    ensures
        crate::files::STAGE_MAX_AGE == 3 * 24 * 3600 * 1_000_000_000,
{
}

} // verus!

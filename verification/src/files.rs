//! File batches: what a clipboard's file list holds, cheap change
//! signatures, and the limits a batch must keep to be sent.
//!
//! Entries are named by their basename (directories recurse under their
//! basename), so a received batch stages flat and readable.

use vstd::prelude::*;

use crate::decimal::push_decimal;
use crate::order::sort_order;
use crate::signature::list_signature;
use crate::text::push_str;

verus! {

/// Staged batches older than this are deleted (ns): three days.
pub const STAGE_MAX_AGE: u64 = 259_200_000_000_000;

/// A path: its sort key (`paths::path_key`) and its basename, if it has one.
/// Paths are sorted by the byte order of their keys.
pub struct PathEntry {
    pub key: Vec<u8>,
    pub name: Option<String>,
}

/// A file tree, as it was found on disk.
pub enum Node {
    /// A file and its size.
    File(PathEntry, u64),
    Dir(PathEntry, Vec<Node>),
    /// Sockets, symlink oddities: skipped.
    Other(PathEntry),
    /// Something that could not be looked at.
    Unreadable(PathEntry),
}

impl PathEntry {
    pub open spec fn spec_name(self) -> Seq<char> {
        match self.name {
            Some(n) => n@,
            None => Seq::empty(),
        }
    }
}

impl Node {
    pub open spec fn spec_entry(self) -> PathEntry {
        match self {
            Node::File(e, _) => e,
            Node::Dir(e, _) => e,
            Node::Other(e) => e,
            Node::Unreadable(e) => e,
        }
    }

    pub fn entry(&self) -> (e: &PathEntry)
        ensures
            *e == self.spec_entry(),
    {
        match self {
            Node::File(e, _) => e,
            Node::Dir(e, _) => e,
            Node::Other(e) => e,
            Node::Unreadable(e) => e,
        }
    }
}

/// The sort keys of a list of nodes.
pub open spec fn keys_of(nodes: Seq<Node>) -> Seq<Seq<u8>> {
    nodes.map_values(|n: Node| n.spec_entry().key@)
}

/// What a tree holds: the files by their relative names, and the bytes in
/// them.
#[verifier::ext_equal]
pub struct Listing {
    pub files: Seq<(Seq<char>, u64)>,
    pub total: nat,
}

impl Listing {
    pub open spec fn empty() -> Listing {
        Listing { files: Seq::empty(), total: 0 }
    }

    pub open spec fn plus(self, more: Listing) -> Listing {
        Listing { files: self.files + more.files, total: self.total + more.total }
    }
}

/// The name of something under a directory.
pub open spec fn relative(prefix: Seq<char>, name: Seq<char>) -> Seq<char> {
    if prefix.len() == 0 {
        name
    } else {
        prefix.push('/') + name
    }
}

/// What a tree holds: nothing if any part of it is unreadable.
pub open spec fn listed(node: Node, prefix: Seq<char>) -> Option<Listing>
    decreases node, 0nat,
{
    let rel = relative(prefix, node.spec_entry().spec_name());
    match node {
        Node::File(_, size) => Some(Listing { files: seq![(rel, size)], total: size as nat }),
        Node::Dir(_, children) => listed_in_order(
            children@,
            crate::order::sorted_order(keys_of(children@)),
            rel,
        ),
        Node::Other(_) => Some(Listing::empty()),
        Node::Unreadable(_) => None,
    }
}

/// What some nodes hold, one after the other.
pub open spec fn listed_in_order(nodes: Seq<Node>, order: Seq<int>, prefix: Seq<char>) -> Option<
    Listing,
>
    decreases nodes, order.len(),
{
    if order.len() == 0 {
        Some(Listing::empty())
    } else if 0 <= order.last() < nodes.len() {
        match (
            listed_in_order(nodes, order.drop_last(), prefix),
            listed(nodes[order.last()], prefix),
        ) {
            (Some(before), Some(last)) => Some(before.plus(last)),
            _ => None,
        }
    } else {
        None
    }
}

/// What a batch holds, in the order of its paths.
pub open spec fn batch_listing(batch: Seq<Node>) -> Option<Listing> {
    listed_in_order(batch, crate::order::sorted_order(keys_of(batch)), Seq::empty())
}

fn sort_nodes(nodes: &[Node]) -> (order: Vec<usize>)
    ensures
        crate::order::indices(order@) == crate::order::sorted_order(keys_of(nodes@)),
        order@.len() == nodes@.len(),
        forall|i: int| 0 <= i < order@.len() ==> (#[trigger] order@[i]) < nodes@.len(),
{
    let mut keys: Vec<Vec<u8>> = Vec::new();
    let mut i: usize = 0;
    while i < nodes.len()
        invariant
            i <= nodes@.len(),
            keys@.len() == i,
            forall|j: int| 0 <= j < i ==> (#[trigger] keys@[j])@ == keys_of(nodes@)[j],
        decreases nodes.len() - i,
    {
        keys.push(nodes[i].entry().key.clone());
        i += 1;
    }
    assert(crate::order::key_bytes(keys@) =~= keys_of(nodes@));
    sort_order(keys.as_slice())
}

fn relative_name(prefix: &str, entry: &PathEntry) -> (s: String)
    ensures
        s@ == relative(prefix@, entry.spec_name()),
{
    let mut s = String::new();
    if prefix.unicode_len() > 0 {
        push_str(&mut s, prefix);
        s.push('/');
    }
    if let Some(name) = &entry.name {
        push_str(&mut s, name.as_str());
    }
    assert(s@ =~= relative(prefix@, entry.spec_name()));
    s
}

/// List a tree: append its files to `out` and return the bytes in it, or
/// nothing if any part of it is unreadable.
fn walk(node: &Node, out: &mut Vec<(String, u64)>, prefix: &str) -> (r: Option<u64>)
    ensures
        match listed(*node, prefix@) {
            Some(l) => r == Some((l.total % 0x1_0000_0000_0000_0000) as u64)
                && crate::signature::entries(final(out)@) == crate::signature::entries(old(out)@)
                + l.files,
            None => r is None,
        },
    decreases node,
{
    match node {
        Node::File(entry, size) => {
            let rel = relative_name(prefix, entry);
            let ghost before = crate::signature::entries(out@);
            let ghost name = rel@;
            out.push((rel, *size));
            assert(crate::signature::entries(out@) =~= before + seq![(name, *size)]);
            Some(*size)
        },
        Node::Dir(entry, children) => {
            let rel = relative_name(prefix, entry);
            let order = sort_nodes(children.as_slice());
            let ghost all = crate::order::indices(order@);
            let mut total: u64 = 0;
            let mut i: usize = 0;
            assert(crate::signature::entries(out@) =~= crate::signature::entries(old(out)@)
                + Listing::empty().files);
            while i < order.len()
                invariant
                    i <= order@.len(),
                    order@.len() == children@.len(),
                    forall|k: int| 0 <= k < order@.len() ==> (#[trigger] order@[k])
                        < children@.len(),
                    all == crate::order::indices(order@),
                    all == crate::order::sorted_order(keys_of(children@)),
                    *node == Node::Dir(*entry, *children),
                    rel@ == relative(prefix@, entry.spec_name()),
                    listed_in_order(children@, all.take(i as int), rel@) matches Some(l)
                        && total == l.total % 0x1_0000_0000_0000_0000
                        && crate::signature::entries(out@) == crate::signature::entries(
                        old(out)@,
                    ) + l.files,
                decreases order.len() - i,
            {
                let ghost here = all.take(i + 1);
                let ghost before = listed_in_order(children@, all.take(i as int), rel@)->0;
                assert(here.drop_last() =~= all.take(i as int));
                assert(here.last() == order@[i as int]);
                let child = &children[order[i]];
                match walk(child, out, rel.as_str()) {
                    Some(n) => {
                        proof {
                            let last = listed(*child, rel@)->0;
                            assert(crate::signature::entries(out@)
                                =~= crate::signature::entries(old(out)@) + before.plus(
                                last,
                            ).files);
                        }
                        total = total.wrapping_add(n);
                    },
                    None => {
                        proof {
                            lemma_unreadable_stays(children@, all, i + 1, rel@);
                        }
                        return None;
                    },
                }
                i += 1;
            }
            assert(all.take(i as int) =~= all);
            Some(total)
        },
        Node::Other(_) => {
            assert(crate::signature::entries(out@) =~= crate::signature::entries(old(out)@)
                + Listing::empty().files);
            Some(0)
        },
        Node::Unreadable(_) => None,
    }
}

/// Once something in a list is unreadable, the whole list is.
proof fn lemma_unreadable_stays(nodes: Seq<Node>, order: Seq<int>, n: int, prefix: Seq<char>)
    requires
        0 <= n <= order.len(),
        listed_in_order(nodes, order.take(n), prefix) is None,
    ensures
        listed_in_order(nodes, order, prefix) is None,
    decreases order.len() - n,
{
    if n < order.len() {
        assert(order.take(n + 1).drop_last() =~= order.take(n));
        lemma_unreadable_stays(nodes, order, n + 1, prefix);
    } else {
        assert(order.take(n) =~= order);
    }
}

/// Change signature and total byte size of a listing.
pub open spec fn signature_of(l: Listing) -> (u64, u64) {
    (crate::signature::hash_list(l.files), (l.total % 0x1_0000_0000_0000_0000) as u64)
}

/// Change signature and total byte size for a batch of paths.
/// Returns None if any path is unreadable.
pub fn batch_signature(batch: &[Node]) -> (r: Option<(u64, u64)>)
    ensures
        match batch_listing(batch@) {
            Some(l) => r == Some(signature_of(l)),
            None => r is None,
        },
{
    let mut items: Vec<(String, u64)> = Vec::new();
    let mut total: u64 = 0;
    let order = sort_nodes(batch);
    let ghost all = crate::order::indices(order@);
    let ghost top = Seq::<char>::empty();
    let prefix = String::new();
    let mut i: usize = 0;
    assert(crate::signature::entries(items@) =~= Listing::empty().files);
    while i < order.len()
        invariant
            i <= order@.len(),
            order@.len() == batch@.len(),
            forall|k: int| 0 <= k < order@.len() ==> (#[trigger] order@[k]) < batch@.len(),
            all == crate::order::indices(order@),
            all == crate::order::sorted_order(keys_of(batch@)),
            prefix@ == top,
            top == Seq::<char>::empty(),
            listed_in_order(batch@, all.take(i as int), top) matches Some(l) && total == l.total
                % 0x1_0000_0000_0000_0000 && crate::signature::entries(items@) == l.files,
        decreases order.len() - i,
    {
        let ghost here = all.take(i + 1);
        assert(here.drop_last() =~= all.take(i as int));
        assert(here.last() == order@[i as int]);
        match walk(&batch[order[i]], &mut items, prefix.as_str()) {
            Some(n) => {
                total = total.wrapping_add(n);
            },
            None => {
                proof {
                    lemma_unreadable_stays(batch@, all, i + 1, top);
                }
                return None;
            },
        }
        i += 1;
    }
    assert(all.take(i as int) =~= all);
    Some((list_signature(items.into_iter()), total))
}

/// Why a batch is not packed.
pub enum PackRefusal {
    /// A path in the batch is unreadable.
    Unreadable,
    /// The batch has more bytes than the channel takes.
    OverCap(u64, u64),
    /// A path has no basename.
    NoBasename(String),
}

impl PackRefusal {
    pub open spec fn spec_text(self) -> Seq<char> {
        match self {
            PackRefusal::Unreadable => "a path in the batch is unreadable"@,
            PackRefusal::OverCap(total, cap) => "batch is "@ + crate::decimal::decimal(
                (total / 0x10_0000) as nat,
            ) + "MB, over the "@ + crate::decimal::decimal((cap / 0x10_0000) as nat)
                + "MB channel cap"@,
            PackRefusal::NoBasename(path) => "no basename for "@ + path@,
        }
    }

    /// The refusal in words.
    pub fn text(&self) -> (s: String)
        ensures
            s@ == self.spec_text(),
    {
        let mut s = String::new();
        match self {
            PackRefusal::Unreadable => {
                push_str(&mut s, "a path in the batch is unreadable");
            },
            PackRefusal::OverCap(total, cap) => {
                push_str(&mut s, "batch is ");
                push_decimal(&mut s, (*total / 0x10_0000) as u128);
                push_str(&mut s, "MB, over the ");
                push_decimal(&mut s, (*cap / 0x10_0000) as u128);
                push_str(&mut s, "MB channel cap");
            },
            PackRefusal::NoBasename(path) => {
                push_str(&mut s, "no basename for ");
                push_str(&mut s, path.as_str());
            },
        }
        assert(s@ =~= self.spec_text());
        s
    }
}

/// Whether a batch may be packed, or why not.
pub open spec fn packing(batch: Seq<Node>, cap: u64) -> Result<(), PackRefusal> {
    match batch_listing(batch) {
        None => Err(PackRefusal::Unreadable),
        Some(l) => {
            let total = signature_of(l).1;
            if total > cap {
                Err(PackRefusal::OverCap(total, cap))
            } else {
                Ok(())
            }
        },
    }
}

/// Whether a batch may be packed: every path readable, and no more than
/// `cap` bytes.
pub fn pack_check(batch: &[Node], cap: u64) -> (r: Result<(), PackRefusal>)
    ensures
        r == packing(batch@, cap),
{
    match batch_signature(batch) {
        None => Err(PackRefusal::Unreadable),
        Some((_, total)) => {
            if total > cap {
                Err(PackRefusal::OverCap(total, cap))
            } else {
                Ok(())
            }
        },
    }
}

/// The name under which a path of a batch is packed: its basename.
pub fn packed_name(entry: &PathEntry, shown: &str) -> (r: Result<String, PackRefusal>)
    ensures
        match entry.name {
            Some(n) => r matches Ok(s) && s@ == n@,
            None => r matches Err(PackRefusal::NoBasename(p)) && p@ == shown@,
        },
{
    match &entry.name {
        Some(n) => Ok(n.clone()),
        None => {
            let mut p = String::new();
            push_str(&mut p, shown);
            assert(p@ =~= shown@);
            Err(PackRefusal::NoBasename(p))
        },
    }
}

/// The directory that a batch is staged in, named by the time of its
/// arrival (ms).
pub open spec fn stage_name(millis: nat) -> Seq<char> {
    "bw-"@ + crate::decimal::decimal(millis)
}

pub fn stage_dir_name(millis: u128) -> (s: String)
    ensures
        s@ == stage_name(millis as nat),
{
    let mut s = String::new();
    push_str(&mut s, "bw-");
    push_decimal(&mut s, millis);
    assert(s@ =~= stage_name(millis as nat));
    s
}

/// How making a directory went.
#[derive(Debug, Clone, Copy, PartialEq, Eq, Structural)]
pub enum DirOutcome {
    Made,
    /// There is something of that name already.
    Taken,
    Failed,
}

/// What to do about the directory for a batch.
#[derive(Debug, Clone, Copy, PartialEq, Eq, Structural)]
pub enum StageStep {
    /// It is there, and fresh.
    Use,
    /// Try the name for this time (ms).
    Try(u128),
    Fail,
}

/// What follows trying to make the directory for a time.
pub open spec fn stage_step(millis: u128, outcome: DirOutcome) -> StageStep {
    match outcome {
        DirOutcome::Made => StageStep::Use,
        DirOutcome::Taken => if millis < u128::MAX {
            StageStep::Try((millis + 1) as u128)
        } else {
            StageStep::Fail
        },
        DirOutcome::Failed => StageStep::Fail,
    }
}

/// Decide after trying to make the directory for a time: a batch never goes
/// into a directory that was there before, so a taken name passes on to the
/// next.
pub fn after_create(millis: u128, outcome: DirOutcome) -> (s: StageStep)
    ensures
        s == stage_step(millis, outcome),
{
    match outcome {
        DirOutcome::Made => StageStep::Use,
        DirOutcome::Taken => {
            if millis < u128::MAX {
                StageStep::Try(millis + 1)
            } else {
                StageStep::Fail
            }
        },
        DirOutcome::Failed => StageStep::Fail,
    }
}

/// The staged paths in the order in which they go on the clipboard; an empty
/// batch is refused.
pub fn staged_order(tops: &[Node]) -> (r: Result<Vec<usize>, &'static str>)
    ensures
        match r {
            Ok(order) => tops@.len() > 0 && crate::order::indices(order@)
                == crate::order::sorted_order(keys_of(tops@)),
            Err(e) => tops@.len() == 0 && e@ == "received batch was empty"@,
        },
{
    if tops.len() == 0 {
        return Err("received batch was empty");
    }
    Ok(sort_nodes(tops))
}

/// Whether a staged batch is to be deleted. One whose age is not known
/// stays.
pub fn is_stale(age: Option<u64>, max_age: u64) -> (b: bool)
    ensures
        b == (age matches Some(a) && a > max_age),
{
    match age {
        Some(a) => a > max_age,
        None => false,
    }
}

// --- what batches guarantee --------------------------------------------

/// Different times have different directories: the next name that is tried
/// is another one.
pub proof fn stage_names_are_distinct(a: nat, b: nat)
    requires
        a != b,
    ensures
        stage_name(a) != stage_name(b),
{
    crate::decimal::decimal_round_trip(a);
    crate::decimal::decimal_round_trip(b);
    let n = "bw-"@.len() as int;
    assert(stage_name(a).skip(n) =~= crate::decimal::decimal(a));
    assert(stage_name(b).skip(n) =~= crate::decimal::decimal(b));
}

/// Whether a tree can be looked at throughout.
pub open spec fn readable(node: Node) -> bool
    decreases node,
{
    match node {
        Node::Dir(_, children) => forall|i: int|
            0 <= i < children@.len() ==> readable(#[trigger] children@[i]),
        Node::Unreadable(_) => false,
        _ => true,
    }
}

proof fn lemma_listed_readable(node: Node, prefix: Seq<char>)
    ensures
        listed(node, prefix) is Some <==> readable(node),
    decreases node,
{
    match node {
        Node::Dir(e, children) => {
            let rel = relative(prefix, e.spec_name());
            assert forall|i: int| 0 <= i < children@.len() implies (listed(
                #[trigger] children@[i],
                rel,
            ) is Some <==> readable(children@[i])) by {
                lemma_listed_readable(children@[i], rel);
            }
            lemma_list_readable(children@, rel);
        },
        _ => {},
    }
}

proof fn lemma_list_readable(nodes: Seq<Node>, prefix: Seq<char>)
    requires
        forall|i: int|
            0 <= i < nodes.len() ==> (listed(#[trigger] nodes[i], prefix) is Some <==> readable(
                nodes[i],
            )),
    ensures
        listed_in_order(nodes, crate::order::sorted_order(keys_of(nodes)), prefix) is Some <==> (
        forall|i: int| 0 <= i < nodes.len() ==> readable(#[trigger] nodes[i])),
{
    let keys = keys_of(nodes);
    let order = crate::order::sorted_order(keys);
    crate::order::sorted_order_in_range(keys);
    lemma_order_readable(nodes, order, prefix);
    crate::order::every_index_occurs(keys);
    if forall|k: int| 0 <= k < order.len() ==> readable(nodes[#[trigger] order[k]]) {
        assert forall|i: int| 0 <= i < nodes.len() implies readable(#[trigger] nodes[i]) by {
            assert(order.contains(i));
            let k = order.index_of(i);
            assert(readable(nodes[order[k]]));
        }
    }
}

proof fn lemma_order_readable(nodes: Seq<Node>, order: Seq<int>, prefix: Seq<char>)
    requires
        forall|k: int| 0 <= k < order.len() ==> 0 <= #[trigger] order[k] < nodes.len(),
        forall|i: int|
            0 <= i < nodes.len() ==> (listed(#[trigger] nodes[i], prefix) is Some <==> readable(
                nodes[i],
            )),
    ensures
        listed_in_order(nodes, order, prefix) is Some <==> (forall|k: int|
            0 <= k < order.len() ==> readable(nodes[#[trigger] order[k]])),
    decreases order.len(),
{
    if order.len() > 0 {
        let rest = order.drop_last();
        assert forall|k: int| 0 <= k < rest.len() implies 0 <= #[trigger] rest[k]
            < nodes.len() by {
            assert(rest[k] == order[k]);
        }
        lemma_order_readable(nodes, rest, prefix);
        assert(order[order.len() - 1] == order.last());
        if listed_in_order(nodes, order, prefix) is Some {
            assert forall|k: int| 0 <= k < order.len() implies readable(
                nodes[#[trigger] order[k]],
            ) by {
                if k < rest.len() {
                    assert(rest[k] == order[k]);
                }
            }
        }
        if forall|k: int| 0 <= k < order.len() ==> readable(nodes[#[trigger] order[k]]) {
            assert forall|k: int| 0 <= k < rest.len() implies readable(
                nodes[#[trigger] rest[k]],
            ) by {
                assert(rest[k] == order[k]);
            }
        }
    }
}

/// A batch has a signature exactly when every path in it, and everything
/// under those that are directories, is readable.
pub proof fn signature_needs_every_path(batch: Seq<Node>)
    ensures
        batch_listing(batch) is Some <==> (forall|i: int|
            0 <= i < batch.len() ==> readable(#[trigger] batch[i])),
{
    assert forall|i: int| 0 <= i < batch.len() implies (listed(
        #[trigger] batch[i],
        Seq::empty(),
    ) is Some <==> readable(batch[i])) by {
        lemma_listed_readable(batch[i], Seq::empty());
    }
    lemma_list_readable(batch, Seq::empty());
}

/// The sort key of a node.
pub open spec fn node_key() -> spec_fn(Node) -> Seq<u8> {
    |n: Node| n.spec_entry().key@
}

proof fn lemma_listed_arranged(s: Seq<Node>, o: Seq<int>, prefix: Seq<char>)
    requires
        forall|k: int| 0 <= k < o.len() ==> 0 <= #[trigger] o[k] < s.len(),
    ensures
        listed_in_order(s, o, prefix) == listed_in_order(
            o.map_values(|i: int| s[i]),
            Seq::new(o.len(), |i: int| i),
            prefix,
        ),
    decreases o.len(),
{
    if o.len() > 0 {
        let rest = o.drop_last();
        let a = o.map_values(|i: int| s[i]);
        let b = rest.map_values(|i: int| s[i]);
        assert forall|k: int| 0 <= k < rest.len() implies 0 <= #[trigger] rest[k] < s.len() by {
            assert(rest[k] == o[k]);
        }
        lemma_listed_arranged(s, rest, prefix);
        let up = Seq::new(o.len(), |i: int| i);
        assert(up.drop_last() =~= Seq::new(rest.len(), |i: int| i));
        lemma_listed_prefix(a, b, up.drop_last(), prefix);
        assert(o[o.len() - 1] == o.last());
        assert(a[up.last()] == s[o.last()]);
    }
}

proof fn lemma_listed_prefix(a: Seq<Node>, b: Seq<Node>, o: Seq<int>, prefix: Seq<char>)
    requires
        b.len() <= a.len(),
        forall|i: int| 0 <= i < b.len() ==> a[i] == b[i],
        forall|k: int| 0 <= k < o.len() ==> 0 <= #[trigger] o[k] < b.len(),
    ensures
        listed_in_order(a, o, prefix) == listed_in_order(b, o, prefix),
    decreases o.len(),
{
    if o.len() > 0 {
        assert forall|k: int| 0 <= k < o.drop_last().len() implies 0 <= #[trigger] o.drop_last()[k]
            < b.len() by {
            assert(o.drop_last()[k] == o[k]);
        }
        lemma_listed_prefix(a, b, o.drop_last(), prefix);
        assert(o[o.len() - 1] == o.last());
    }
}

/// The signature of a batch does not depend on the order in which its paths
/// are given, as long as their keys tell them apart.
pub proof fn signature_ignores_path_order(a: Seq<Node>, b: Seq<Node>)
    requires
        a.to_multiset() == b.to_multiset(),
        crate::order::keys_tell_apart(a, node_key()),
    ensures
        batch_listing(a) == batch_listing(b),
{
    broadcast use vstd::seq_lib::group_to_multiset_ensures;
    assert(a.len() == a.to_multiset().len());
    assert(b.len() == b.to_multiset().len());
    assert(keys_of(a) =~= a.map_values(node_key()));
    assert(keys_of(b) =~= b.map_values(node_key()));
    crate::order::arranging_ignores_order(a, b, node_key());
    crate::order::sorted_order_in_range(keys_of(a));
    crate::order::sorted_order_in_range(keys_of(b));
    lemma_listed_arranged(a, crate::order::sorted_order(keys_of(a)), Seq::empty());
    lemma_listed_arranged(b, crate::order::sorted_order(keys_of(b)), Seq::empty());
}

} // verus!

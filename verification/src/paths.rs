//! Sort keys for paths: byte strings whose order is the order of the paths
//! that they stand for.

use vstd::prelude::*;

verus! {

/// One component of a path. Kinds sort in this order, and components of one
/// kind by their bytes.
pub enum PathPart {
    /// A drive or a share.
    Prefix(Vec<u8>),
    RootDir,
    CurDir,
    ParentDir,
    /// A name.
    Normal(Vec<u8>),
}

/// A component by the rank of its kind and its bytes.
#[verifier::ext_equal]
pub struct PartView {
    pub rank: u8,
    pub bytes: Seq<u8>,
}

impl View for PathPart {
    type V = PartView;

    open spec fn view(&self) -> PartView {
        match *self {
            PathPart::Prefix(b) => PartView { rank: 1, bytes: b@ },
            PathPart::RootDir => PartView { rank: 2, bytes: Seq::empty() },
            PathPart::CurDir => PartView { rank: 3, bytes: Seq::empty() },
            PathPart::ParentDir => PartView { rank: 4, bytes: Seq::empty() },
            PathPart::Normal(b) => PartView { rank: 5, bytes: b@ },
        }
    }
}

impl PartView {
    /// No component of a path holds a NUL byte.
    pub open spec fn wf(self) -> bool {
        forall|i: int| 0 <= i < self.bytes.len() ==> #[trigger] self.bytes[i] != 0
    }

    /// The order of components.
    pub open spec fn before_or_same(self, other: PartView) -> bool {
        if self.rank != other.rank {
            self.rank < other.rank
        } else {
            crate::order::before_or_same(self.bytes, other.bytes)
        }
    }

    /// What a component adds to a key: its rank, its bytes and a NUL.
    pub open spec fn key(self) -> Seq<u8> {
        seq![self.rank] + self.bytes + seq![0u8]
    }
}

/// The components of a path.
pub open spec fn parts_of(parts: Seq<PathPart>) -> Seq<PartView> {
    parts.map_values(|p: PathPart| p@)
}

/// The order of paths: the first component that differs decides, and a path
/// comes before what lies under it.
pub open spec fn path_before_or_same(a: Seq<PartView>, b: Seq<PartView>) -> bool
    decreases a.len(),
{
    if a.len() == 0 {
        true
    } else if b.len() == 0 {
        false
    } else if a[0] != b[0] {
        a[0].before_or_same(b[0])
    } else {
        path_before_or_same(a.skip(1), b.skip(1))
    }
}

/// The sort key of a path.
pub open spec fn key_of(parts: Seq<PartView>) -> Seq<u8>
    decreases parts.len(),
{
    if parts.len() == 0 {
        Seq::empty()
    } else {
        parts[0].key() + key_of(parts.skip(1))
    }
}

fn push_part(key: &mut Vec<u8>, part: &PathPart)
    ensures
        final(key)@ == old(key)@ + part@.key(),
{
    match part {
        PathPart::Prefix(b) => {
            key.push(1);
            key.extend_from_slice(b.as_slice());
        },
        PathPart::RootDir => {
            key.push(2);
        },
        PathPart::CurDir => {
            key.push(3);
        },
        PathPart::ParentDir => {
            key.push(4);
        },
        PathPart::Normal(b) => {
            key.push(5);
            key.extend_from_slice(b.as_slice());
        },
    }
    key.push(0);
    assert(key@ =~= old(key)@ + part@.key());
}

/// The sort key of a path.
pub fn path_key(parts: &[PathPart]) -> (k: Vec<u8>)
    ensures
        k@ == key_of(parts_of(parts@)),
{
    let ghost all = parts_of(parts@);
    let mut k: Vec<u8> = Vec::new();
    let mut i: usize = 0;
    assert(all.skip(0) =~= all);
    assert(k@ + key_of(all) =~= key_of(all));
    while i < parts.len()
        invariant
            i <= parts@.len(),
            all == parts_of(parts@),
            k@ + key_of(all.skip(i as int)) == key_of(all),
        decreases parts.len() - i,
    {
        let ghost before = k@;
        let ghost rest = all.skip(i as int);
        push_part(&mut k, &parts[i]);
        i += 1;
        assert(rest.skip(1) =~= all.skip(i as int));
        assert(k@ + key_of(rest.skip(1)) =~= before + key_of(rest));
    }
    assert(k@ + key_of(all.skip(i as int)) =~= k@);
    k
}

/// A name ends where its NUL stands: two names are compared before what
/// follows them.
proof fn lemma_names_first(x: Seq<u8>, y: Seq<u8>, r: Seq<u8>, s: Seq<u8>)
    requires
        forall|i: int| 0 <= i < x.len() ==> #[trigger] x[i] != 0,
        forall|i: int| 0 <= i < y.len() ==> #[trigger] y[i] != 0,
    ensures
        crate::order::before_or_same(x + seq![0u8] + r, y + seq![0u8] + s) == if x == y {
            crate::order::before_or_same(r, s)
        } else {
            crate::order::before_or_same(x, y)
        },
        x + seq![0u8] + r == y + seq![0u8] + s <==> x == y && r == s,
    decreases x.len(),
{
    let a = x + seq![0u8] + r;
    let b = y + seq![0u8] + s;
    if x.len() == 0 && y.len() == 0 {
        assert(x =~= y);
        assert(a.skip(1) =~= r);
        assert(b.skip(1) =~= s);
    } else if x.len() == 0 {
        assert(a[0] == 0 && b[0] == y[0]);
    } else if y.len() == 0 {
        assert(a[0] == x[0] && b[0] == 0);
    } else {
        assert(a[0] == x[0] && b[0] == y[0]);
        if x[0] == y[0] {
            assert(a.skip(1) =~= x.skip(1) + seq![0u8] + r);
            assert(b.skip(1) =~= y.skip(1) + seq![0u8] + s);
            lemma_names_first(x.skip(1), y.skip(1), r, s);
            assert(seq![x[0]] + x.skip(1) =~= x);
            assert(seq![y[0]] + y.skip(1) =~= y);
        }
    }
}

/// Sorting by keys is sorting by paths: the order of two keys is the order
/// of their paths, and only the same path has the same key.
pub proof fn keys_order_paths(a: Seq<PartView>, b: Seq<PartView>)
    requires
        forall|i: int| 0 <= i < a.len() ==> (#[trigger] a[i]).wf(),
        forall|i: int| 0 <= i < b.len() ==> (#[trigger] b[i]).wf(),
    ensures
        crate::order::before_or_same(key_of(a), key_of(b)) == path_before_or_same(a, b),
        key_of(a) == key_of(b) <==> a == b,
    decreases a.len(),
{
    if a.len() == 0 && b.len() == 0 {
        assert(a =~= b);
    } else if a.len() > 0 && b.len() > 0 {
        let (p, q) = (a[0], b[0]);
        let (r, s) = (key_of(a.skip(1)), key_of(b.skip(1)));
        let (x, y) = (key_of(a), key_of(b));
        assert(x[0] == p.rank && y[0] == q.rank);
        assert(x.skip(1) =~= p.bytes + seq![0u8] + r);
        assert(y.skip(1) =~= q.bytes + seq![0u8] + s);
        assert(seq![p.rank] + x.skip(1) =~= x);
        assert(seq![q.rank] + y.skip(1) =~= y);
        assert(seq![p] + a.skip(1) =~= a);
        assert(seq![q] + b.skip(1) =~= b);
        lemma_names_first(p.bytes, q.bytes, r, s);
        keys_order_paths(a.skip(1), b.skip(1));
    }
}

} // verus!

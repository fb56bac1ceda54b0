use beaglewing::files::{
    after_create, batch_signature, is_stale, pack_check, packed_name, stage_dir_name,
    staged_order, DirOutcome, Node, PackRefusal, PathEntry, StageStep, STAGE_MAX_AGE,
};
use beaglewing::offers::{hash_batch, make_offer, offer_batch};
use beaglewing::order::sort_order;
use beaglewing::paths::{path_key, PathPart};
use beaglewing::signature::{content_hash, fnv1a, list_signature, offer_id};

fn entry(path: &str) -> PathEntry {
    let name = path.rsplit('/').next().unwrap().to_string();
    PathEntry { key: path.as_bytes().to_vec(), name: Some(name) }
}

fn file(path: &str, size: u64) -> Node {
    Node::File(entry(path), size)
}

fn parts(path: &str) -> Vec<PathPart> {
    std::path::Path::new(path)
        .components()
        .map(|c| match c {
            std::path::Component::Prefix(_) => panic!("no prefixes here"),
            std::path::Component::RootDir => PathPart::RootDir,
            std::path::Component::CurDir => PathPart::CurDir,
            std::path::Component::ParentDir => PathPart::ParentDir,
            std::path::Component::Normal(n) => {
                PathPart::Normal(n.to_str().unwrap().as_bytes().to_vec())
            }
        })
        .collect()
}

#[test]
fn path_keys() {
    assert_eq!(path_key(&parts("/a/bc")), vec![2, 0, 5, 97, 0, 5, 98, 99, 0]);
    assert_eq!(path_key(&parts("../x")), vec![4, 0, 5, 120, 0]);
    assert_eq!(path_key(&parts("./x")), vec![3, 0, 5, 120, 0]);
    assert_eq!(path_key(&[PathPart::Prefix(vec![67, 58])]), vec![1, 67, 58, 0]);
    assert!(path_key(&[]).is_empty());
}

#[test]
fn keys_order_paths() {
    let paths = [
        "", "/", ".", "..", "/a", "/a/b", "/a.txt", "/a b", "/ab", "/a/b/c", "/a/bc", "/b", "a",
        "a/b", "a-b", "../a", "./a", "/a//b", "/\u{e9}", "/A", "/a\u{1}",
    ];
    for p in paths {
        for q in paths {
            let by_path = std::path::Path::new(p).cmp(std::path::Path::new(q));
            assert_eq!(path_key(&parts(p)).cmp(&path_key(&parts(q))), by_path, "{p} {q}");
        }
    }
}

#[test]
fn batches_get_fresh_directories() {
    assert_eq!(after_create(7, DirOutcome::Made), StageStep::Use);
    assert_eq!(after_create(7, DirOutcome::Taken), StageStep::Try(8));
    assert_eq!(after_create(7, DirOutcome::Failed), StageStep::Fail);
    assert_eq!(after_create(u128::MAX, DirOutcome::Taken), StageStep::Fail);
    assert_ne!(stage_dir_name(7), stage_dir_name(8));
}

#[test]
fn signature_tracks_content_shape() {
    let (s1, t1) = batch_signature(&[file("/sig/x", 4)]).unwrap();
    assert_eq!(t1, 4);
    let (s2, _) = batch_signature(&[file("/sig/x", 5)]).unwrap();
    assert_ne!(s1, s2);
    assert!(batch_signature(&[Node::Unreadable(entry("/sig/missing"))]).is_none());
}

#[test]
fn cap_enforced() {
    let err = pack_check(&[file("/cap/big.bin", 4096)], 1000).unwrap_err();
    let err = err.text();
    assert!(err.contains("over the"), "{err}");
    assert_eq!(err, "batch is 0MB, over the 0MB channel cap");
    assert!(pack_check(&[file("/cap/big.bin", 4096)], 4096).is_ok());
    let big = pack_check(&[file("/a", 100 << 20)], 64 << 20).unwrap_err();
    assert_eq!(big.text(), "batch is 100MB, over the 64MB channel cap");
}

#[test]
fn unreadable_batches_are_refused() {
    let batch = [file("/a", 1), Node::Dir(entry("/d"), vec![Node::Unreadable(entry("/d/x"))])];
    match pack_check(&batch, 1000) {
        Err(e) => assert_eq!(e.text(), "a path in the batch is unreadable"),
        Ok(()) => panic!("packed"),
    }
}

#[test]
fn entries_are_packed_by_basename() {
    assert_eq!(packed_name(&entry("/a/b.txt"), "/a/b.txt").ok().unwrap(), "b.txt");
    let root = PathEntry { key: b"/".to_vec(), name: None };
    match packed_name(&root, "/") {
        Err(e) => {
            assert!(matches!(e, PackRefusal::NoBasename(_)));
            assert_eq!(e.text(), "no basename for /");
        }
        Ok(_) => panic!("packed"),
    }
}

#[test]
fn directories_recurse_under_their_basename_in_order() {
    let tree = [
        Node::Dir(
            entry("/t/sub"),
            vec![file("/t/sub/b", 2), file("/t/sub/a", 1), Node::Other(entry("/t/sub/sock"))],
        ),
        file("/t/a.txt", 5),
    ];
    let flat = vec![
        ("a.txt".to_string(), 5u64),
        ("sub/a".to_string(), 1),
        ("sub/b".to_string(), 2),
    ];
    assert_eq!(
        batch_signature(&tree),
        Some((list_signature(flat.into_iter()), 8))
    );
}

#[test]
fn signature_ignores_path_order() {
    let a = batch_signature(&[file("/x", 1), file("/y", 2), file("/z", 3)]);
    let b = batch_signature(&[file("/z", 3), file("/x", 1), file("/y", 2)]);
    assert_eq!(a, b);
    assert_ne!(a, batch_signature(&[file("/x", 2), file("/y", 1), file("/z", 3)]));
}

#[test]
fn empty_batch_has_the_empty_signature() {
    assert_eq!(batch_signature(&[]), Some((0xcbf29ce484222325, 0)));
}

#[test]
fn nameless_paths_have_an_empty_name() {
    let n = Node::File(PathEntry { key: vec![], name: None }, 3);
    let want = list_signature(vec![(String::new(), 3u64)].into_iter());
    assert_eq!(batch_signature(&[n]), Some((want, 3)));
}

#[test]
fn staging() {
    assert_eq!(stage_dir_name(1_756_700_000_123), "bw-1756700000123");
    assert_eq!(stage_dir_name(0), "bw-0");
    assert_eq!(staged_order(&[]), Err("received batch was empty"));
    assert_eq!(staged_order(&[file("/b", 1), file("/a", 1), file("/aa", 1)]), Ok(vec![1, 2, 0]));
    assert!(!is_stale(None, 5));
    assert!(!is_stale(Some(5), 5));
    assert!(is_stale(Some(6), 5));
    assert_eq!(STAGE_MAX_AGE, 3 * 24 * 3600 * 1_000_000_000);
}

#[test]
fn sorting_is_stable_dictionary_order() {
    let keys: Vec<Vec<u8>> =
        vec![b"b".to_vec(), b"".to_vec(), b"ab".to_vec(), b"a".to_vec(), b"ab".to_vec()];
    assert_eq!(sort_order(&keys), vec![1, 3, 2, 4, 0]);
}

#[test]
fn fnv_vectors() {
    assert_eq!(fnv1a(b""), 0xcbf29ce484222325);
    assert_eq!(fnv1a(b"a"), 0xaf63dc4c8601ec8c);
    assert_eq!(fnv1a(b"foobar"), 0x85944171f73967e8);
    assert_eq!(content_hash(3, b"a"), 0xaf63dc4c8601ec8c ^ 3);
    assert_eq!(offer_id(0x1234_5678_9abc_def0), 0x1234_5678 ^ 0x9abc_def0);
}

#[test]
fn list_signature_hashes_names_then_sizes() {
    let mut h = fnv1a(b"ab");
    h = (h ^ 7).wrapping_mul(0x100000001b3);
    assert_eq!(list_signature(vec![("ab".to_string(), 7u64)].into_iter()), h);
}

#[test]
fn one_changed_byte_or_kind_changes_the_hash() {
    assert_ne!(content_hash(1, b"hello"), content_hash(1, b"hellp"));
    assert_ne!(content_hash(1, b"hello"), content_hash(2, b"hello"));
}

#[test]
fn offers_are_capped() {
    let o = make_offer(2, 20_000_000, 0xdead_beef);
    assert_eq!((o.kind, o.total, o.items, o.id), (3, 20_000_000, 2, 0xdead_beef));
    let o = make_offer(70_000, u64::MAX, 0);
    assert_eq!((o.total, o.items), (u32::MAX, u16::MAX));
}

#[test]
fn offers_come_from_what_is_on_disk() {
    let batch = [file("/a", 10), file("/b", 20)];
    let h = hash_batch(&batch).unwrap();
    assert_eq!(h, batch_signature(&batch).unwrap().0 ^ 3);
    let o = offer_batch(2, &batch, h).unwrap();
    assert_eq!((o.total, o.items, o.id), (30, 2, offer_id(h)));
    assert!(offer_batch(1, &[Node::Unreadable(entry("/a"))], 1).is_none());
    assert!(hash_batch(&[Node::Unreadable(entry("/a"))]).is_none());
}

use beaglewing::agent::{
    parse_control, push_end, read_control, Agent, Control, FrameStep, LocalStep, PushEnd,
};
use beaglewing::clipframe::{
    ack_frame, frame, offer_frame, pull_frame, Offer, FRAME_LEN, KIND_PNG, KIND_TAR, KIND_TEXT,
    MAX_PAYLOAD, T_PING,
};
use beaglewing::files::{Node, PathEntry};
use beaglewing::flow::AfterAttempt;
use beaglewing::offers::{hash_batch, offer_batch};
use beaglewing::selection::{
    accept_output, advertised_source, file_content, image_content, listed_paths, set_args,
    text_content, Source, Watcher,
};
use beaglewing::signature::content_hash;
use beaglewing::transfer::encode_transfer;
use beaglewing::uri::copied_file_list;

fn file(path: &str, size: u64) -> Node {
    let name = path.rsplit('/').next().unwrap().to_string();
    Node::File(PathEntry { key: path.as_bytes().to_vec(), name: Some(name) }, size)
}

fn receive(a: &mut Agent, kind: u8, data: &[u8]) -> FrameStep {
    let mut last = FrameStep::Nothing;
    for f in encode_transfer(kind, data).iter() {
        last = a.on_frame(f);
    }
    last
}

fn offer_files(a: &mut Agent, paths: &[&str], batch: &[Node]) -> Offer {
    let list: Vec<String> = paths.iter().map(|p| p.to_string()).collect();
    let h = hash_batch(batch).unwrap();
    let content = copied_file_list(&list);
    match a.local_changed(KIND_TAR, content.as_bytes(), h) {
        LocalStep::Measure(p) => {
            assert_eq!(p, list);
            let o = offer_batch(p.len(), batch, h).unwrap();
            a.offered(&o, p, h);
            o
        }
        _ => panic!("not offered"),
    }
}

#[test]
fn text_is_sent_once() {
    let mut a = Agent::new();
    let h = content_hash(KIND_TEXT, b"hello");
    assert!(matches!(a.local_changed(KIND_TEXT, b"hello", h), LocalStep::SendNow));
    assert!(!a.send_ended(PushEnd::Lost, h));
    assert!(matches!(a.local_changed(KIND_TEXT, b"hello", h), LocalStep::SendNow));
    assert!(a.send_ended(PushEnd::Failed, h));
    assert!(matches!(a.local_changed(KIND_TEXT, b"hello", h), LocalStep::Ignore));
}

#[test]
fn received_text_is_not_echoed() {
    let mut a = Agent::new();
    match receive(&mut a, KIND_TEXT, b"a\r\nb") {
        FrameStep::SetText(t) => {
            assert_eq!(t, "a\nb");
            a.content_set(KIND_TEXT, t.as_bytes());
            let h = content_hash(KIND_TEXT, t.as_bytes());
            assert!(matches!(a.local_changed(KIND_TEXT, t.as_bytes(), h), LocalStep::Ignore));
        }
        _ => panic!("text not set"),
    }
}

#[test]
fn received_images_and_batches() {
    let mut a = Agent::new();
    assert!(matches!(receive(&mut a, KIND_PNG, &[1, 2]), FrameStep::SetImage(d) if d == [1, 2]));
    assert!(matches!(receive(&mut a, KIND_TAR, &[3]), FrameStep::Unpack(d) if d == [3]));
    assert!(matches!(receive(&mut a, 9, &[3]), FrameStep::Unsupported(9)));
}

#[test]
fn staged_batches_are_not_echoed() {
    let mut a = Agent::new();
    let staged = [file("/stage/bw-1/a", 5), file("/stage/bw-1/b", 6)];
    a.files_set(&staged);
    let list = copied_file_list(&["/stage/bw-1/a".to_string(), "/stage/bw-1/b".to_string()]);
    assert_eq!(listed_paths(list.as_bytes()).unwrap().len(), 2);
    let c = file_content(list.into_bytes(), &staged).unwrap();
    assert!(matches!(a.local_changed(c.kind, &c.data, c.hash), LocalStep::Ignore));
}

#[test]
fn files_are_offered_and_pulled_by_id() {
    let mut a = Agent::new();
    let o = offer_files(&mut a, &["/a"], &[file("/a", 5)]);
    assert!(matches!(a.on_frame(&pull_frame(o.id ^ 1)), FrameStep::StalePull(id) if id == o.id ^ 1));
    assert!(matches!(a.on_frame(&pull_frame(o.id)), FrameStep::Push));
    assert_eq!(a.offered_paths().unwrap(), &vec!["/a".to_string()]);
    assert!(a.pull_served(PushEnd::Failed));
    assert!(a.offered_paths().is_some());
    assert!(!a.pull_served(PushEnd::Lost));
    assert!(a.offered_paths().is_some());
    assert!(a.pull_served(PushEnd::Sent));
    assert!(a.offered_paths().is_none());
    assert!(matches!(a.on_frame(&pull_frame(o.id)), FrameStep::StalePull(_)));
}

#[test]
fn a_new_copy_supersedes_the_offer() {
    let mut a = Agent::new();
    offer_files(&mut a, &["/a"], &[file("/a", 5)]);
    a.local_changed(KIND_TEXT, b"x", 77);
    assert!(a.offered_paths().is_none());
}

#[test]
fn crossing_over_pushes_the_offer() {
    let mut a = Agent::new();
    assert!(a.take_push(Control::Remote).is_none());
    offer_files(&mut a, &["/a"], &[file("/a", 5)]);
    assert!(a.take_push(Control::Local).is_none());
    assert!(a.take_push(Control::Unknown).is_none());
    let o = a.take_push(Control::Remote).unwrap();
    assert!(a.offered_paths().is_none());
    assert!(a.push_ended(o, PushEnd::Failed));
    assert!(a.offered_paths().is_some());
    let o = a.take_push(Control::Pull).unwrap();
    assert!(!a.push_ended(o, PushEnd::Lost));
    assert!(a.offered_paths().is_none());
}

#[test]
fn crossing_back_pulls_once() {
    let mut a = Agent::new();
    let o = Offer { kind: KIND_TAR, total: 10, items: 1, id: 42 };
    assert!(a.request(Control::Local).is_none());
    assert!(matches!(a.on_frame(&offer_frame(&o)), FrameStep::Offered(got) if got == o));
    assert!(a.request(Control::Remote).is_none());
    let (got, f) = a.request(Control::Local).unwrap();
    assert_eq!(got, o);
    assert!(f == pull_frame(42));
    assert!(a.request(Control::Local).is_none());
    assert!(a.request(Control::Pull).is_some());
    a.on_frame(&offer_frame(&Offer { id: 43, ..o }));
    assert!(a.request(Control::Local).is_some());
    a.files_set(&[file("/s", 1)]);
    assert!(a.request(Control::Pull).is_none());
}

#[test]
fn frames_are_answered() {
    let mut a = Agent::new();
    match a.on_frame(&frame(T_PING, 0, &[])) {
        FrameStep::Answer(f) => assert_eq!(f[0], 0x02),
        _ => panic!("no pong"),
    }
    assert!(matches!(a.on_frame(&ack_frame(3)), FrameStep::Nothing));
    assert!(matches!(a.on_frame(&[0x99; FRAME_LEN]), FrameStep::ProtocolError("unparseable frame")));
    let frames = encode_transfer(KIND_PNG, &vec![1u8; MAX_PAYLOAD * 200]);
    let mut acks = Vec::new();
    for f in frames.iter().take(150) {
        if let FrameStep::Ack(n, f) = a.on_frame(f) {
            assert!(f == ack_frame(n));
            acks.push(n);
        }
    }
    assert_eq!(acks, vec![128]);
    assert_eq!(a.status(), Some((149 * MAX_PAYLOAD, (MAX_PAYLOAD * 200) as u32)));
    a.reconnected();
    assert_eq!(a.status(), None);
}

#[test]
fn control_messages() {
    assert_eq!(parse_control("remote"), Control::Remote);
    assert_eq!(parse_control("Remote"), Control::Unknown);
    assert_eq!(read_control(b" local\n"), Control::Local);
    assert_eq!(read_control(b"pull"), Control::Pull);
    assert_eq!(read_control(&[0xff]), Control::Unknown);
}

fn source(targets: &str) -> String {
    match advertised_source(targets.as_bytes()) {
        Some(Source::Files(t)) => format!("files {t}"),
        Some(Source::Text(t)) => format!("text {t}"),
        Some(Source::Image(t)) => format!("image {t}"),
        None => "nothing".to_string(),
    }
}

#[test]
fn targets_decide_the_kind() {
    assert_eq!(
        source("TARGETS\nUTF8_STRING\ntext/uri-list\nx-special/gnome-copied-files"),
        "files x-special/gnome-copied-files"
    );
    assert_eq!(source("UTF8_STRING\r\ntext/uri-list\r\n"), "files text/uri-list");
    assert_eq!(source("image/png\nUTF8_STRING\nSTRING"), "text UTF8_STRING");
    assert_eq!(source("text/plain"), "text STRING");
    assert_eq!(source("text/plain;charset=utf-8\nimage/png"), "text STRING");
    assert_eq!(source("TIMESTAMP\nimage/png"), "image image/png");
    assert_eq!(source("image/pngx"), "nothing");
    assert_eq!(source(""), "nothing");
}

#[test]
fn content_is_hashed_by_kind() {
    let t = text_content(b"x".to_vec());
    let i = image_content(b"x".to_vec());
    assert_eq!((t.kind, t.hash), (KIND_TEXT, content_hash(KIND_TEXT, b"x")));
    assert_eq!((i.kind, i.hash), (KIND_PNG, content_hash(KIND_PNG, b"x")));
    assert!(listed_paths(b"copy\n").is_none());
    let gone = PathEntry { key: vec![], name: None };
    assert!(file_content(vec![], &[Node::Unreadable(gone)]).is_none());
}

#[test]
fn reading_and_watching() {
    assert_eq!(accept_output(true, vec![1]), Some(vec![1]));
    assert_eq!(accept_output(true, vec![]), None);
    assert_eq!(accept_output(false, vec![1]), None);
    let mut w = Watcher::new();
    assert!(w.is_news(5));
    assert!(!w.is_news(5));
    assert!(w.is_news(6));
    assert!(w.is_news(5));
}

#[test]
fn xclip_arguments() {
    assert_eq!(set_args(KIND_TEXT), vec!["-selection", "clipboard", "-i"]);
    assert_eq!(set_args(KIND_PNG), vec!["-selection", "clipboard", "-t", "image/png", "-i"]);
    assert_eq!(
        set_args(KIND_TAR),
        vec!["-selection", "clipboard", "-t", "x-special/gnome-copied-files", "-i"]
    );
}

#[test]
fn attempts_end() {
    assert_eq!(push_end(AfterAttempt::Sent), Some(PushEnd::Sent));
    assert_eq!(push_end(AfterAttempt::Lost), Some(PushEnd::Lost));
    assert_eq!(push_end(AfterAttempt::Abandon), Some(PushEnd::Failed));
    assert_eq!(push_end(AfterAttempt::Retry), None);
}

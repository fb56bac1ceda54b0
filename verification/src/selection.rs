//! What to read from the desktop clipboard, and how to put things on it.

use vstd::prelude::*;

use crate::clipframe::{KIND_PNG, KIND_TAR, KIND_TEXT};
use crate::files::Node;
use crate::offers::hash_batch;
use crate::signature::content_hash;
use crate::text::{chars_of, lines, same_text, string_of, text_of};
use crate::uri::parse_file_list;

verus! {

pub const TARGET_GNOME_FILES: &'static str = "x-special/gnome-copied-files";

pub const TARGET_URI_LIST: &'static str = "text/uri-list";

pub const TARGET_UTF8: &'static str = "UTF8_STRING";

pub const TARGET_STRING: &'static str = "STRING";

pub const TARGET_PNG: &'static str = "image/png";

/// What a clipboard holds, and the target to read it from.
pub enum Source {
    Files(&'static str),
    Text(&'static str),
    Image(&'static str),
}

/// What a clipboard holds, and the target to read it from.
#[verifier::ext_equal]
pub enum SourceView {
    Files(Seq<char>),
    Text(Seq<char>),
    Image(Seq<char>),
}

impl View for Source {
    type V = SourceView;

    open spec fn view(&self) -> SourceView {
        match *self {
            Source::Files(t) => SourceView::Files(t@),
            Source::Text(t) => SourceView::Text(t@),
            Source::Image(t) => SourceView::Image(t@),
        }
    }
}

/// Decide the kind from the advertised targets, never by probing content
/// targets blindly. Files come before text because a file-manager copy also
/// offers the path as plain text.
pub open spec fn source_of(targets: Seq<Seq<char>>) -> Option<SourceView> {
    if targets.contains(TARGET_GNOME_FILES@) {
        Some(SourceView::Files(TARGET_GNOME_FILES@))
    } else if targets.contains(TARGET_URI_LIST@) {
        Some(SourceView::Files(TARGET_URI_LIST@))
    } else if targets.contains(TARGET_UTF8@) {
        Some(SourceView::Text(TARGET_UTF8@))
    } else if targets.contains(TARGET_STRING@) || targets.contains("text/plain;charset=utf-8"@)
        || targets.contains("text/plain"@) {
        Some(SourceView::Text(TARGET_STRING@))
    } else if targets.contains(TARGET_PNG@) {
        Some(SourceView::Image(TARGET_PNG@))
    } else {
        None
    }
}

fn has(targets: &Vec<String>, t: &str) -> (b: bool)
    ensures
        b == crate::uri::texts(targets@).contains(t@),
{
    let mut i: usize = 0;
    let ghost all = crate::uri::texts(targets@);
    while i < targets.len()
        invariant
            i <= targets@.len(),
            all == crate::uri::texts(targets@),
            forall|j: int| 0 <= j < i ==> all[j] != t@,
        decreases targets.len() - i,
    {
        assert(all[i as int] == targets@[i as int]@);
        if same_text(targets[i].as_str(), t) {
            assert(all.contains(all[i as int]));
            return true;
        }
        i += 1;
    }
    false
}

/// Choose among targets.
pub fn choose_source(targets: &Vec<String>) -> (r: Option<Source>)
    ensures
        match r {
            Some(s) => source_of(crate::uri::texts(targets@)) == Some(s@),
            None => source_of(crate::uri::texts(targets@)) is None,
        },
{
    if has(targets, TARGET_GNOME_FILES) {
        return Some(Source::Files(TARGET_GNOME_FILES));
    }
    if has(targets, TARGET_URI_LIST) {
        return Some(Source::Files(TARGET_URI_LIST));
    }
    if has(targets, TARGET_UTF8) {
        return Some(Source::Text(TARGET_UTF8));
    }
    if has(targets, TARGET_STRING) || has(targets, "text/plain;charset=utf-8") || has(
        targets,
        "text/plain",
    ) {
        return Some(Source::Text(TARGET_STRING));
    }
    if has(targets, TARGET_PNG) {
        return Some(Source::Image(TARGET_PNG));
    }
    None
}

/// The lines of a text, as strings.
pub fn text_lines(text: &str) -> (r: Vec<String>)
    ensures
        crate::uri::texts(r@) == crate::text::lines_of(text@),
{
    let ls = lines(chars_of(text).as_slice());
    let mut r: Vec<String> = Vec::new();
    let mut i: usize = 0;
    while i < ls.len()
        invariant
            i <= ls@.len(),
            r@.len() == i,
            forall|j: int| 0 <= j < i ==> (#[trigger] r@[j])@ == ls@[j]@,
        decreases ls.len() - i,
    {
        r.push(string_of(ls[i].as_slice()));
        i += 1;
    }
    assert(crate::uri::texts(r@) =~= crate::text::nested(ls@));
    r
}

/// Choose by the list of targets that a clipboard advertises.
pub fn advertised_source(targets: &[u8]) -> (r: Option<Source>)
    ensures
        match r {
            Some(s) => source_of(crate::text::lines_of(crate::text::read_utf8(targets@))) == Some(
                s@,
            ),
            None => source_of(crate::text::lines_of(crate::text::read_utf8(targets@))) is None,
        },
{
    choose_source(&text_lines(text_of(targets).as_str()))
}

/// Clipboard content: its kind, its bytes and its change hash.
pub struct Content {
    pub kind: u8,
    pub data: Vec<u8>,
    pub hash: u64,
}

/// What a read brings: nothing if it failed or came back empty.
pub fn accept_output(success: bool, data: Vec<u8>) -> (r: Option<Vec<u8>>)
    ensures
        r == if success && data@.len() > 0 {
            Some(data)
        } else {
            None
        },
{
    if success && data.len() > 0 {
        Some(data)
    } else {
        None
    }
}

/// Text content.
pub fn text_content(data: Vec<u8>) -> (c: Content)
    ensures
        c.kind == KIND_TEXT,
        c.data == data,
        c.hash == crate::signature::content_hash_of(KIND_TEXT, data@),
{
    let hash: u64 = content_hash(KIND_TEXT, data.as_slice());
    Content { kind: KIND_TEXT, data, hash }
}

/// Image content.
pub fn image_content(data: Vec<u8>) -> (c: Content)
    ensures
        c.kind == KIND_PNG,
        c.data == data,
        c.hash == crate::signature::content_hash_of(KIND_PNG, data@),
{
    let hash: u64 = content_hash(KIND_PNG, data.as_slice());
    Content { kind: KIND_PNG, data, hash }
}

/// The paths that a file list names, if any.
pub fn listed_paths(data: &[u8]) -> (r: Option<Vec<String>>)
    ensures
        ({
            let paths = crate::uri::paths_of_lines(
                crate::text::lines_of(crate::text::read_utf8(data@)),
            );
            match r {
                Some(p) => crate::uri::texts(p@) == paths && paths.len() > 0,
                None => paths.len() == 0,
            }
        }),
{
    let p = parse_file_list(data);
    assert(crate::uri::texts(p@).len() == p@.len());
    if p.len() == 0 {
        None
    } else {
        Some(p)
    }
}

/// File content: the list as it was read, with a hash from what is on disk
/// under its paths. That is cheap enough to poll, and it matches what we
/// compute for staged batches we set. Nothing if any of it is unreadable.
pub fn file_content(data: Vec<u8>, batch: &[Node]) -> (r: Option<Content>)
    ensures
        match crate::offers::batch_hash(batch@) {
            Some(h) => r == Some(Content { kind: KIND_TAR, data, hash: h }),
            None => r is None,
        },
{
    match hash_batch(batch) {
        Some(hash) => Some(Content { kind: KIND_TAR, data, hash }),
        None => None,
    }
}

/// Watching the clipboard: a change is reported once.
pub struct Watcher {
    pub prev: u64,
}

impl Watcher {
    pub fn new() -> (w: Watcher)
        ensures
            w.prev == 0,
    {
        Watcher { prev: 0 }
    }

    /// Whether content with this hash is news.
    pub fn is_news(&mut self, hash: u64) -> (b: bool)
        ensures
            b == (hash != old(self).prev),
            final(self).prev == hash,
    {
        if hash == self.prev {
            return false;
        }
        self.prev = hash;
        true
    }
}

/// The contents of a list of arguments.
pub open spec fn words(args: Seq<&'static str>) -> Seq<Seq<char>> {
    args.map_values(|a: &'static str| a@)
}

/// The arguments with which xclip takes content of a kind. It serves a
/// single target, so file batches go up as what Nautilus pastes; text needs
/// no target.
pub fn set_args(kind: u8) -> (args: Vec<&'static str>)
    ensures
        words(args@) == if kind == KIND_PNG {
            seq!["-selection"@, "clipboard"@, "-t"@, TARGET_PNG@, "-i"@]
        } else if kind == KIND_TAR {
            seq!["-selection"@, "clipboard"@, "-t"@, TARGET_GNOME_FILES@, "-i"@]
        } else {
            seq!["-selection"@, "clipboard"@, "-i"@]
        },
{
    let mut args: Vec<&'static str> = vec!["-selection", "clipboard"];
    if kind == KIND_PNG {
        args.push("-t");
        args.push(TARGET_PNG);
    } else if kind == KIND_TAR {
        args.push("-t");
        args.push(TARGET_GNOME_FILES);
    }
    args.push("-i");
    proof {
        let want = if kind == KIND_PNG {
            seq!["-selection"@, "clipboard"@, "-t"@, TARGET_PNG@, "-i"@]
        } else if kind == KIND_TAR {
            seq!["-selection"@, "clipboard"@, "-t"@, TARGET_GNOME_FILES@, "-i"@]
        } else {
            seq!["-selection"@, "clipboard"@, "-i"@]
        };
        assert(words(args@) =~= want);
    }
    args
}

} // verus!

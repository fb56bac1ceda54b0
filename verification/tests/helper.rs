use beaglewing::clipframe::{
    ack_frame, frame, offer_frame, pull_frame, Offer, FRAME_LEN, KIND_PNG, KIND_TAR, KIND_TEXT,
    T_PING,
};
use beaglewing::files::{Node, PathEntry};
use beaglewing::helper::{
    after_probe, apply, apply_converted, copy_effect, files_published, hid_report,
    image_published, is_data_channel, listed_content, take_converted, windows_text, ApplyStep, CopyStep, Found, Helper, Probe, ProbeStep, PullStep,
    ReportStep,
};
use beaglewing::images::{dib_of_bmp, has_whole_palette};
use beaglewing::offers::{hash_batch, offer_batch};
use beaglewing::signature::content_hash;
use beaglewing::transfer::encode_transfer;

fn file(path: &str, size: u64) -> Node {
    let name = path.rsplit('/').next().unwrap().to_string();
    Node::File(PathEntry { key: path.as_bytes().to_vec(), name: Some(name) }, size)
}

fn picture(format: image::ImageFormat) -> Vec<u8> {
    let img = image::RgbImage::from_pixel(2, 3, image::Rgb([1, 2, 3]));
    let mut out = Vec::new();
    image::DynamicImage::ImageRgb8(img)
        .write_to(&mut std::io::Cursor::new(&mut out), format)
        .unwrap();
    out
}

#[test]
fn received_text_gets_crlf_endings() {
    assert_eq!(windows_text(b"a\nb\r\nc"), "a\r\nb\r\nc");
    match apply(KIND_TEXT, b"x\ny".to_vec()) {
        ApplyStep::SetText(t) => {
            assert_eq!(t, "x\r\ny");
            let mut h = Helper::new(0);
            h.content_set(KIND_TEXT, t.as_bytes());
            let hash = content_hash(KIND_TEXT, t.as_bytes());
            assert!(matches!(h.copied(KIND_TEXT, t.as_bytes(), hash), CopyStep::Ignore));
        }
        _ => panic!("text not set"),
    }
}

#[test]
fn images_are_published_in_two_formats() {
    let png = picture(image::ImageFormat::Png);
    let bmp = picture(image::ImageFormat::Bmp);
    match apply(KIND_PNG, png.clone()) {
        ApplyStep::SetImage(p, Some(dib)) => {
            assert_eq!(p, png);
            assert_eq!(dib, bmp[14..].to_vec());
        }
        _ => panic!("image not set"),
    }
    assert!(matches!(apply(KIND_PNG, vec![1, 2, 3]), ApplyStep::BadImage));
}

const SIGNATURE: [u8; 8] = [137, 80, 78, 71, 13, 10, 26, 10];

const END: [u8; 12] = [0, 0, 0, 0, 73, 69, 78, 68, 174, 66, 96, 130];

/// One pixel that looks up the first color of a palette.
const INDEXED_HEAD: [u8; 25] = [
    0, 0, 0, 13, 73, 72, 68, 82, 0, 0, 0, 1, 0, 0, 0, 1, 8, 3, 0, 0, 0, 40, 203, 52, 187,
];

const INDEXED_DATA: [u8; 22] =
    [0, 0, 0, 10, 73, 68, 65, 84, 120, 156, 99, 96, 0, 0, 0, 2, 0, 1, 72, 175, 164, 113];

/// One pixel that is a color itself.
const RGB_HEAD: [u8; 25] = [
    0, 0, 0, 13, 73, 72, 68, 82, 0, 0, 0, 1, 0, 0, 0, 1, 8, 2, 0, 0, 0, 144, 119, 83, 222,
];

const RGB_DATA: [u8; 24] = [
    0, 0, 0, 12, 73, 68, 65, 84, 120, 156, 99, 224, 228, 96, 7, 0, 0, 54, 0, 25, 110, 181, 42, 42,
];

const WHOLE_PALETTE: [u8; 15] = [0, 0, 0, 3, 80, 76, 84, 69, 1, 2, 3, 13, 135, 100, 213];

const BROKEN_PALETTE: [u8; 16] = [0, 0, 0, 4, 80, 76, 84, 69, 1, 2, 3, 4, 35, 219, 138, 171];

fn png_of(chunks: &[&[u8]]) -> Vec<u8> {
    let mut v = SIGNATURE.to_vec();
    for c in chunks {
        v.extend_from_slice(c);
    }
    v.extend_from_slice(&END);
    v
}

/// The pixel of a DIB of one, bottom row first and blue first.
fn pixel_of(step: ApplyStep) -> Option<[u8; 3]> {
    match step {
        ApplyStep::SetImage(_, Some(dib)) => Some([dib[42], dib[41], dib[40]]),
        _ => None,
    }
}

#[test]
fn palettes_of_whole_colors_decode() {
    let png = png_of(&[&INDEXED_HEAD, &WHOLE_PALETTE, &INDEXED_DATA]);
    assert!(has_whole_palette(&png));
    assert_eq!(pixel_of(apply(KIND_PNG, png)), Some([1, 2, 3]));
}

#[test]
fn palette_that_breaks_off_is_a_bad_image() {
    let png = png_of(&[&INDEXED_HEAD, &BROKEN_PALETTE, &INDEXED_DATA]);
    assert!(!has_whole_palette(&png));
    assert!(matches!(apply(KIND_PNG, png.clone()), ApplyStep::BadImage));
    // Cut anywhere, it still does not decode.
    for n in 0..png.len() {
        assert!(matches!(apply(KIND_PNG, png[..n].to_vec()), ApplyStep::BadImage));
    }
}

#[test]
fn palette_of_a_picture_without_indices_is_not_looked_at() {
    let png = png_of(&[&RGB_HEAD, &BROKEN_PALETTE, &RGB_DATA]);
    assert!(has_whole_palette(&png));
    assert_eq!(pixel_of(apply(KIND_PNG, png)), Some([9, 8, 7]));
    // Nor is a palette behind the image data.
    let png = png_of(&[&INDEXED_HEAD, &WHOLE_PALETTE, &INDEXED_DATA, &BROKEN_PALETTE]);
    assert!(has_whole_palette(&png));
    assert_eq!(pixel_of(apply(KIND_PNG, png)), Some([1, 2, 3]));
    // Without a palette there is nothing to look up.
    let png = png_of(&[&INDEXED_HEAD, &INDEXED_DATA, &BROKEN_PALETTE]);
    assert!(has_whole_palette(&png));
    assert!(matches!(apply(KIND_PNG, png), ApplyStep::BadImage));
}

#[test]
fn batches_and_unknown_kinds() {
    assert!(matches!(apply(KIND_TAR, vec![7]), ApplyStep::Unpack(d) if d == [7]));
    assert!(matches!(apply(8, vec![7]), ApplyStep::Unsupported(8)));
}

#[test]
fn short_bitmaps_have_no_dib() {
    assert_eq!(dib_of_bmp(&[0; 14]), None);
    assert_eq!(dib_of_bmp(&[5; 15]), Some(vec![5]));
    match apply_converted(KIND_PNG, vec![1], Some(vec![0; 14])) {
        ApplyStep::SetImage(p, None) => assert_eq!(p, vec![1]),
        _ => panic!("image not set"),
    }
    assert!(matches!(apply_converted(KIND_PNG, vec![1], None), ApplyStep::BadImage));
}

#[test]
fn formats_are_probed_in_order() {
    assert!(matches!(after_probe(Probe::Files, Found::Missing), ProbeStep::Look(Probe::Text)));
    assert!(matches!(
        after_probe(Probe::Files, Found::Files(vec![])),
        ProbeStep::Look(Probe::Text)
    ));
    match after_probe(Probe::Files, Found::Files(vec!["C:\\a".to_string()])) {
        ProbeStep::Measure(p) => assert_eq!(p, vec!["C:\\a"]),
        _ => panic!("files not taken"),
    }
    assert!(matches!(
        after_probe(Probe::Text, Found::Text(String::new())),
        ProbeStep::Look(Probe::Png)
    ));
    match after_probe(Probe::Text, Found::Text("h\u{e9}".to_string())) {
        ProbeStep::Take(c) => {
            assert_eq!((c.kind, c.data.as_slice()), (KIND_TEXT, "h\u{e9}".as_bytes()));
            assert_eq!(c.hash, content_hash(KIND_TEXT, "h\u{e9}".as_bytes()));
        }
        _ => panic!("text not taken"),
    }
    assert!(matches!(
        after_probe(Probe::Png, Found::Png(vec![])),
        ProbeStep::Look(Probe::Bitmap)
    ));
    match after_probe(Probe::Png, Found::Png(vec![1, 2])) {
        ProbeStep::Take(c) => assert_eq!((c.kind, c.data), (KIND_PNG, vec![1, 2])),
        _ => panic!("png not taken"),
    }
    assert!(matches!(after_probe(Probe::Bitmap, Found::Missing), ProbeStep::GiveUp));
    assert!(matches!(after_probe(Probe::Bitmap, Found::Bitmap(vec![1])), ProbeStep::GiveUp));
}

#[test]
fn bitmaps_are_converted_to_png() {
    let bmp = picture(image::ImageFormat::Bmp);
    match after_probe(Probe::Bitmap, Found::Bitmap(bmp)) {
        ProbeStep::Take(c) => {
            assert_eq!(c.kind, KIND_PNG);
            assert_eq!(c.data[..8], [0x89, b'P', b'N', b'G', 0x0d, 0x0a, 0x1a, 0x0a]);
            let back =
                image::load_from_memory_with_format(&c.data, image::ImageFormat::Png).unwrap();
            assert_eq!((back.width(), back.height()), (2, 3));
        }
        _ => panic!("bitmap not taken"),
    }
    assert!(matches!(take_converted(None), ProbeStep::GiveUp));
    assert!(matches!(take_converted(Some(vec![9])), ProbeStep::Take(c) if c.data == [9]));
}

#[test]
fn copied_paths_come_back_from_the_list() {
    let paths = vec!["C:\\a b".to_string(), "D:\\c".to_string()];
    let batch = [file("C:/a b", 1), file("D:/c", 2)];
    let c = listed_content(&paths, &batch).unwrap();
    assert_eq!(c.data, b"C:\\a b\nD:\\c".to_vec());
    assert_eq!(c.hash, hash_batch(&batch).unwrap());
    let mut h = Helper::new(0);
    match h.copied(KIND_TAR, &c.data, c.hash) {
        CopyStep::Measure(p) => assert_eq!(p, paths),
        _ => panic!("not offered"),
    }
}

#[test]
fn pulls_wait_and_are_served_by_id() {
    let mut h = Helper::new(0);
    assert!(matches!(h.take_pull(), PullStep::Nothing));
    let batch = [file("/a", 4)];
    let hash = hash_batch(&batch).unwrap();
    let o = offer_batch(1, &batch, hash).unwrap();
    h.offered(&o, vec!["/a".to_string()], hash);
    assert!(matches!(h.copied(KIND_TAR, b"/a", hash), CopyStep::Ignore));
    assert!(matches!(h.on_report(&pull_frame(o.id ^ 1)), ReportStep::Nothing));
    assert!(matches!(h.take_pull(), PullStep::Stale(id) if id == o.id ^ 1));
    h.on_report(&pull_frame(1));
    h.on_report(&pull_frame(o.id));
    match h.take_pull() {
        PullStep::Push(p) => assert_eq!(p, vec!["/a"]),
        _ => panic!("not served"),
    }
    assert!(matches!(h.take_pull(), PullStep::Nothing));
    h.push_ended(false);
    h.on_report(&pull_frame(o.id));
    assert!(matches!(h.take_pull(), PullStep::Push(_)));
    h.push_ended(true);
    h.on_report(&pull_frame(o.id));
    assert!(matches!(h.take_pull(), PullStep::Stale(_)));
}

#[test]
fn reports_are_handled() {
    let mut h = Helper::new(0);
    assert!(matches!(h.on_report(&ack_frame(128)), ReportStep::Acked(128)));
    assert!(matches!(h.on_report(&frame(T_PING, 0, &[])), ReportStep::Answer(f) if f[0] == 2));
    let o = Offer { kind: KIND_TAR, total: 1, items: 1, id: 2 };
    assert!(matches!(h.on_report(&offer_frame(&o)), ReportStep::Offered(got) if got == o));
    assert!(matches!(
        h.on_report(&[0xee; FRAME_LEN]),
        ReportStep::ProtocolError("unparseable frame")
    ));
    let frames = encode_transfer(KIND_TEXT, b"hi");
    h.on_report(&frames[0]);
    h.on_report(&frames[1]);
    assert_eq!(h.status(), Some((2, 2)));
    assert!(matches!(h.on_report(&frames[2]), ReportStep::Apply(KIND_TEXT, d) if d == b"hi"));
}

#[test]
fn copies_are_sent_once_and_supersede_offers() {
    let mut h = Helper::new(3);
    assert!(!h.seq_changed(3));
    assert!(h.seq_changed(4));
    assert!(!h.seq_changed(4));
    h.offered(&Offer { kind: KIND_TAR, total: 1, items: 1, id: 9 }, vec!["/a".to_string()], 5);
    assert!(matches!(h.copied(KIND_TEXT, b"t", 6), CopyStep::SendNow));
    h.sent(6);
    assert!(matches!(h.copied(KIND_TEXT, b"t", 6), CopyStep::Ignore));
    h.on_report(&pull_frame(9));
    assert!(matches!(h.take_pull(), PullStep::Stale(9)));
    h.files_set(&[file("/s", 1)]);
    let hash = hash_batch(&[file("/s", 1)]).unwrap();
    assert!(matches!(h.copied(KIND_TAR, b"/s", hash), CopyStep::Ignore));
}

#[test]
fn the_device_and_its_reports() {
    assert!(is_data_channel(0x1d6b, 0x0104, 0xff60));
    assert!(!is_data_channel(0x1d6b, 0x0104, 0x0001));
    let f = pull_frame(5);
    let r = hid_report(&f);
    assert_eq!(r.len(), FRAME_LEN + 1);
    assert_eq!(r[0], 0);
    assert_eq!(r[1..], f[..]);
}

#[test]
fn publishing() {
    assert!(image_published(Some(true), None));
    assert!(image_published(Some(false), Some(true)));
    assert!(!image_published(None, Some(false)));
    assert!(!image_published(None, None));
    assert!(files_published(true, None));
    assert!(files_published(true, Some(true)));
    assert!(!files_published(true, Some(false)));
    assert!(!files_published(false, Some(true)));
    assert_eq!(copy_effect(), [1, 0, 0, 0]);
}

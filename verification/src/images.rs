//! Images travel as PNG; the Windows clipboard speaks DIB, so conversion
//! happens at that edge.

use vstd::prelude::*;

verus! {

/// What the `image` crate makes of a PNG as a BMP: nothing if the bytes do
/// not decode as PNG, or the picture does not encode as BMP.
pub uninterp spec fn bmp_of_png(png: Seq<u8>) -> Option<Seq<u8>>;

/// What the `image` crate makes of a BMP as a PNG: nothing if the bytes do
/// not decode as BMP, or the picture does not encode as PNG.
pub uninterp spec fn png_of_bmp(bmp: Seq<u8>) -> Option<Seq<u8>>;

/// The length of the data of the PNG chunk at `at`.
pub open spec fn chunk_len(png: Seq<u8>, at: int) -> int {
    png[at] * 0x100_0000 + png[at + 1] * 0x1_0000 + png[at + 2] * 0x100 + png[at + 3]
}

/// Whether the PNG chunk at `at` has this type.
pub open spec fn is_chunk(png: Seq<u8>, at: int, t: (u8, u8, u8, u8)) -> bool {
    (png[at + 4], png[at + 5], png[at + 6], png[at + 7]) == t
}

pub const PLTE: (u8, u8, u8, u8) = (0x50, 0x4c, 0x54, 0x45);

pub const IDAT: (u8, u8, u8, u8) = (0x49, 0x44, 0x41, 0x54);

/// Whether every palette among the PNG chunks from `at` up to the first
/// image data is made of whole colors, of three bytes each. A chunk is its
/// length, its type, its data and a checksum.
pub open spec fn whole_palettes(png: Seq<u8>, at: int) -> bool
    decreases png.len() - at,
{
    if at + 12 > png.len() || is_chunk(png, at, IDAT) {
        true
    } else if is_chunk(png, at, PLTE) && chunk_len(png, at) % 3 != 0 {
        false
    } else {
        let next = at + 12 + chunk_len(png, at);
        next > png.len() || whole_palettes(png, next)
    }
}

/// Where the first chunk of a PNG begins: behind the signature.
pub const FIRST_CHUNK: usize = 8;

/// Where a PNG holds its color type, in the first chunk.
pub const COLOR_TYPE: usize = 25;

/// The color type of a picture that is made of indices into a palette.
pub const INDEXED: u8 = 3;

/// Whether a PNG that is made of indices has whole colors to look up. Other
/// pictures may carry any palette; it is not used.
pub open spec fn palette_is_whole(png: Seq<u8>) -> bool {
    png.len() > COLOR_TYPE && png[COLOR_TYPE as int] == INDEXED ==> whole_palettes(
        png,
        FIRST_CHUNK as int,
    )
}

/// What a PNG is as a BMP. One whose palette breaks off inside a color does
/// not decode.
pub open spec fn bmp_for(png: Seq<u8>) -> Option<Seq<u8>> {
    if palette_is_whole(png) {
        bmp_of_png(png)
    } else {
        None
    }
}

fn has_type(png: &[u8], at: usize, t: (u8, u8, u8, u8)) -> (b: bool)
    requires
        at + 8 <= png.len(),
    ensures
        b == is_chunk(png@, at as int, t),
{
    png[at + 4] == t.0 && png[at + 5] == t.1 && png[at + 6] == t.2 && png[at + 7] == t.3
}

/// Whether a PNG that is made of indices has whole colors to look up.
pub fn has_whole_palette(png: &[u8]) -> (b: bool)
    ensures
        b == palette_is_whole(png@),
{
    if png.len() <= COLOR_TYPE || png[COLOR_TYPE] != INDEXED {
        return true;
    }
    let mut at: usize = FIRST_CHUNK;
    while png.len() - at >= 12
        invariant
            at <= png@.len(),
            png@.len() > COLOR_TYPE,
            png@[COLOR_TYPE as int] == INDEXED,
            whole_palettes(png@, at as int) == whole_palettes(png@, FIRST_CHUNK as int),
        decreases png.len() - at,
    {
        let n: u64 = (png[at] as u64) * 0x100_0000 + (png[at + 1] as u64) * 0x1_0000 + (png[at
            + 2] as u64) * 0x100 + png[at + 3] as u64;
        if has_type(png, at, IDAT) {
            return true;
        }
        if has_type(png, at, PLTE) && n % 3 != 0 {
            return false;
        }
        if n > (png.len() - at - 12) as u64 {
            return true;
        }
        at = at + 12 + n as usize;
    }
    true
}

/// Calls `image::load_from_memory_with_format` for PNG, and
/// `DynamicImage::write_to` for BMP on what that decodes. Decoding panics on
/// a picture of indices whose palette breaks off inside a color, so these
/// are left out. The result depends on the bytes alone; an encoded BMP has at least its file header (14
/// bytes) and its information header (40 bytes). Which picture the bytes
/// show is left unsaid.
#[verifier::external_body]
pub(crate) fn png_to_bmp(png: &[u8]) -> (r: Option<Vec<u8>>)
    requires
        palette_is_whole(png@),
    ensures
        match r {
            Some(v) => bmp_of_png(png@) == Some(v@),
            None => bmp_of_png(png@) is None,
        },
        r matches Some(v) ==> v@.len() >= 54,
{
    let img = image::load_from_memory_with_format(png, image::ImageFormat::Png).ok()?;
    let mut out: Vec<u8> = Vec::new();
    img.write_to(&mut std::io::Cursor::new(&mut out), image::ImageFormat::Bmp).ok()?;
    Some(out)
}

/// Calls `image::load_from_memory_with_format` for BMP, and
/// `DynamicImage::write_to` for PNG on what that decodes. The result depends
/// on the bytes alone. Which picture the bytes show is left unsaid.
#[verifier::external_body]
pub(crate) fn bmp_to_png(bmp: &[u8]) -> (r: Option<Vec<u8>>)
    ensures
        match r {
            Some(v) => png_of_bmp(bmp@) == Some(v@),
            None => png_of_bmp(bmp@) is None,
        },
{
    let img = image::load_from_memory_with_format(bmp, image::ImageFormat::Bmp).ok()?;
    let mut out: Vec<u8> = Vec::new();
    img.write_to(&mut std::io::Cursor::new(&mut out), image::ImageFormat::Png).ok()?;
    Some(out)
}

/// A BMP file is a DIB behind a file header of this many bytes.
pub const BMP_FILE_HEADER: usize = 14;

/// The DIB in a BMP file: nothing if there is no more than the file header.
pub open spec fn dib_in(bmp: Seq<u8>) -> Option<Seq<u8>> {
    if bmp.len() > BMP_FILE_HEADER {
        Some(bmp.skip(BMP_FILE_HEADER as int))
    } else {
        None
    }
}

pub fn dib_of_bmp(bmp: &[u8]) -> (r: Option<Vec<u8>>)
    ensures
        match r {
            Some(d) => dib_in(bmp@) == Some(d@),
            None => dib_in(bmp@) is None,
        },
{
    if bmp.len() > BMP_FILE_HEADER {
        let d = vstd::slice::slice_to_vec(
            vstd::slice::slice_subrange(bmp, BMP_FILE_HEADER, bmp.len()),
        );
        assert(d@ =~= bmp@.skip(BMP_FILE_HEADER as int));
        Some(d)
    } else {
        None
    }
}

} // verus!

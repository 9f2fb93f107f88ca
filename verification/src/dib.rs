//! Clipboard images: encoded images (PNG, TIFF, JPEG) to Windows `CF_DIB`
//! (a `BITMAPINFOHEADER` and bottom-up BGRA rows) and back to PNG.

use vstd::prelude::*;
use crate::tiff::{load_tiff, tiff_decodes, tiff_png, write_png};
use crate::bytes::{le16, le32, read_le16, read_le32, get_le16, get_le32, push_le16, push_le32, lemma_le32_roundtrip};

verus! {

#[verifier::external_type_specification]
#[verifier::external_body]
pub struct ExImageError(image::ImageError);

/// Why an image conversion failed.
#[derive(Debug, Clone, Copy, PartialEq, Eq, Structural)]
pub enum ImageConvertError {
    /// The input could not be decoded as an image.
    Decode,
    /// The image could not be encoded as PNG.
    Encode,
    /// The DIB is shorter than its `BITMAPINFOHEADER`.
    TooSmall,
}

/// What `image::load_from_memory(..).to_rgba8()` makes of `data`: width,
/// height and row-major RGBA bytes, or `None` when it fails.
pub uninterp spec fn decoded_rgba8(data: Seq<u8>) -> Option<(u32, u32, Seq<u8>)>;

/// The PNG file `image` writes for an RGBA raster, or `None` when it fails.
pub uninterp spec fn png_encoding(width: u32, height: u32, rgba: Seq<u8>) -> Option<Seq<u8>>;

/// `image::load_from_memory`, then `DynamicImage::to_rgba8`: the decoded
/// image as width, height and raw RGBA buffer, whose length the `image`
/// source fixes at four bytes per pixel. The result is named by
/// `decoded_rgba8`.
#[verifier::external_body]
fn load_rgba8(data: &[u8]) -> (r: Result<(u32, u32, Vec<u8>), image::ImageError>)
    ensures
        match r {
            Ok((w, h, px)) => decoded_rgba8(data@) == Some((w, h, px@)) && px@.len() == 4 * w * h,
            Err(_) => decoded_rgba8(data@) is None,
        },
{
    let rgba = image::load_from_memory(data)?.to_rgba8();
    let (w, h) = rgba.dimensions();
    Ok((w, h, rgba.into_raw()))
}

/// `ImageBuffer::from_raw` on an RGBA buffer of exactly four bytes per
/// pixel (which always fits), then `write_to` with `ImageFormat::Png`. The
/// result is named by `png_encoding`.
#[verifier::external_body]
fn encode_png(width: u32, height: u32, rgba: Vec<u8>) -> (r: Result<Vec<u8>, image::ImageError>)
    requires
        rgba@.len() == 4 * width * height,
    ensures
        match r {
            Ok(b) => png_encoding(width, height, rgba@) == Some(b@),
            Err(_) => png_encoding(width, height, rgba@) is None,
        },
{
    let img = image::RgbaImage::from_raw(width, height, rgba).expect("four bytes per pixel");
    let mut out: Vec<u8> = Vec::new();
    img.write_to(&mut std::io::Cursor::new(&mut out), image::ImageFormat::Png)?;
    Ok(out)
}

/// Convert a TIFF image (as the macOS pasteboard holds images) to PNG: the
/// PNG file `tiff_png` names for it; `Decode` when it is no TIFF, `Encode`
/// when PNG writing fails.
pub fn tiff_to_png(tiff: &[u8]) -> (r: Result<Vec<u8>, ImageConvertError>)
    ensures
        match r {
            Ok(p) => tiff_decodes(tiff@) && tiff_png(tiff@) == Some(p@),
            Err(e) => (e == ImageConvertError::Decode && !tiff_decodes(tiff@)) || (e
                == ImageConvertError::Encode && tiff_decodes(tiff@) && tiff_png(tiff@) is None),
        },
        tiff_decodes(tiff@) && tiff_png(tiff@) is Some ==> r is Ok,
{
    let img = match load_tiff(tiff) {
        Ok(i) => i,
        Err(_) => {
            return Err(ImageConvertError::Decode);
        },
    };
    match write_png(&img) {
        Ok(png) => Ok(png),
        Err(_) => Err(ImageConvertError::Encode),
    }
}

// ---------------------------------------------------------------------------
// RGBA raster to DIB
// ---------------------------------------------------------------------------

/// The pixel at byte offset `i` of an RGBA raster, as B, G, R, A.
pub open spec fn bgra_of(px: Seq<u8>, i: int) -> Seq<u8> {
    seq![px[i + 2], px[i + 1], px[i], px[i + 3]]
}

/// The first `n` pixels of the RGBA row starting at byte `start`, as BGRA.
pub open spec fn dib_row(px: Seq<u8>, start: int, n: nat) -> Seq<u8>
    decreases n,
{
    if n == 0 {
        seq![]
    } else {
        dib_row(px, start, (n - 1) as nat) + bgra_of(px, start + 4 * (n - 1))
    }
}

/// The first `k` DIB rows: source rows from the bottom up.
pub open spec fn dib_rows(px: Seq<u8>, w: nat, h: nat, k: nat) -> Seq<u8>
    decreases k,
{
    if k == 0 {
        seq![]
    } else {
        dib_rows(px, w, h, (k - 1) as nat) + dib_row(px, 4 * ((h - k) * w), w)
    }
}

/// `BITMAPINFOHEADER` for a 32-bit, uncompressed, bottom-up image.
pub open spec fn dib_header(w: u32, h: u32) -> Seq<u8> {
    le32(40) + le32(w as nat) + le32(h as nat) + le16(1) + le16(32) + le32(0) + le32(
        ((4 * w * h) % 0x1_0000_0000) as nat,
    ) + le32(0) + le32(0) + le32(0) + le32(0)
}

/// The DIB for a decoded RGBA raster.
pub open spec fn dib_from_rgba(w: u32, h: u32, px: Seq<u8>) -> Seq<u8> {
    dib_header(w, h) + dib_rows(px, w as nat, h as nat, h as nat)
}

proof fn lemma_pixel_offset(w: nat, h: nat, y: nat, x: nat)
    by (nonlinear_arith)
    requires
        y < h,
        x < w,
    ensures
        4 * (y * w) + 4 * x + 4 <= 4 * w * h,
{
    assert(y * w + x + 1 <= y * w + w);
    assert(y * w + w == (y + 1) * w);
    assert((y + 1) * w <= h * w);
}

proof fn lemma_row_offset(w: nat, h: nat, y: nat)
    by (nonlinear_arith)
    requires
        y < h,
    ensures
        4 * (y * w) <= 4 * w * h,
{
    assert(y * w <= h * w);
}

/// Convert an encoded image (PNG, TIFF, JPEG) to `CF_DIB`.
pub fn png_to_dib(image_data: &[u8]) -> (r: Result<Vec<u8>, ImageConvertError>)
    ensures
        r is Ok <==> decoded_rgba8(image_data@) is Some,
        r matches Ok(dib) ==> ({
            let d = decoded_rgba8(image_data@)->0;
            dib@ == dib_from_rgba(d.0, d.1, d.2)
        }),
        r matches Err(e) ==> e == ImageConvertError::Decode,
{
    let (width, height, px) = match load_rgba8(image_data) {
        Ok(t) => t,
        Err(_) => {
            return Err(ImageConvertError::Decode);
        },
    };
    let mut dib: Vec<u8> = Vec::new();
    push_le32(&mut dib, 40);
    push_le32(&mut dib, width);
    push_le32(&mut dib, height);
    push_le16(&mut dib, 1);
    push_le16(&mut dib, 32);
    push_le32(&mut dib, 0);
    push_le32(&mut dib, ((px.len() as u64) % 0x1_0000_0000) as u32);
    push_le32(&mut dib, 0);
    push_le32(&mut dib, 0);
    push_le32(&mut dib, 0);
    push_le32(&mut dib, 0);
    let ghost header = dib@;
    assert(header =~= dib_header(width, height));
    let mut k: u32 = 0;
    while k < height
        invariant
            k <= height,
            px@.len() == 4 * width * height,
            dib@ == header + dib_rows(px@, width as nat, height as nat, k as nat),
        decreases height - k,
    {
        let y: u32 = height - 1 - k;
        proof {
            lemma_row_offset(width as nat, height as nat, y as nat);
        }
        assert(4 * (y * width) <= px.len());
        let row_start: usize = 4 * ((y as usize) * (width as usize));
        let ghost before = dib@;
        let mut x: u32 = 0;
        while x < width
            invariant
                x <= width,
                k < height,
                y == height - 1 - k,
                px@.len() == 4 * width * height,
                row_start == 4 * (y * width),
                dib@ == before + dib_row(px@, row_start as int, x as nat),
            decreases width - x,
        {
            proof {
                lemma_pixel_offset(width as nat, height as nat, y as nat, x as nat);
            }
            assert(4 * (y * width) + 4 * x + 4 <= px.len());
            let i: usize = row_start + 4 * (x as usize);
            dib.push(px[i + 2]);
            dib.push(px[i + 1]);
            dib.push(px[i]);
            dib.push(px[i + 3]);
            assert(dib@ =~= before + dib_row(px@, row_start as int, (x + 1) as nat));
            x = x + 1;
        }
        assert(dib@ =~= header + dib_rows(px@, width as nat, height as nat, (k + 1) as nat));
        k = k + 1;
    }
    Ok(dib)
}

// ---------------------------------------------------------------------------
// DIB to RGBA raster
// ---------------------------------------------------------------------------

/// A 32-bit two's-complement value from its unsigned bits.
pub open spec fn signed32(v: nat) -> int {
    if v < 0x8000_0000 {
        v as int
    } else {
        v - 0x1_0000_0000
    }
}

/// `biWidth`, read as unsigned.
pub open spec fn dib_width(d: Seq<u8>) -> nat {
    read_le32(d, 4)
}

/// `biHeight`, signed.
pub open spec fn dib_height_raw(d: Seq<u8>) -> int {
    signed32(read_le32(d, 8))
}

/// Number of rows.
pub open spec fn dib_height(d: Seq<u8>) -> nat {
    if dib_height_raw(d) >= 0 {
        dib_height_raw(d) as nat
    } else {
        (-dib_height_raw(d)) as nat
    }
}

/// Rows are stored bottom-up when `biHeight` is positive.
pub open spec fn dib_bottom_up(d: Seq<u8>) -> bool {
    dib_height_raw(d) > 0
}

/// `biBitCount`.
pub open spec fn dib_bits(d: Seq<u8>) -> nat {
    read_le16(d, 14)
}

/// Whole bytes per pixel.
pub open spec fn dib_pixel_bytes(d: Seq<u8>) -> nat {
    dib_bits(d) / 8
}

/// Bytes per stored row, padded to a multiple of four.
pub open spec fn dib_stride(d: Seq<u8>) -> nat {
    ((dib_width(d) * dib_pixel_bytes(d) + 3) / 4) * 4
}

/// RGBA of pixel (`x`, `y`), `y` counted from the top: transparent black
/// when the stored pixel lies past the data, BGRA at 32 bits, opaque BGR at
/// 24 bits, opaque black at any other depth.
pub open spec fn dib_rgba_at(d: Seq<u8>, x: nat, y: nat) -> Seq<u8> {
    let p = d.skip(40);
    let bpp = dib_pixel_bytes(d);
    let src_y: int = if dib_bottom_up(d) {
        dib_height(d) - 1 - y
    } else {
        y as int
    };
    let start = src_y * dib_stride(d) + x * bpp;
    if start + bpp > p.len() {
        seq![0u8, 0u8, 0u8, 0u8]
    } else if dib_bits(d) == 32 {
        seq![p[start + 2], p[start + 1], p[start], p[start + 3]]
    } else if dib_bits(d) == 24 {
        seq![p[start + 2], p[start + 1], p[start], 255u8]
    } else {
        seq![0u8, 0u8, 0u8, 255u8]
    }
}

/// The first `n` pixels of row `y`, as RGBA.
pub open spec fn dib_raster_row(d: Seq<u8>, y: nat, n: nat) -> Seq<u8>
    decreases n,
{
    if n == 0 {
        seq![]
    } else {
        dib_raster_row(d, y, (n - 1) as nat) + dib_rgba_at(d, (n - 1) as nat, y)
    }
}

/// The first `k` rows, top-down, as RGBA.
pub open spec fn dib_raster_rows(d: Seq<u8>, k: nat) -> Seq<u8>
    decreases k,
{
    if k == 0 {
        seq![]
    } else {
        dib_raster_rows(d, (k - 1) as nat) + dib_raster_row(d, (k - 1) as nat, dib_width(d))
    }
}

/// The image a DIB holds, as a top-down RGBA raster.
pub open spec fn dib_raster(d: Seq<u8>) -> Seq<u8> {
    dib_raster_rows(d, dib_height(d))
}

proof fn lemma_raster_row_len(d: Seq<u8>, y: nat, n: nat)
    ensures
        dib_raster_row(d, y, n).len() == 4 * n,
    decreases n,
{
    if n > 0 {
        lemma_raster_row_len(d, y, (n - 1) as nat);
    }
}

proof fn lemma_raster_rows_len(d: Seq<u8>, k: nat)
    ensures
        dib_raster_rows(d, k).len() == 4 * dib_width(d) * k,
    decreases k,
{
    let w = dib_width(d);
    if k > 0 {
        lemma_raster_rows_len(d, (k - 1) as nat);
        lemma_raster_row_len(d, (k - 1) as nat, w);
        assert(4 * w * (k - 1) + 4 * w == 4 * w * k) by (nonlinear_arith);
    } else {
        assert(4 * w * k == 0) by (nonlinear_arith)
            requires
                k == 0,
        ;
    }
}

/// Convert `CF_DIB` to PNG. Images whose RGBA raster would not fit in
/// memory are left out: the raster buffer cannot be allocated for them.
pub fn dib_to_png(dib: &[u8]) -> (r: Result<Vec<u8>, ImageConvertError>)
    requires
        dib@.len() >= 40 ==> 4 * dib_width(dib@) * dib_height(dib@) <= usize::MAX,
    ensures
        dib@.len() < 40 ==> r == Err::<Vec<u8>, ImageConvertError>(ImageConvertError::TooSmall),
        dib@.len() >= 40 ==> match r {
            Ok(png) => png_encoding(
                dib_width(dib@) as u32,
                dib_height(dib@) as u32,
                dib_raster(dib@),
            ) == Some(png@),
            Err(e) => e == ImageConvertError::Encode && png_encoding(
                dib_width(dib@) as u32,
                dib_height(dib@) as u32,
                dib_raster(dib@),
            ) is None,
        },
{
    if dib.len() < 40 {
        return Err(ImageConvertError::TooSmall);
    }
    let ghost d = dib@;
    let width: u32 = get_le32(dib, 4);
    let hraw: u32 = get_le32(dib, 8);
    let (height, bottom_up): (u32, bool) = if hraw < 0x8000_0000 {
        (hraw, hraw > 0)
    } else {
        ((0x1_0000_0000u64 - hraw as u64) as u32, false)
    };
    let bits: u16 = get_le16(dib, 14);
    let bpp: u128 = (bits / 8) as u128;
    assert(bpp <= 8191);
    assert(width as u128 * bpp <= 0xFFFF_FFFF * 8191) by (nonlinear_arith)
        requires
            width <= 0xFFFF_FFFF,
            bpp <= 8191,
    ;
    let stride: u128 = ((width as u128 * bpp + 3) / 4) * 4;
    let plen: u128 = (dib.len() - 40) as u128;
    assert(height == dib_height(d));
    assert(bottom_up == dib_bottom_up(d));
    assert(d.skip(40).len() == plen);
    let mut out: Vec<u8> = Vec::new();
    let mut y: u32 = 0;
    while y < height
        invariant
            y <= height,
            d == dib@,
            d.len() >= 40,
            width == dib_width(d),
            height == dib_height(d),
            bottom_up == dib_bottom_up(d),
            bits == dib_bits(d),
            bpp == dib_pixel_bytes(d),
            bpp <= 8191,
            stride == dib_stride(d),
            stride <= 0x1_0000_0000_0000,
            plen == d.len() - 40,
            plen + 40 == dib.len(),
            out@ == dib_raster_rows(d, y as nat),
        decreases height - y,
    {
        let src_y: u128 = if bottom_up {
            (height - 1 - y) as u128
        } else {
            y as u128
        };
        let ghost before = out@;
        let mut x: u32 = 0;
        while x < width
            invariant
                x <= width,
                y < height,
                d == dib@,
                d.len() >= 40,
                width == dib_width(d),
                height == dib_height(d),
                bottom_up == dib_bottom_up(d),
                bits == dib_bits(d),
                bpp == dib_pixel_bytes(d),
                bpp <= 8191,
                stride == dib_stride(d),
                stride <= 0x1_0000_0000_0000,
                plen == d.len() - 40,
                plen + 40 == dib.len(),
                src_y == (if bottom_up { height - 1 - y } else { y as int }),
                out@ == before + dib_raster_row(d, y as nat, x as nat),
            decreases width - x,
        {
            proof {
                assert(src_y * stride <= 0xFFFF_FFFF * 0x1_0000_0000_0000) by (nonlinear_arith)
                    requires
                        src_y <= 0xFFFF_FFFF,
                        stride <= 0x1_0000_0000_0000,
                ;
                assert((x as u128) * bpp <= 0xFFFF_FFFF * 8191) by (nonlinear_arith)
                    requires
                        x <= 0xFFFF_FFFF,
                        bpp <= 8191,
                ;
            }
            let start: u128 = src_y * stride + (x as u128) * bpp;
            if start + bpp > plen {
                out.push(0);
                out.push(0);
                out.push(0);
                out.push(0);
            } else {
                let s: usize = 40 + start as usize;
                if bits == 32 {
                    out.push(dib[s + 2]);
                    out.push(dib[s + 1]);
                    out.push(dib[s]);
                    out.push(dib[s + 3]);
                } else if bits == 24 {
                    out.push(dib[s + 2]);
                    out.push(dib[s + 1]);
                    out.push(dib[s]);
                    out.push(255);
                } else {
                    out.push(0);
                    out.push(0);
                    out.push(0);
                    out.push(255);
                }
            }
            assert(out@ =~= before + dib_raster_row(d, y as nat, (x + 1) as nat));
            x = x + 1;
        }
        assert(out@ =~= dib_raster_rows(d, (y + 1) as nat));
        y = y + 1;
    }
    proof {
        lemma_raster_rows_len(d, height as nat);
    }
    match encode_png(width, height, out) {
        Ok(png) => Ok(png),
        Err(_) => Err(ImageConvertError::Encode),
    }
}

// ---------------------------------------------------------------------------
// Round trip
// ---------------------------------------------------------------------------

proof fn lemma_dib_row_len(px: Seq<u8>, s: int, n: nat)
    ensures
        dib_row(px, s, n).len() == 4 * n,
    decreases n,
{
    if n > 0 {
        lemma_dib_row_len(px, s, (n - 1) as nat);
    }
}

proof fn lemma_dib_row_index(px: Seq<u8>, s: int, n: nat, x: nat, c: int)
    requires
        x < n,
        0 <= c < 4,
    ensures
        dib_row(px, s, n)[4 * x + c] == bgra_of(px, s + 4 * x)[c],
    decreases n,
{
    lemma_dib_row_len(px, s, (n - 1) as nat);
    if x < n - 1 {
        lemma_dib_row_index(px, s, (n - 1) as nat, x, c);
    }
}

proof fn lemma_dib_rows_len(px: Seq<u8>, w: nat, h: nat, k: nat)
    ensures
        dib_rows(px, w, h, k).len() == 4 * w * k,
    decreases k,
{
    if k > 0 {
        lemma_dib_rows_len(px, w, h, (k - 1) as nat);
        lemma_dib_row_len(px, 4 * ((h - k) * w), w);
        assert(4 * w * (k - 1) + 4 * w == 4 * w * k) by (nonlinear_arith);
    } else {
        assert(4 * w * k == 0) by (nonlinear_arith)
            requires
                k == 0,
        ;
    }
}

proof fn lemma_dib_rows_index(px: Seq<u8>, w: nat, h: nat, k: nat, j: nat, m: int)
    requires
        j < k,
        0 <= m < 4 * w,
    ensures
        dib_rows(px, w, h, k)[4 * w * j + m] == dib_row(px, 4 * ((h - 1 - j) * w), w)[m],
    decreases k,
{
    lemma_dib_rows_len(px, w, h, (k - 1) as nat);
    if j < k - 1 {
        lemma_dib_rows_index(px, w, h, (k - 1) as nat, j, m);
        assert(4 * w * j + m < 4 * w * (k - 1)) by (nonlinear_arith)
            requires
                j < k - 1,
                0 <= m < 4 * w,
        ;
    } else {
        assert(h - 1 - j == h - k);
        lemma_dib_row_len(px, 4 * ((h - k) * w), w);
        assert(4 * w * j == 4 * w * (k - 1));
    }
}

/// What a DIB built from a `w` by `h` raster `px` says of itself.
pub open spec fn built_dib_facts(d: Seq<u8>, w: nat, h: nat, px: Seq<u8>) -> bool {
    &&& d.len() >= 40
    &&& dib_width(d) == w
    &&& dib_height(d) == h
    &&& dib_bottom_up(d) == (h > 0)
    &&& dib_bits(d) == 32
    &&& dib_pixel_bytes(d) == 4
    &&& dib_stride(d) == 4 * w
    &&& d.skip(40) == dib_rows(px, w, h, h)
    &&& px.len() == 4 * w * h
}

proof fn lemma_built_dib_facts(w: u32, h: u32, px: Seq<u8>)
    requires
        px.len() == 4 * w * h,
        h < 0x8000_0000,
    ensures
        built_dib_facts(dib_from_rgba(w, h, px), w as nat, h as nat, px),
{
    let d = dib_from_rgba(w, h, px);
    let hdr = dib_header(w, h);
    let rows = dib_rows(px, w as nat, h as nat, h as nat);
    assert(hdr.len() == 40);
    lemma_le32_roundtrip(w as nat);
    lemma_le32_roundtrip(h as nat);
    let lw = le32(w as nat);
    let lh = le32(h as nat);
    let lb = le16(32);
    assert(d[4] == lw[0] && d[5] == lw[1] && d[6] == lw[2] && d[7] == lw[3]);
    assert(d[8] == lh[0] && d[9] == lh[1] && d[10] == lh[2] && d[11] == lh[3]);
    assert(d[14] == lb[0] && d[15] == lb[1]);
    assert(read_le32(d, 4) == read_le32(lw, 0));
    assert(read_le32(d, 8) == read_le32(lh, 0));
    assert(read_le16(d, 14) == read_le16(lb, 0));
    assert(dib_width(d) == w);
    assert(dib_height_raw(d) == h);
    assert(dib_bits(d) == 32);
    assert(((w * 4 + 3) / 4) * 4 == 4 * w);
    assert(d.skip(40) =~= rows);
    lemma_dib_rows_len(px, w as nat, h as nat, h as nat);
}

proof fn lemma_built_dib_pixel(d: Seq<u8>, w: nat, h: nat, px: Seq<u8>, x: nat, y: nat)
    requires
        built_dib_facts(d, w, h, px),
        x < w,
        y < h,
    ensures
        dib_rgba_at(d, x, y) == px.subrange((4 * (y * w) + 4 * x) as int, (4 * (y * w) + 4 * x + 4) as int),
{
    let p = d.skip(40);
    let j: nat = (h - 1 - y) as nat;
    let start: int = (j * dib_stride(d) + x * 4) as int;
    lemma_dib_rows_len(px, w, h, h);
    assert(start == 4 * w * j + 4 * x) by (nonlinear_arith)
        requires
            start == j * dib_stride(d) + x * 4,
            dib_stride(d) == 4 * w,
    ;
    assert(4 * w * j + 4 * x + 4 <= 4 * w * h) by (nonlinear_arith)
        requires
            j < h,
            x < w,
    ;
    assert(4 * (y * w) + 4 * x + 4 <= 4 * w * h) by (nonlinear_arith)
        requires
            y < h,
            x < w,
    ;
    let i: int = (4 * (y * w) + 4 * x) as int;
    assert(h - 1 - j == y);
    lemma_dib_rows_index(px, w, h, h, j, (4 * x + 0) as int);
    lemma_dib_row_index(px, 4 * ((h - 1 - j) * w), w, x, 0);
    lemma_dib_rows_index(px, w, h, h, j, (4 * x + 1) as int);
    lemma_dib_row_index(px, 4 * ((h - 1 - j) * w), w, x, 1);
    lemma_dib_rows_index(px, w, h, h, j, (4 * x + 2) as int);
    lemma_dib_row_index(px, 4 * ((h - 1 - j) * w), w, x, 2);
    lemma_dib_rows_index(px, w, h, h, j, (4 * x + 3) as int);
    lemma_dib_row_index(px, 4 * ((h - 1 - j) * w), w, x, 3);
    assert(p[start] == bgra_of(px, i)[0]);
    assert(p[start + 1] == bgra_of(px, i)[1]);
    assert(p[start + 2] == bgra_of(px, i)[2]);
    assert(p[start + 3] == bgra_of(px, i)[3]);
    assert(dib_rgba_at(d, x, y) =~= px.subrange(i, i + 4));
}

proof fn lemma_built_dib_row(d: Seq<u8>, w: nat, h: nat, px: Seq<u8>, y: nat, n: nat)
    requires
        built_dib_facts(d, w, h, px),
        y < h,
        n <= w,
    ensures
        dib_raster_row(d, y, n) == px.subrange((4 * (y * w)) as int, (4 * (y * w) + 4 * n) as int),
    decreases n,
{
    assert(4 * (y * w) + 4 * w <= 4 * w * h) by (nonlinear_arith)
        requires
            y < h,
    ;
    if n > 0 {
        lemma_built_dib_row(d, w, h, px, y, (n - 1) as nat);
        lemma_built_dib_pixel(d, w, h, px, (n - 1) as nat, y);
        let b: int = (4 * (y * w)) as int;
        assert(px.subrange(b, b + 4 * n) =~= px.subrange(b, b + 4 * (n - 1)) + px.subrange(
            b + 4 * (n - 1),
            b + 4 * (n - 1) + 4,
        ));
    } else {
        assert(px.subrange((4 * (y * w)) as int, (4 * (y * w)) as int) =~= Seq::<u8>::empty());
    }
}

proof fn lemma_built_dib_rows(d: Seq<u8>, w: nat, h: nat, px: Seq<u8>, k: nat)
    requires
        built_dib_facts(d, w, h, px),
        k <= h,
    ensures
        dib_raster_rows(d, k) == px.take((4 * w * k) as int),
    decreases k,
{
    if k > 0 {
        lemma_built_dib_rows(d, w, h, px, (k - 1) as nat);
        lemma_built_dib_row(d, w, h, px, (k - 1) as nat, w);
        assert(4 * ((k - 1) * w) == 4 * w * (k - 1)) by (nonlinear_arith);
        assert(4 * w * (k - 1) + 4 * w == 4 * w * k) by (nonlinear_arith);
        assert(4 * w * k <= 4 * w * h) by (nonlinear_arith)
            requires
                k <= h,
        ;
        assert(px.take((4 * w * k) as int) =~= px.take((4 * w * (k - 1)) as int) + px.subrange((4 * w * (k - 1)) as int, (4 * w * k) as int));
    } else {
        assert(4 * w * k == 0) by (nonlinear_arith)
            requires
                k == 0,
        ;
        assert(px.take(0) =~= Seq::<u8>::empty());
    }
}

proof fn lemma_raster_row_index(d: Seq<u8>, y: nat, n: nat, x: nat, c: int)
    requires
        x < n,
        0 <= c < 4,
    ensures
        dib_raster_row(d, y, n)[4 * x + c] == dib_rgba_at(d, x, y)[c],
    decreases n,
{
    lemma_raster_row_len(d, y, (n - 1) as nat);
    if x < n - 1 {
        lemma_raster_row_index(d, y, (n - 1) as nat, x, c);
    }
}

proof fn lemma_raster_rows_index(d: Seq<u8>, k: nat, y: nat, x: nat, c: int)
    requires
        y < k,
        x < dib_width(d),
        0 <= c < 4,
    ensures
        dib_raster_rows(d, k)[4 * (y * dib_width(d) + x) + c] == dib_rgba_at(d, x, y)[c],
    decreases k,
{
    let w = dib_width(d);
    let m = (k - 1) as nat;
    lemma_raster_rows_len(d, m);
    lemma_raster_row_len(d, m, w);
    if y < m {
        lemma_raster_rows_index(d, m, y, x, c);
        assert(4 * (y * w + x) + c < 4 * w * m) by (nonlinear_arith)
            requires
                y < m,
                x < w,
                0 <= c < 4,
        ;
    } else {
        assert(4 * (y * w + x) + c == 4 * w * m + (4 * x + c)) by (nonlinear_arith)
            requires
                y == m,
        ;
        lemma_raster_row_index(d, m, w, x, c);
    }
}

/// Each pixel of a 24-bit or 32-bit DIB whose stored bytes lie in the data
/// comes out of the raster with its channels reordered from the stored
/// blue, green, red (and, at 32 bits, alpha) to red, green, blue, alpha;
/// a 24-bit pixel is opaque.  Rows count from the top, so a bottom-up DIB
/// (positive `biHeight`) is read from its last stored row.
pub proof fn lemma_dib_pixel_channels(d: Seq<u8>, x: nat, y: nat)
    requires
        d.len() >= 40,
        x < dib_width(d),
        y < dib_height(d),
        dib_bits(d) == 24 || dib_bits(d) == 32,
        ({
            let src_y: int = if dib_bottom_up(d) {
                dib_height(d) - 1 - y
            } else {
                y as int
            };
            40 + src_y * dib_stride(d) + x * (dib_bits(d) / 8) + dib_bits(d) / 8 <= d.len()
        }),
    ensures
        ({
            let src_y: int = if dib_bottom_up(d) {
                dib_height(d) - 1 - y
            } else {
                y as int
            };
            let off = 40 + src_y * dib_stride(d) + x * (dib_bits(d) / 8);
            let i: int = (4 * (y * dib_width(d) + x)) as int;
            let r = dib_raster(d);
            &&& r[i] == d[off + 2]
            &&& r[i + 1] == d[off + 1]
            &&& r[i + 2] == d[off]
            &&& r[i + 3] == (if dib_bits(d) == 24 {
                255u8
            } else {
                d[off + 3]
            })
        }),
{
    let src_y: int = if dib_bottom_up(d) {
        dib_height(d) - 1 - y
    } else {
        y as int
    };
    let bpp = dib_pixel_bytes(d);
    let start = src_y * dib_stride(d) + x * bpp;
    assert(0 <= src_y * dib_stride(d)) by (nonlinear_arith)
        requires
            0 <= src_y,
    ;
    assert(0 <= x * bpp) by (nonlinear_arith);
    let p = d.skip(40);
    assert(start + bpp <= p.len());
    lemma_raster_rows_index(d, dib_height(d), y, x, 0);
    lemma_raster_rows_index(d, dib_height(d), y, x, 1);
    lemma_raster_rows_index(d, dib_height(d), y, x, 2);
    lemma_raster_rows_index(d, dib_height(d), y, x, 3);
    assert(p[start] == d[40 + start]);
    assert(p[start + 1] == d[40 + start + 1]);
    assert(p[start + 2] == d[40 + start + 2]);
    if dib_bits(d) == 32 {
        assert(p[start + 3] == d[40 + start + 3]);
    }
}

/// The DIB written for a `w` by `h` RGBA raster holds a 40-byte header and
/// then the rows bottom-up, four bytes apart: raster pixel (`x`, `y`), `y`
/// counted from the top, is stored as blue, green, red, alpha at byte
/// `40 + 4 * (w * (h - 1 - y) + x)`.
pub proof fn lemma_dib_from_rgba_pixel(w: u32, h: u32, px: Seq<u8>, x: nat, y: nat)
    requires
        px.len() == 4 * w * h,
        x < w,
        y < h,
    ensures
        ({
            let d = dib_from_rgba(w, h, px);
            let off: int = 40 + 4 * (w * (h - 1 - y) + x);
            let i: int = 4 * (y * w + x);
            &&& d.len() == 40 + 4 * w * h
            &&& d[off] == px[i + 2]
            &&& d[off + 1] == px[i + 1]
            &&& d[off + 2] == px[i]
            &&& d[off + 3] == px[i + 3]
        }),
{
    let wn = w as nat;
    let hn = h as nat;
    let d = dib_from_rgba(w, h, px);
    let rows = dib_rows(px, wn, hn, hn);
    assert(dib_header(w, h).len() == 40);
    lemma_dib_rows_len(px, wn, hn, hn);
    let j: nat = (hn - 1 - y) as nat;
    assert(h - 1 - j == y);
    assert(4 * (w * (h - 1 - y) + x) == 4 * wn * j + 4 * x) by (nonlinear_arith)
        requires
            j == h - 1 - y,
            wn == w,
    ;
    assert(4 * wn * j + 4 * x + 4 <= 4 * wn * hn) by (nonlinear_arith)
        requires
            j < hn,
            x < wn,
    ;
    let rs: int = 4 * ((hn - 1 - j) * wn);
    assert(rs + 4 * x == 4 * (y * w + x)) by (nonlinear_arith)
        requires
            rs == 4 * ((hn - 1 - j) * wn),
            hn - 1 - j == y,
            wn == w,
    ;
    let base: int = (4 * wn * j + 4 * x) as int;
    lemma_dib_rows_index(px, wn, hn, hn, j, (4 * x + 0) as int);
    lemma_dib_row_index(px, rs, wn, x, 0);
    lemma_dib_rows_index(px, wn, hn, hn, j, (4 * x + 1) as int);
    lemma_dib_row_index(px, rs, wn, x, 1);
    lemma_dib_rows_index(px, wn, hn, hn, j, (4 * x + 2) as int);
    lemma_dib_row_index(px, rs, wn, x, 2);
    lemma_dib_rows_index(px, wn, hn, hn, j, (4 * x + 3) as int);
    lemma_dib_row_index(px, rs, wn, x, 3);
    assert(d.skip(40) =~= rows);
    assert(d[40 + base] == rows[base]);
    assert(d[40 + base + 1] == rows[base + 1]);
    assert(d[40 + base + 2] == rows[base + 2]);
    assert(d[40 + base + 3] == rows[base + 3]);
}

/// Pixels that a DIB cannot supply: one whose stored bytes lie past the data
/// comes out transparent black, and at a depth other than 24 or 32 bits one
/// comes out opaque black.
pub proof fn lemma_dib_pixel_fallback(d: Seq<u8>, x: nat, y: nat)
    requires
        d.len() >= 40,
        x < dib_width(d),
        y < dib_height(d),
    ensures
        ({
            let src_y: int = if dib_bottom_up(d) {
                dib_height(d) - 1 - y
            } else {
                y as int
            };
            let off = 40 + src_y * dib_stride(d) + x * (dib_bits(d) / 8);
            let i: int = (4 * (y * dib_width(d) + x)) as int;
            let r = dib_raster(d);
            &&& off + dib_bits(d) / 8 > d.len() ==> r[i] == 0 && r[i + 1] == 0 && r[i + 2] == 0 && r[i + 3]
                == 0
            &&& off + dib_bits(d) / 8 <= d.len() && dib_bits(d) != 24 && dib_bits(d) != 32 ==> r[i] == 0
                && r[i + 1] == 0 && r[i + 2] == 0 && r[i + 3] == 255
        }),
{
    lemma_raster_rows_index(d, dib_height(d), y, x, 0);
    lemma_raster_rows_index(d, dib_height(d), y, x, 1);
    lemma_raster_rows_index(d, dib_height(d), y, x, 2);
    lemma_raster_rows_index(d, dib_height(d), y, x, 3);
}

/// A raster survives the trip through a DIB: the DIB built from a `w` by
/// `h` RGBA raster (with fewer than 2^31 rows, so that its height reads as
/// positive) reads back as the same width, height and raster.
pub proof fn lemma_dib_roundtrip(w: u32, h: u32, px: Seq<u8>)
    requires
        px.len() == 4 * w * h,
        h < 0x8000_0000,
    ensures
        dib_width(dib_from_rgba(w, h, px)) == w,
        dib_height(dib_from_rgba(w, h, px)) == h,
        dib_raster(dib_from_rgba(w, h, px)) == px,
{
    let d = dib_from_rgba(w, h, px);
    lemma_built_dib_facts(w, h, px);
    lemma_built_dib_rows(d, w as nat, h as nat, px, h as nat);
    assert(px.take((4 * w * h) as int) =~= px);
}

} // verus!

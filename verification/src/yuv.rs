//! BGRA frames to planar YUV 4:2:0 (BT.601, limited range) in a buffer
//! padded to the encoder's dimensions.

use vstd::prelude::*;

verus! {

/// `v` limited to 0..=255.
pub open spec fn clamp_u8(v: int) -> u8 {
    if v < 0 {
        0
    } else if v > 255 {
        255
    } else {
        v as u8
    }
}

/// Luma of a pixel.
pub open spec fn luma(b: int, g: int, r: int) -> u8 {
    clamp_u8((66 * r + 129 * g + 25 * b + 128) / 256 + 16)
}

/// Blue-difference chroma of a pixel (division rounds down).
pub open spec fn chroma_u(b: int, g: int, r: int) -> u8 {
    clamp_u8((-38 * r - 74 * g + 112 * b + 128) / 256 + 128)
}

/// Red-difference chroma of a pixel (division rounds down).
pub open spec fn chroma_v(b: int, g: int, r: int) -> u8 {
    clamp_u8((112 * r - 94 * g - 18 * b + 128) / 256 + 128)
}

/// Byte offset of source pixel (`row`, `col`).
pub open spec fn src_offset(stride: nat, row: int, col: int) -> int {
    row * stride + col * 4
}

/// A source pixel is converted when it lies in the source image and its
/// blue, green and red bytes are in the buffer.
pub open spec fn src_present(bgra: Seq<u8>, sw: nat, sh: nat, stride: nat, row: int, col: int) -> bool {
    0 <= row < sh && 0 <= col < sw && src_offset(stride, row, col) + 2 < bgra.len()
}

/// Which plane sample `i` of the buffer is, and the source pixel it comes
/// from: 0 for luma, 1 for U, 2 for V, 3 past the planes.
pub open spec fn plane_of(i: int, ew: nat, eh: nat) -> int {
    let ysz = ew * eh;
    let csz = (ew / 2) * (eh / 2);
    if i < ysz {
        0
    } else if i < ysz + csz {
        1
    } else if i < ysz + 2 * csz {
        2
    } else {
        3
    }
}

/// Source row of buffer sample `i`.
pub open spec fn sample_row(i: int, ew: nat, eh: nat) -> int {
    let ysz = ew * eh;
    let cw = ew / 2;
    let csz = cw * (eh / 2);
    let p = plane_of(i, ew, eh);
    if p == 0 {
        i / (ew as int)
    } else if p == 1 {
        2 * ((i - ysz) / (cw as int))
    } else {
        2 * ((i - ysz - csz) / (cw as int))
    }
}

/// Source column of buffer sample `i`.
pub open spec fn sample_col(i: int, ew: nat, eh: nat) -> int {
    let ysz = ew * eh;
    let cw = ew / 2;
    let csz = cw * (eh / 2);
    let p = plane_of(i, ew, eh);
    if p == 0 {
        i % (ew as int)
    } else if p == 1 {
        2 * ((i - ysz) % (cw as int))
    } else {
        2 * ((i - ysz - csz) % (cw as int))
    }
}

/// The converted value of buffer sample `i` from its source pixel.
pub open spec fn sample_value(bgra: Seq<u8>, stride: nat, i: int, ew: nat, eh: nat) -> u8 {
    let o = src_offset(stride, sample_row(i, ew, eh), sample_col(i, ew, eh));
    let b = bgra[o] as int;
    let g = bgra[o + 1] as int;
    let r = bgra[o + 2] as int;
    let p = plane_of(i, ew, eh);
    if p == 0 {
        luma(b, g, r)
    } else if p == 1 {
        chroma_u(b, g, r)
    } else {
        chroma_v(b, g, r)
    }
}

/// Source pixel (`row`, `col`) comes before (`r`, `c`) in row order.
pub open spec fn visited(row: int, col: int, r: int, c: int) -> bool {
    row < r || (row == r && col < c)
}

/// The buffer once the source pixels before (`r`, `c`) are converted:
/// every plane sample whose source pixel is present and visited holds its
/// value; all else is as it was.
pub open spec fn converted_until(
    bgra: Seq<u8>,
    sw: nat,
    sh: nat,
    stride: nat,
    ew: nat,
    eh: nat,
    old: Seq<u8>,
    r: int,
    c: int,
) -> Seq<u8> {
    Seq::new(
        old.len(),
        |i: int|
            if plane_of(i, ew, eh) < 3 && src_present(bgra, sw, sh, stride, sample_row(i, ew, eh), sample_col(i, ew, eh))
                && visited(sample_row(i, ew, eh), sample_col(i, ew, eh), r, c) {
                sample_value(bgra, stride, i, ew, eh)
            } else {
                old[i]
            },
    )
}

/// The buffer after the whole conversion.
pub open spec fn padded_yuv420(
    bgra: Seq<u8>,
    sw: nat,
    sh: nat,
    stride: nat,
    ew: nat,
    eh: nat,
    old: Seq<u8>,
) -> Seq<u8> {
    converted_until(bgra, sw, sh, stride, ew, eh, old, sh as int, 0)
}

proof fn lemma_divmod_unique(i: int, n: int, q: int, m: int)
    requires
        n > 0,
        0 <= m < n,
        0 <= q,
        0 <= i,
    ensures
        (i == q * n + m) <==> (i / n == q && i % n == m),
{
    if i == q * n + m {
        vstd::arithmetic::div_mod::lemma_fundamental_div_mod_converse(i, n, q, m);
    }
    if i / n == q && i % n == m {
        vstd::arithmetic::div_mod::lemma_fundamental_div_mod(i, n);
        assert(i == n * (i / n) + i % n);
        assert(n * q == q * n) by (nonlinear_arith);
    }
}

/// The plane samples that source pixel (`r`, `c`) feeds: its luma sample,
/// and at an even row and column its two chroma samples.
proof fn lemma_pixel_samples(ew: nat, eh: nat, sw: nat, sh: nat, r: int, c: int, i: int)
    requires
        ew % 2 == 0,
        eh % 2 == 0,
        sw <= ew,
        sh <= eh,
        0 <= r < sh,
        0 <= c < sw,
        0 <= i,
    ensures
        (plane_of(i, ew, eh) < 3 && sample_row(i, ew, eh) == r && sample_col(i, ew, eh) == c) <==> (i == r
            * ew + c || (r % 2 == 0 && c % 2 == 0 && (i == ew * eh + (r / 2) * (ew / 2) + c / 2 || i == ew
            * eh + (ew / 2) * (eh / 2) + (r / 2) * (ew / 2) + c / 2))),
        plane_of(r * ew + c, ew, eh) == 0,
        r % 2 == 0 && c % 2 == 0 ==> plane_of(ew * eh + (r / 2) * (ew / 2) + c / 2, ew, eh) == 1,
        r % 2 == 0 && c % 2 == 0 ==> plane_of(ew * eh + (ew / 2) * (eh / 2) + (r / 2) * (ew / 2) + c / 2, ew, eh)
            == 2,
{
    let ysz = ew * eh;
    let cw = ew / 2;
    let ch = eh / 2;
    let csz = cw * ch;
    assert(r * ew + c < ysz) by (nonlinear_arith)
        requires
            0 <= r < sh,
            sh <= eh,
            0 <= c < sw,
            sw <= ew,
            ysz == ew * eh,
    ;
    assert(r / 2 < ch && c / 2 < cw);
    assert((r / 2) * cw + c / 2 < csz) by (nonlinear_arith)
        requires
            0 <= r / 2 < ch,
            0 <= c / 2 < cw,
            csz == cw * ch,
    ;
    lemma_divmod_unique(i, ew as int, r, c);
    if i >= ysz {
        lemma_divmod_unique(i - ysz, cw as int, r / 2, c / 2);
    }
    if i >= ysz + csz {
        lemma_divmod_unique(i - ysz - csz, cw as int, r / 2, c / 2);
    }
}

/// Each converted sample reads blue from byte 0, green from byte 1 and red
/// from byte 2 of its source pixel: the luma sample of every present pixel,
/// and the U and V samples of a present pixel at an even row and column,
/// are the BT.601 formulas of those three bytes, with no clamping needed.
pub proof fn lemma_yuv_pixel_values(
    bgra: Seq<u8>,
    sw: nat,
    sh: nat,
    stride: nat,
    ew: nat,
    eh: nat,
    old: Seq<u8>,
    r: int,
    c: int,
)
    requires
        ew % 2 == 0,
        eh % 2 == 0,
        sw <= ew,
        sh <= eh,
        0 <= r < sh,
        0 <= c < sw,
        r * stride + c * 4 + 2 < bgra.len(),
        ew * eh + 2 * ((ew / 2) * (eh / 2)) <= old.len(),
    ensures
        ({
            let y = padded_yuv420(bgra, sw, sh, stride, ew, eh, old);
            let o = r * stride + c * 4;
            let blue = bgra[o] as int;
            let green = bgra[o + 1] as int;
            let red = bgra[o + 2] as int;
            &&& y.len() == old.len()
            &&& y[r * ew + c] as int == (66 * red + 129 * green + 25 * blue + 128) / 256 + 16
            &&& r % 2 == 0 && c % 2 == 0 ==> y[ew * eh + (r / 2) * (ew / 2) + c / 2] as int == (-38 * red - 74
                * green + 112 * blue + 128) / 256 + 128
            &&& r % 2 == 0 && c % 2 == 0 ==> y[ew * eh + (ew / 2) * (eh / 2) + (r / 2) * (ew / 2) + c / 2] as int
                == (112 * red - 94 * green - 18 * blue + 128) / 256 + 128
        }),
{
    let y = padded_yuv420(bgra, sw, sh, stride, ew, eh, old);
    let o = r * stride + c * 4;
    let blue = bgra[o] as int;
    let green = bgra[o + 1] as int;
    let red = bgra[o + 2] as int;
    let ysz = ew * eh;
    let cw = ew / 2;
    let csz = cw * (eh / 2);
    assert(0 <= blue < 256 && 0 <= green < 256 && 0 <= red < 256);
    assert(16 <= (66 * red + 129 * green + 25 * blue + 128) / 256 + 16 <= 235) by (nonlinear_arith)
        requires
            0 <= blue < 256,
            0 <= green < 256,
            0 <= red < 256,
    ;
    assert(16 <= (-38 * red - 74 * green + 112 * blue + 128) / 256 + 128 <= 240) by (nonlinear_arith)
        requires
            0 <= blue < 256,
            0 <= green < 256,
            0 <= red < 256,
    ;
    assert(16 <= (112 * red - 94 * green - 18 * blue + 128) / 256 + 128 <= 240) by (nonlinear_arith)
        requires
            0 <= blue < 256,
            0 <= green < 256,
            0 <= red < 256,
    ;
    assert(r * ew + c < ysz) by (nonlinear_arith)
        requires
            0 <= r < sh,
            sh <= eh,
            0 <= c < sw,
            sw <= ew,
            ysz == ew * eh,
    ;
    assert(0 <= r * ew) by (nonlinear_arith)
        requires
            0 <= r,
    ;
    assert(src_offset(stride, r, c) == o);
    assert(src_present(bgra, sw, sh, stride, r, c));
    assert(visited(r, c, sh as int, 0));
    let yi = r * ew + c;
    lemma_pixel_samples(ew, eh, sw, sh, r, c, yi);
    assert(y[yi] == luma(blue, green, red));
    if r % 2 == 0 && c % 2 == 0 {
        assert(r / 2 < eh / 2 && c / 2 < cw);
        assert((r / 2) * cw + c / 2 < csz) by (nonlinear_arith)
            requires
                0 <= r / 2 < eh / 2,
                0 <= c / 2 < cw,
                csz == cw * (eh / 2),
        ;
        assert(0 <= (r / 2) * cw) by (nonlinear_arith)
            requires
                0 <= r / 2,
        ;
        let ui = ysz + (r / 2) * cw + c / 2;
        let vi = ysz + csz + (r / 2) * cw + c / 2;
        lemma_pixel_samples(ew, eh, sw, sh, r, c, ui);
        lemma_pixel_samples(ew, eh, sw, sh, r, c, vi);
        assert(y[ui] == chroma_u(blue, green, red));
        assert(y[vi] == chroma_v(blue, green, red));
    }
}

/// What the conversion leaves alone: the samples of a pixel of the padded
/// frame that lies outside the source image, or whose blue, green and red
/// bytes do not all lie in the frame buffer (its luma sample, and at an even
/// row and column its U and V samples), and every byte past the three
/// planes keep their old values.
pub proof fn lemma_yuv_untouched(
    bgra: Seq<u8>,
    sw: nat,
    sh: nat,
    stride: nat,
    ew: nat,
    eh: nat,
    old: Seq<u8>,
    r: int,
    c: int,
)
    requires
        ew % 2 == 0,
        eh % 2 == 0,
        sw <= ew,
        sh <= eh,
        0 <= r < eh,
        0 <= c < ew,
        ew * eh + 2 * ((ew / 2) * (eh / 2)) <= old.len(),
    ensures
        ({
            let y = padded_yuv420(bgra, sw, sh, stride, ew, eh, old);
            let absent = !(r < sh && c < sw && r * stride + c * 4 + 2 < bgra.len());
            &&& forall|i: int|
                ew * eh + 2 * ((ew / 2) * (eh / 2)) <= i < old.len() ==> #[trigger] y[i] == old[i]
            &&& absent ==> y[r * ew + c] == old[r * ew + c]
            &&& absent && r % 2 == 0 && c % 2 == 0 ==> y[ew * eh + (r / 2) * (ew / 2) + c / 2] == old[ew * eh
                + (r / 2) * (ew / 2) + c / 2]
            &&& absent && r % 2 == 0 && c % 2 == 0 ==> y[ew * eh + (ew / 2) * (eh / 2) + (r / 2) * (ew / 2) + c
                / 2] == old[ew * eh + (ew / 2) * (eh / 2) + (r / 2) * (ew / 2) + c / 2]
        }),
{
    let y = padded_yuv420(bgra, sw, sh, stride, ew, eh, old);
    let ysz = ew * eh;
    let cw = ew / 2;
    let ch = eh / 2;
    let csz = cw * ch;
    let absent = !(r < sh && c < sw && r * stride + c * 4 + 2 < bgra.len());
    assert(r * ew + c < ysz) by (nonlinear_arith)
        requires
            0 <= r < eh,
            0 <= c < ew,
            ysz == ew * eh,
    ;
    assert(0 <= r * ew) by (nonlinear_arith)
        requires
            0 <= r,
    ;
    assert(src_offset(stride, r, c) == r * stride + c * 4);
    if absent {
        let yi = r * ew + c;
        lemma_divmod_unique(yi, ew as int, r, c);
        assert(plane_of(yi, ew, eh) == 0);
        assert(!src_present(bgra, sw, sh, stride, sample_row(yi, ew, eh), sample_col(yi, ew, eh)));
        if r % 2 == 0 && c % 2 == 0 {
            assert(r / 2 < ch && c / 2 < cw);
            assert((r / 2) * cw + c / 2 < csz) by (nonlinear_arith)
                requires
                    0 <= r / 2 < ch,
                    0 <= c / 2 < cw,
                    csz == cw * ch,
            ;
            assert(0 <= (r / 2) * cw) by (nonlinear_arith)
                requires
                    0 <= r / 2,
            ;
            let ui = ysz + (r / 2) * cw + c / 2;
            let vi = ysz + csz + (r / 2) * cw + c / 2;
            lemma_divmod_unique(ui - ysz, cw as int, r / 2, c / 2);
            lemma_divmod_unique(vi - ysz - csz, cw as int, r / 2, c / 2);
            assert(plane_of(ui, ew, eh) == 1);
            assert(plane_of(vi, ew, eh) == 2);
            assert(sample_row(ui, ew, eh) == r && sample_col(ui, ew, eh) == c);
            assert(sample_row(vi, ew, eh) == r && sample_col(vi, ew, eh) == c);
        }
    }
}

/// Converts a BGRA frame of `src_w` by `src_h` pixels, rows `stride`
/// bytes apart, into the planar YUV 4:2:0 buffer `yuv` of an
/// `enc_w` by `enc_h` encoder: luma for every pixel, chroma for every
/// pixel at an even row and column. Pixels whose bytes lie past the frame
/// and the padding outside the source are left as they were.
pub fn bgra_to_yuv420_padded(
    bgra: &[u8],
    src_w: u32,
    src_h: u32,
    stride: usize,
    enc_w: u32,
    enc_h: u32,
    yuv: &mut Vec<u8>,
)
    requires
        enc_w % 2 == 0,
        enc_h % 2 == 0,
        src_w <= enc_w,
        src_h <= enc_h,
        src_h * stride + 4 * src_w <= usize::MAX,
        enc_w * enc_h + 2 * ((enc_w / 2) * (enc_h / 2)) <= old(yuv)@.len(),
    ensures
        final(yuv)@ == padded_yuv420(
            bgra@,
            src_w as nat,
            src_h as nat,
            stride as nat,
            enc_w as nat,
            enc_h as nat,
            old(yuv)@,
        ),
{
    let ghost old_yuv = yuv@;
    let ghost sw = src_w as nat;
    let ghost sh = src_h as nat;
    let ghost st = stride as nat;
    let ghost ew = enc_w as nat;
    let ghost eh = enc_h as nat;
    let ew_u: usize = enc_w as usize;
    let sw_u: usize = src_w as usize;
    let sh_u: usize = src_h as usize;
    let eh_u: usize = enc_h as usize;
    let len = yuv.len();
    assert(ew_u * eh_u <= len);
    let y_size: usize = ew_u * eh_u;
    let uv_w: usize = ew_u / 2;
    assert(uv_w * (eh_u / 2) <= len);
    let uv_size: usize = uv_w * (eh_u / 2);
    assert(yuv@ =~= converted_until(bgra@, sw, sh, st, ew, eh, old_yuv, 0, 0));
    let mut row: usize = 0;
    while row < sh_u
        invariant
            enc_w % 2 == 0,
            enc_h % 2 == 0,
            src_w <= enc_w,
            src_h <= enc_h,
            src_h * stride + 4 * src_w <= usize::MAX,
            ew_u == enc_w,
            eh_u == enc_h,
            sw_u == src_w,
            sh_u == src_h,
            y_size == enc_w * enc_h,
            uv_w == enc_w / 2,
            uv_size == (enc_w / 2) * (enc_h / 2),
            y_size + 2 * uv_size <= len,
            len == yuv@.len(),
            len == old_yuv.len(),
            sw == src_w,
            sh == src_h,
            st == stride,
            ew == enc_w,
            eh == enc_h,
            row <= sh_u,
            yuv@ == converted_until(bgra@, sw, sh, st, ew, eh, old_yuv, row as int, 0),
        decreases sh_u - row,
    {
        let mut col: usize = 0;
        while col < sw_u
            invariant
                enc_w % 2 == 0,
                enc_h % 2 == 0,
                src_w <= enc_w,
                src_h <= enc_h,
                src_h * stride + 4 * src_w <= usize::MAX,
                ew_u == enc_w,
                eh_u == enc_h,
                sw_u == src_w,
                sh_u == src_h,
                y_size == enc_w * enc_h,
                uv_w == enc_w / 2,
                uv_size == (enc_w / 2) * (enc_h / 2),
                y_size + 2 * uv_size <= len,
                len == yuv@.len(),
                len == old_yuv.len(),
                sw == src_w,
                sh == src_h,
                st == stride,
                ew == enc_w,
                eh == enc_h,
                row < sh_u,
                col <= sw_u,
                yuv@ == converted_until(bgra@, sw, sh, st, ew, eh, old_yuv, row as int, col as int),
            decreases sw_u - col,
        {
            assert(row * stride + col * 4 <= src_h * stride + 4 * src_w) by (nonlinear_arith)
                requires
                    row < src_h,
                    col < src_w,
            ;
            let off: usize = row * stride + col * 4;
            let ghost before = yuv@;
            let ghost target = converted_until(bgra@, sw, sh, st, ew, eh, old_yuv, row as int, (col + 1) as int);
            if off < bgra.len() && bgra.len() - off > 2 {
                let b: u32 = bgra[off] as u32;
                let g: u32 = bgra[off + 1] as u32;
                let r: u32 = bgra[off + 2] as u32;
                let yq: u32 = (66 * r + 129 * g + 25 * b + 128) / 256 + 16;
                let yb: u8 = if yq > 255 {
                    255
                } else {
                    yq as u8
                };
                assert(row * ew_u + col < y_size) by (nonlinear_arith)
                    requires
                        row < sh_u,
                        sh_u <= eh_u,
                        col < sw_u,
                        sw_u <= ew_u,
                        y_size == ew_u * eh_u,
                ;
                let yi: usize = row * ew_u + col;
                yuv.set(yi, yb);
                let even = row % 2 == 0 && col % 2 == 0;
                let ghost mut ui: int = -1;
                let ghost mut vi: int = -1;
                let ghost mut ub_g: u8 = 0;
                let ghost mut vb_g: u8 = 0;
                if even {
                    let uq: u32 = (112 * b + 32896 - (38 * r + 74 * g)) / 256;
                    let vq: u32 = (112 * r + 32896 - (94 * g + 18 * b)) / 256;
                    let ub: u8 = if uq > 255 {
                        255
                    } else {
                        uq as u8
                    };
                    let vb: u8 = if vq > 255 {
                        255
                    } else {
                        vq as u8
                    };
                    assert((row / 2) * uv_w + col / 2 < uv_size) by (nonlinear_arith)
                        requires
                            row < sh_u,
                            sh_u <= eh_u,
                            col < sw_u,
                            sw_u <= ew_u,
                            uv_w == ew_u / 2,
                            uv_size == uv_w * (eh_u / 2),
                            ew_u % 2 == 0,
                            eh_u % 2 == 0,
                    ;
                    let uvi: usize = (row / 2) * uv_w + col / 2;
                    yuv.set(y_size + uvi, ub);
                    yuv.set(y_size + uv_size + uvi, vb);
                    proof {
                        ui = y_size + uvi;
                        vi = y_size + uv_size + uvi;
                        ub_g = ub;
                        vb_g = vb;
                        let bi = b as int;
                        let gi = g as int;
                        let ri = r as int;
                        assert((-38 * ri - 74 * gi + 112 * bi + 128) / 256 + 128 == (112 * bi + 32896 - (38 * ri
                            + 74 * gi)) / 256) by (nonlinear_arith);
                        assert((112 * ri - 94 * gi - 18 * bi + 128) / 256 + 128 == (112 * ri + 32896 - (94 * gi
                            + 18 * bi)) / 256) by (nonlinear_arith);
                        assert(ub == chroma_u(bi, gi, ri));
                        assert(vb == chroma_v(bi, gi, ri));
                    }
                }
                proof {
                    let bi = b as int;
                    let gi = g as int;
                    let ri = r as int;
                    assert(yb == luma(bi, gi, ri));
                    assert(src_present(bgra@, sw, sh, st, row as int, col as int));
                    assert(src_offset(st, row as int, col as int) == off);
                    assert forall|i: int| 0 <= i < len implies #[trigger] yuv@[i] == target[i] by {
                        lemma_pixel_samples(ew, eh, sw, sh, row as int, col as int, i);
                        if i == yi {
                            lemma_pixel_samples(ew, eh, sw, sh, row as int, col as int, yi as int);
                        } else if even && i == ui {
                            lemma_pixel_samples(ew, eh, sw, sh, row as int, col as int, ui);
                        } else if even && i == vi {
                            lemma_pixel_samples(ew, eh, sw, sh, row as int, col as int, vi);
                        }
                    }
                    assert(yuv@ =~= target);
                }
            } else {
                proof {
                    assert(!src_present(bgra@, sw, sh, st, row as int, col as int));
                    assert(yuv@ =~= target);
                }
            }
            col = col + 1;
        }
        proof {
            assert(yuv@ =~= converted_until(bgra@, sw, sh, st, ew, eh, old_yuv, (row + 1) as int, 0));
        }
        row = row + 1;
    }
}

} // verus!

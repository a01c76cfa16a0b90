use vstd::prelude::*;

use crate::errors::IconError;
use crate::img::{CanonicalImage, resample_spec};
use crate::png::{encode_png, png_bytes_of};
use crate::wire::{le16, le32, lemma_le32_roundtrip, push_bytes, push_le16, push_le32, read_le32};

verus! {

// A Windows icon container holds layers for the edge lengths 16, 24, 32, 48,
// 64 and 256. The format constraint this encoder enforces: every layer except
// the 256-pixel one is stored as an uncompressed 32-bit bitmap frame; only
// the 256-pixel layer is stored as a compressed (PNG) frame.

/// Bytes per row of the 1-bit AND mask: rows are padded to 32-bit boundaries.
pub open spec fn mask_row_len(w: int) -> int {
    ((w + 31) / 32) * 4
}

/// The BITMAPINFOHEADER of an uncompressed icon frame: 40-byte header size,
/// doubled height (color and mask planes), one plane, 32 bits per pixel,
/// compression 0 (uncompressed), and the byte count of the two planes.
pub open spec fn bmp_header(w: int, h: int) -> Seq<u8> {
    le32(40) + le32(w) + le32(2 * h) + le16(1) + le16(32) + le32(0)
        + le32(4 * w * h + mask_row_len(w) * h) + le32(0) + le32(0) + le32(0) + le32(0)
}

/// One pixel of the color plane: RGBA reordered to BGRA.
pub open spec fn bmp_px(p: Seq<u8>, base: int) -> Seq<u8> {
    seq![p[base + 2], p[base + 1], p[base], p[base + 3]]
}

/// The first `x` pixels of the row whose RGBA bytes start at `rowbase`.
pub open spec fn bmp_row_upto(p: Seq<u8>, rowbase: int, x: int) -> Seq<u8>
    decreases x,
{
    if x <= 0 {
        Seq::empty()
    } else {
        bmp_row_upto(p, rowbase, x - 1) + bmp_px(p, rowbase + 4 * (x - 1))
    }
}

/// The first `k` rows of the color plane, stored bottom-up: source rows
/// `h - 1` down to `h - k`.
pub open spec fn bmp_rows(p: Seq<u8>, w: int, h: int, k: int) -> Seq<u8>
    decreases k,
{
    if k <= 0 {
        Seq::empty()
    } else {
        bmp_rows(p, w, h, k - 1) + bmp_row_upto(p, 4 * w * (h - k), w)
    }
}

/// The AND mask: all zero (the alpha channel carries transparency).
pub open spec fn bmp_mask(w: int, h: int) -> Seq<u8> {
    Seq::new((mask_row_len(w) * h) as nat, |i: int| 0u8)
}

/// One uncompressed 32-bit bitmap frame: header, bottom-up BGRA color plane,
/// zero AND mask.
pub open spec fn bmp_frame(p: Seq<u8>, w: int, h: int) -> Seq<u8> {
    bmp_header(w, h) + bmp_rows(p, w, h, h) + bmp_mask(w, h)
}

/// The byte length of an uncompressed frame.
pub open spec fn bmp_frame_len(w: int, h: int) -> int {
    40 + 4 * w * h + mask_row_len(w) * h
}

pub proof fn lemma_bmp_row_upto_len(p: Seq<u8>, rowbase: int, x: int)
    requires
        x >= 0,
    ensures
        bmp_row_upto(p, rowbase, x).len() == 4 * x,
    decreases x,
{
    if x > 0 {
        lemma_bmp_row_upto_len(p, rowbase, x - 1);
    }
}

pub proof fn lemma_bmp_rows_len(p: Seq<u8>, w: int, h: int, k: int)
    requires
        k >= 0,
        w >= 0,
    ensures
        bmp_rows(p, w, h, k).len() == 4 * w * k,
    decreases k,
{
    if k > 0 {
        lemma_bmp_rows_len(p, w, h, k - 1);
        lemma_bmp_row_upto_len(p, 4 * w * (h - k), w);
        assert(bmp_rows(p, w, h, k) == bmp_rows(p, w, h, k - 1) + bmp_row_upto(p, 4 * w * (h - k), w));
        assert(bmp_rows(p, w, h, k).len() == 4 * w * (k - 1) + 4 * w);
        assert(4 * w * (k - 1) + 4 * w == 4 * w * k) by (nonlinear_arith);
    } else {
        assert(4 * w * k == 0) by (nonlinear_arith)
            requires k == 0,
        ;
    }
}

pub proof fn lemma_bmp_frame_len(p: Seq<u8>, w: int, h: int)
    requires
        w >= 0,
        h >= 0,
    ensures
        bmp_frame(p, w, h).len() == bmp_frame_len(w, h),
{
    lemma_bmp_rows_len(p, w, h, h);
    assert(bmp_header(w, h).len() == 40);
    assert(bmp_mask(w, h).len() == mask_row_len(w) * h);
}

/// Appends one BGRA pixel taken from the RGBA bytes at `base`.
fn push_bmp_px(out: &mut Vec<u8>, p: &Vec<u8>, base: usize)
    requires
        base + 4 <= p@.len(),
    ensures
        final(out)@ == old(out)@ + bmp_px(p@, base as int),
{
    let n = p.len();
    assert(base + 4 <= n);
    out.push(p[base + 2]);
    out.push(p[base + 1]);
    out.push(p[base]);
    out.push(p[base + 3]);
    proof {
        assert(out@ =~= old(out)@ + bmp_px(p@, base as int));
    }
}

/// Appends one uncompressed 32-bit bitmap frame for the image.
fn push_bmp_frame(out: &mut Vec<u8>, img: &CanonicalImage)
    requires
        img.wf(),
        img.width <= 256,
        img.height <= 256,
    ensures
        final(out)@ == old(out)@ + bmp_frame(img.pixels@, img.width as int, img.height as int),
{
    let w = img.width;
    let h = img.height;
    let ghost p = img.pixels@;
    let ghost start = out@;
    let mask_row: u32 = ((w + 31) / 32) * 4;
    proof {
        assert(4 * (w as int) * (h as int) <= 4 * 256 * 256) by (nonlinear_arith)
            requires w <= 256, h <= 256, w >= 0, h >= 0,
        ;
        assert(mask_row_len(w as int) * (h as int) <= 32 * 256) by (nonlinear_arith)
            requires w <= 256, h <= 256, w >= 0, h >= 0,
        ;
    }
    let plane_bytes: u32 = 4 * w * h + mask_row * h;
    push_le32(out, 40);
    push_le32(out, w);
    push_le32(out, 2 * h);
    push_le16(out, 1);
    push_le16(out, 32);
    push_le32(out, 0);
    push_le32(out, plane_bytes);
    push_le32(out, 0);
    push_le32(out, 0);
    push_le32(out, 0);
    push_le32(out, 0);
    proof {
        assert(out@ =~= start + bmp_header(w as int, h as int));
    }
    let ghost after_header = out@;
    let mut k: u32 = 0;
    while k < h
        invariant
            k <= h,
            img.wf(),
            img.width == w,
            img.height == h,
            h >= 1,
            p == img.pixels@,
            4 * (w as int) * (h as int) <= 262144,
            out@ == after_header + bmp_rows(p, w as int, h as int, k as int),
            after_header == start + bmp_header(w as int, h as int),
        decreases h - k,
    {
        proof {
            assert(4 * (w as int) * ((h - 1 - k) as int) + 4 * (w as int) <= 4 * (w as int) * (h as int))
                by (nonlinear_arith)
                requires k < h, w >= 0, h >= 1, k >= 0,
            ;
        }
        let rowbase: u32 = 4 * w * (h - 1 - k);
        let ghost row_start = out@;
        let mut x: u32 = 0;
        while x < w
            invariant
                x <= w,
                img.wf(),
                img.width == w,
                img.height == h,
                p == img.pixels@,
                rowbase == 4 * (w as int) * ((h - 1 - k) as int),
                rowbase + 4 * (w as int) <= 4 * (w as int) * (h as int),
                4 * (w as int) * (h as int) <= 262144,
                out@ == row_start + bmp_row_upto(p, rowbase as int, x as int),
            decreases w - x,
        {
            push_bmp_px(out, &img.pixels, (rowbase + 4 * x) as usize);
            x = x + 1;
        }
        k = k + 1;
        proof {
            assert(bmp_rows(p, w as int, h as int, k as int)
                =~= bmp_rows(p, w as int, h as int, k as int - 1)
                    + bmp_row_upto(p, 4 * (w as int) * ((h - k) as int), w as int));
            assert(out@ =~= after_header + bmp_rows(p, w as int, h as int, k as int));
        }
    }
    let mask_total: u32 = mask_row * h;
    let ghost after_rows = out@;
    let mut i: u32 = 0;
    while i < mask_total
        invariant
            i <= mask_total,
            mask_total == mask_row_len(w as int) * (h as int),
            out@ == after_rows + bmp_mask(w as int, h as int).subrange(0, i as int),
            after_rows == start + bmp_header(w as int, h as int)
                + bmp_rows(p, w as int, h as int, h as int),
        decreases mask_total - i,
    {
        out.push(0u8);
        i = i + 1;
        proof {
            assert(out@ =~= after_rows + bmp_mask(w as int, h as int).subrange(0, i as int));
        }
    }
    proof {
        assert(out@ =~= start + bmp_frame(p, w as int, h as int));
    }
}

/// One 16-byte directory entry: width and height bytes (0 stands for 256),
/// no palette, one plane, 32 bits per pixel, then the frame's byte count and
/// its offset from the start of the file.
pub open spec fn ico_entry(s: int, len: int, off: int) -> Seq<u8> {
    seq![
        (if s == 256 { 0u8 } else { s as u8 }),
        (if s == 256 { 0u8 } else { s as u8 }),
        0u8,
        0u8,
    ] + le16(1) + le16(32) + le32(len) + le32(off)
}

/// The whole `.ico` container for the six layer buffers, in the stored order
/// 32, 16, 24, 48, 64, 256: a six-entry directory, five uncompressed bitmap
/// frames, and the PNG-compressed 256 frame last.
pub open spec fn ico_bytes(
    p32: Seq<u8>,
    p16: Seq<u8>,
    p24: Seq<u8>,
    p48: Seq<u8>,
    p64: Seq<u8>,
    png256: Seq<u8>,
) -> Seq<u8> {
    le16(0) + le16(1) + le16(6)
        + ico_entry(32, 4264, 102)
        + ico_entry(16, 1128, 4366)
        + ico_entry(24, 2440, 5494)
        + ico_entry(48, 9640, 7934)
        + ico_entry(64, 16936, 17574)
        + ico_entry(256, png256.len() as int, 34510)
        + bmp_frame(p32, 32, 32)
        + bmp_frame(p16, 16, 16)
        + bmp_frame(p24, 24, 24)
        + bmp_frame(p48, 48, 48)
        + bmp_frame(p64, 64, 64)
        + png256
}

/// Whether the 256 layer's PNG stream fits the container's 32-bit length and
/// offset fields.
pub open spec fn ico_fits(p: Seq<u8>, w: int, h: int) -> bool {
    png_bytes_of(resample_spec(p, w, h, 256), 256, 256).len() <= 0xFFFF_FFFF - 34510
}

/// The `.ico` file derived from a source buffer: each layer is the Lanczos
/// resampling of the source to its size; the 256 layer is PNG-encoded.
pub open spec fn ico_file_spec(p: Seq<u8>, w: int, h: int) -> Seq<u8> {
    ico_bytes(
        resample_spec(p, w, h, 32),
        resample_spec(p, w, h, 16),
        resample_spec(p, w, h, 24),
        resample_spec(p, w, h, 48),
        resample_spec(p, w, h, 64),
        png_bytes_of(resample_spec(p, w, h, 256), 256, 256),
    )
}

/// Appends one directory entry.
fn push_ico_entry(out: &mut Vec<u8>, s: u32, len: u32, off: u32)
    requires
        s <= 256,
    ensures
        final(out)@ == old(out)@ + ico_entry(s as int, len as int, off as int),
{
    let wb: u8 = if s == 256 { 0 } else { s as u8 };
    out.push(wb);
    out.push(wb);
    out.push(0);
    out.push(0);
    push_le16(out, 1);
    push_le16(out, 32);
    push_le32(out, len);
    push_le32(out, off);
    proof {
        assert(out@ =~= old(out)@ + ico_entry(s as int, len as int, off as int));
    }
}

/// Encodes the source image as one `.ico` container holding the six layers
/// 16, 24, 32, 48, 64 and 256. Every layer except the 256 one is stored as an
/// uncompressed bitmap frame; the 256 layer is stored PNG-compressed. The run
/// succeeds exactly when that PNG stream fits the container's 32-bit fields;
/// otherwise it fails with `IconError::Encode`.
pub fn encode_ico(source: &CanonicalImage) -> (r: Result<Vec<u8>, IconError>)
    requires
        source.wf(),
        4 * source.width * 256 <= usize::MAX,
    ensures
        r is Ok <==> ico_fits(source.pixels@, source.width as int, source.height as int),
        r matches Ok(v) ==> v@ == ico_file_spec(
            source.pixels@,
            source.width as int,
            source.height as int,
        ),
        r matches Err(e) ==> e == IconError::Encode,
{
    proof {
        let wd = source.width as int;
        assert(4 * wd * 16 <= 4 * wd * 256 && 4 * wd * 24 <= 4 * wd * 256
            && 4 * wd * 32 <= 4 * wd * 256 && 4 * wd * 48 <= 4 * wd * 256
            && 4 * wd * 64 <= 4 * wd * 256) by (nonlinear_arith)
            requires wd >= 0,
        ;
    }
    let l32 = source.resize(32);
    let l16 = source.resize(16);
    let l24 = source.resize(24);
    let l48 = source.resize(48);
    let l64 = source.resize(64);
    let l256 = source.resize(256);
    let png = match encode_png(&l256) {
        Ok(v) => v,
        Err(_) => {
            proof {
                assert(false);
            }
            return Err(IconError::Encode);
        },
    };
    if (png.len() as u64) > 0xFFFF_FFFFu64 - 34510 {
        return Err(IconError::Encode);
    }
    let mut out: Vec<u8> = Vec::new();
    push_le16(&mut out, 0);
    push_le16(&mut out, 1);
    push_le16(&mut out, 6);
    push_ico_entry(&mut out, 32, 4264, 102);
    push_ico_entry(&mut out, 16, 1128, 4366);
    push_ico_entry(&mut out, 24, 2440, 5494);
    push_ico_entry(&mut out, 48, 9640, 7934);
    push_ico_entry(&mut out, 64, 16936, 17574);
    push_ico_entry(&mut out, 256, png.len() as u32, 34510);
    push_bmp_frame(&mut out, &l32);
    push_bmp_frame(&mut out, &l16);
    push_bmp_frame(&mut out, &l24);
    push_bmp_frame(&mut out, &l48);
    push_bmp_frame(&mut out, &l64);
    push_bytes(&mut out, &png);
    proof {
        assert(out@ =~= ico_bytes(l32.pixels@, l16.pixels@, l24.pixels@, l48.pixels@,
            l64.pixels@, png@));
    }
    Ok(out)
}

/// Inspecting the container shows the required frame representations: each of
/// the five small layers' directory entries points at an uncompressed bitmap
/// frame (40-byte header, compression field 0), and the 256 layer's entry
/// points at the PNG stream, stored unchanged. Offsets and lengths are read
/// back from the directory bytes themselves.
#[verifier::rlimit(60)]
pub proof fn lemma_ico_frame_compression(
    p32: Seq<u8>,
    p16: Seq<u8>,
    p24: Seq<u8>,
    p48: Seq<u8>,
    p64: Seq<u8>,
    png: Seq<u8>,
)
    requires
        png.len() <= 0xFFFF_FFFF - 34510,
    ensures
        ({
            let ico = ico_bytes(p32, p16, p24, p48, p64, png);
            &&& ico.len() == 34510 + png.len()
            &&& read_le32(ico, 6int + 16 * 0 + 8) == 4264 && read_le32(ico, 6int + 16 * 0 + 12) == 102
            &&& read_le32(ico, 6int + 16 * 1 + 8) == 1128 && read_le32(ico, 6int + 16 * 1 + 12) == 4366
            &&& read_le32(ico, 6int + 16 * 2 + 8) == 2440 && read_le32(ico, 6int + 16 * 2 + 12) == 5494
            &&& read_le32(ico, 6int + 16 * 3 + 8) == 9640 && read_le32(ico, 6int + 16 * 3 + 12) == 7934
            &&& read_le32(ico, 6int + 16 * 4 + 8) == 16936 && read_le32(ico, 6int + 16 * 4 + 12) == 17574
            &&& read_le32(ico, 6int + 16 * 5 + 8) == png.len() && read_le32(ico, 6int + 16 * 5 + 12)
                == 34510
            &&& ico.subrange(102int, 4366int) == bmp_frame(p32, 32, 32)
            &&& ico.subrange(4366int, 5494int) == bmp_frame(p16, 16, 16)
            &&& ico.subrange(5494int, 7934int) == bmp_frame(p24, 24, 24)
            &&& ico.subrange(7934int, 17574int) == bmp_frame(p48, 48, 48)
            &&& ico.subrange(17574int, 34510int) == bmp_frame(p64, 64, 64)
            &&& read_le32(ico, 102int) == 40 && read_le32(ico, 102int + 16) == 0
            &&& read_le32(ico, 4366int) == 40 && read_le32(ico, 4366int + 16) == 0
            &&& read_le32(ico, 5494int) == 40 && read_le32(ico, 5494int + 16) == 0
            &&& read_le32(ico, 7934int) == 40 && read_le32(ico, 7934int + 16) == 0
            &&& read_le32(ico, 17574int) == 40 && read_le32(ico, 17574int + 16) == 0
            &&& ico.subrange(34510int, 34510 + png.len() as int) == png
        }),
{
    let ico = ico_bytes(p32, p16, p24, p48, p64, png);
    lemma_bmp_frame_len(p32, 32, 32);
    lemma_bmp_frame_len(p16, 16, 16);
    lemma_bmp_frame_len(p24, 24, 24);
    lemma_bmp_frame_len(p48, 48, 48);
    lemma_bmp_frame_len(p64, 64, 64);
    assert(ico.subrange(102int, 4366int) =~= bmp_frame(p32, 32, 32));
    assert(ico.subrange(4366int, 5494int) =~= bmp_frame(p16, 16, 16));
    assert(ico.subrange(5494int, 7934int) =~= bmp_frame(p24, 24, 24));
    assert(ico.subrange(7934int, 17574int) =~= bmp_frame(p48, 48, 48));
    assert(ico.subrange(17574int, 34510int) =~= bmp_frame(p64, 64, 64));
    assert(ico.subrange(34510int, 34510 + png.len() as int) =~= png);
    assert(ico.subrange(14int, 18int) =~= le32(4264));
    assert(ico.subrange(18int, 22int) =~= le32(102));
    assert(ico.subrange(30int, 34int) =~= le32(1128));
    assert(ico.subrange(34int, 38int) =~= le32(4366));
    assert(ico.subrange(46int, 50int) =~= le32(2440));
    assert(ico.subrange(50int, 54int) =~= le32(5494));
    assert(ico.subrange(62int, 66int) =~= le32(9640));
    assert(ico.subrange(66int, 70int) =~= le32(7934));
    assert(ico.subrange(78int, 82int) =~= le32(16936));
    assert(ico.subrange(82int, 86int) =~= le32(17574));
    assert(ico.subrange(94int, 98int) =~= le32(png.len() as int));
    assert(ico.subrange(98int, 102int) =~= le32(34510));
    lemma_le32_roundtrip(ico, 6int + 16 * 0 + 8, 4264);
    lemma_le32_roundtrip(ico, 6int + 16 * 0 + 12, 102);
    lemma_le32_roundtrip(ico, 6int + 16 * 1 + 8, 1128);
    lemma_le32_roundtrip(ico, 6int + 16 * 1 + 12, 4366);
    lemma_le32_roundtrip(ico, 6int + 16 * 2 + 8, 2440);
    lemma_le32_roundtrip(ico, 6int + 16 * 2 + 12, 5494);
    lemma_le32_roundtrip(ico, 6int + 16 * 3 + 8, 9640);
    lemma_le32_roundtrip(ico, 6int + 16 * 3 + 12, 7934);
    lemma_le32_roundtrip(ico, 6int + 16 * 4 + 8, 16936);
    lemma_le32_roundtrip(ico, 6int + 16 * 4 + 12, 17574);
    lemma_le32_roundtrip(ico, 6int + 16 * 5 + 8, png.len() as int);
    lemma_le32_roundtrip(ico, 6int + 16 * 5 + 12, 34510);
    assert(ico.subrange(102int, 106int) =~= le32(40));
    assert(ico.subrange(118int, 122int) =~= le32(0));
    assert(ico.subrange(4366int, 4370int) =~= le32(40));
    assert(ico.subrange(4382int, 4386int) =~= le32(0));
    assert(ico.subrange(5494int, 5498int) =~= le32(40));
    assert(ico.subrange(5510int, 5514int) =~= le32(0));
    assert(ico.subrange(7934int, 7938int) =~= le32(40));
    assert(ico.subrange(7950int, 7954int) =~= le32(0));
    assert(ico.subrange(17574int, 17578int) =~= le32(40));
    assert(ico.subrange(17590int, 17594int) =~= le32(0));
    lemma_le32_roundtrip(ico, 102int, 40);
    lemma_le32_roundtrip(ico, 102int + 16, 0);
    lemma_le32_roundtrip(ico, 4366int, 40);
    lemma_le32_roundtrip(ico, 4366int + 16, 0);
    lemma_le32_roundtrip(ico, 5494int, 40);
    lemma_le32_roundtrip(ico, 5494int + 16, 0);
    lemma_le32_roundtrip(ico, 7934int, 40);
    lemma_le32_roundtrip(ico, 7934int + 16, 0);
    lemma_le32_roundtrip(ico, 17574int, 40);
    lemma_le32_roundtrip(ico, 17574int + 16, 0);
}

} // verus!

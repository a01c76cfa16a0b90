use vstd::prelude::*;

use crate::img::CanonicalImage;

verus! {

/// An RGBA8 background color, parsed once from a CSS color string by the
/// caller. Used only for platforms whose icon surface must be fully opaque.
#[derive(Clone, Copy, Debug, PartialEq, Eq, Structural)]
pub struct BackgroundColor {
    pub r: u8,
    pub g: u8,
    pub b: u8,
    pub a: u8,
}

/// One blended channel: the source channel alpha-blended onto an opaque
/// background channel, rounded to nearest.
pub open spec fn blend_channel(sc: int, sa: int, bc: int) -> int {
    (sc * sa + bc * (255 - sa) + 127) / 255
}

/// One composited pixel: the source pixel whose RGBA bytes start at `base`,
/// painted over the background color; the result is fully opaque.
pub open spec fn composite_px(p: Seq<u8>, base: int, bg: BackgroundColor) -> Seq<u8> {
    seq![
        blend_channel(p[base] as int, p[base + 3] as int, bg.r as int) as u8,
        blend_channel(p[base + 1] as int, p[base + 3] as int, bg.g as int) as u8,
        blend_channel(p[base + 2] as int, p[base + 3] as int, bg.b as int) as u8,
        255u8,
    ]
}

/// The first `k` pixels of the composited buffer.
pub open spec fn composite_upto(p: Seq<u8>, bg: BackgroundColor, k: int) -> Seq<u8>
    decreases k,
{
    if k <= 0 {
        Seq::empty()
    } else {
        composite_upto(p, bg, k - 1) + composite_px(p, 4 * (k - 1), bg)
    }
}

/// The whole composited buffer of a `w` x `h` source.
pub open spec fn composite_spec(p: Seq<u8>, w: int, h: int, bg: BackgroundColor) -> Seq<u8> {
    composite_upto(p, bg, w * h)
}

pub proof fn lemma_composite_upto_len(p: Seq<u8>, bg: BackgroundColor, k: int)
    requires
        k >= 0,
    ensures
        composite_upto(p, bg, k).len() == 4 * k,
    decreases k,
{
    if k > 0 {
        lemma_composite_upto_len(p, bg, k - 1);
    }
}

/// One blended channel, in executable form.
fn blend(sc: u8, sa: u8, bc: u8) -> (r: u8)
    ensures
        r as int == blend_channel(sc as int, sa as int, bc as int),
{
    proof {
        assert((sc as int) * (sa as int) + (bc as int) * (255 - sa as int) + 127 <= 65152)
            by (nonlinear_arith)
            requires sc <= 255, sa <= 255, bc <= 255,
        ;
        assert((sc as int) * (sa as int) >= 0 && (bc as int) * (255 - sa as int) >= 0)
            by (nonlinear_arith)
            requires sc >= 0, sa <= 255, bc >= 0, sa >= 0,
        ;
    }
    let v: u32 = (sc as u32) * (sa as u32) + (bc as u32) * (255 - sa as u32) + 127;
    (v / 255) as u8
}

/// Composites the source onto the background color: the color is painted
/// first, the source is alpha-blended on top at the origin with no scaling,
/// and the result has the source's dimensions and is fully opaque.
pub fn composite_over(img: &CanonicalImage, bg: BackgroundColor) -> (r: CanonicalImage)
    requires
        img.wf(),
    ensures
        r.wf(),
        r.width == img.width,
        r.height == img.height,
        r.pixels@ == composite_spec(img.pixels@, img.width as int, img.height as int, bg),
{
    let ghost p = img.pixels@;
    let ghost t: int = (img.width as int) * (img.height as int);
    let n: usize = img.pixels.len() / 4;
    proof {
        assert(t >= 0 && 4 * t == 4 * (img.width as int) * (img.height as int))
            by (nonlinear_arith)
            requires t == (img.width as int) * (img.height as int), img.width >= 0, img.height >= 0,
        ;
        assert(p.len() == 4 * t);
        assert(n == t);
    }
    let mut out: Vec<u8> = Vec::new();
    let mut k: usize = 0;
    while k < n
        invariant
            k <= n,
            img.wf(),
            p == img.pixels@,
            4 * n == p.len(),
            4 * n <= usize::MAX,
            out@ == composite_upto(p, bg, k as int),
        decreases n - k,
    {
        let base: usize = 4 * k;
        out.push(blend(img.pixels[base], img.pixels[base + 3], bg.r));
        out.push(blend(img.pixels[base + 1], img.pixels[base + 3], bg.g));
        out.push(blend(img.pixels[base + 2], img.pixels[base + 3], bg.b));
        out.push(255);
        k = k + 1;
        proof {
            assert(out@ =~= composite_upto(p, bg, k as int));
        }
    }
    proof {
        lemma_composite_upto_len(p, bg, n as int);
        assert(composite_upto(p, bg, n as int)
            == composite_spec(p, img.width as int, img.height as int, bg));
    }
    CanonicalImage { width: img.width, height: img.height, pixels: out }
}

/// The sequence of `k` copies of the opaque background pixel.
pub open spec fn bg_fill(bg: BackgroundColor, k: int) -> Seq<u8>
    decreases k,
{
    if k <= 0 {
        Seq::empty()
    } else {
        bg_fill(bg, k - 1) + seq![bg.r, bg.g, bg.b, 255u8]
    }
}

/// Compositing a fully transparent source onto a background color yields the
/// background color in every pixel, fully opaque.
pub proof fn lemma_composite_transparent(p: Seq<u8>, bg: BackgroundColor, k: int)
    requires
        k >= 0,
        4 * k <= p.len(),
        forall|j: int| 0 <= j < p.len() && j % 4 == 3 ==> #[trigger] p[j] == 0,
    ensures
        composite_upto(p, bg, k) == bg_fill(bg, k),
    decreases k,
{
    if k > 0 {
        lemma_composite_transparent(p, bg, k - 1);
        assert((4 * (k - 1) + 3) % 4 == 3);
        assert(p[4 * (k - 1) + 3] == 0);
        assert(blend_channel(p[4 * (k - 1)] as int, 0, bg.r as int) == bg.r) by (nonlinear_arith)
            requires bg.r <= 255,
        ;
        assert(blend_channel(p[4 * (k - 1) + 1] as int, 0, bg.g as int) == bg.g)
            by (nonlinear_arith)
            requires bg.g <= 255,
        ;
        assert(blend_channel(p[4 * (k - 1) + 2] as int, 0, bg.b as int) == bg.b)
            by (nonlinear_arith)
            requires bg.b <= 255,
        ;
        assert(composite_px(p, 4 * (k - 1), bg) =~= seq![bg.r, bg.g, bg.b, 255u8]);
        assert(composite_upto(p, bg, k) =~= bg_fill(bg, k));
    }
}

} // verus!

use vstd::prelude::*;

use crate::errors::IconError;

verus! {

/// An owned RGBA8 pixel buffer: 4 bytes per pixel (red, green, blue, alpha),
/// rows stored top-down. Every resize or composite produces a fresh buffer;
/// a `CanonicalImage` is never mutated after it is built.
pub struct CanonicalImage {
    pub width: u32,
    pub height: u32,
    pub pixels: Vec<u8>,
}

impl CanonicalImage {
    /// A buffer is well formed when it holds exactly `width * height` RGBA
    /// pixels and both edges are positive.
    pub open spec fn wf(&self) -> bool {
        &&& self.pixels@.len() == 4 * self.width * self.height
        &&& self.width >= 1
        &&& self.height >= 1
    }
}

/// The RGBA8 buffer that the Lanczos resampler yields for a given source
/// buffer, source dimensions and target edge length.
pub uninterp spec fn resample_of(pixels: Seq<u8>, width: int, height: int, size: int) -> Seq<u8>;

/// Relies on `image::imageops::resize` with the `Lanczos3` filter: a pure
/// resampling, determined by the buffer, its dimensions and the target size
/// alone, that returns a `size` x `size` RGBA8 buffer.
#[verifier::external_body]
fn resample_rgba(pixels: &Vec<u8>, width: u32, height: u32, size: u32) -> (r: Vec<u8>)
    requires
        pixels@.len() == 4 * width * height,
        width >= 1,
        height >= 1,
        size >= 1,
        4 * size * size <= usize::MAX,
        4 * width * size <= usize::MAX,
    ensures
        r@ == resample_of(pixels@, width as int, height as int, size as int),
        r@.len() == 4 * size * size,
{
    let img = image::RgbaImage::from_raw(width, height, pixels.clone())
        .expect("buffer length matches the dimensions");
    let out = image::imageops::resize(&img, size, size, image::imageops::FilterType::Lanczos3);
    out.into_raw()
}

/// What resizing a buffer to a square of edge `size` yields: the buffer
/// itself when it already has that shape, else its Lanczos resampling.
pub open spec fn resample_spec(pixels: Seq<u8>, width: int, height: int, size: int) -> Seq<u8> {
    if width == size && height == size {
        pixels
    } else {
        resample_of(pixels, width, height, size)
    }
}

/// Copies a byte buffer.
fn copy_bytes(v: &Vec<u8>) -> (r: Vec<u8>)
    ensures
        r@ == v@,
{
    let mut r: Vec<u8> = Vec::new();
    let mut i: usize = 0;
    while i < v.len()
        invariant
            i <= v@.len(),
            r@ == v@.subrange(0, i as int),
        decreases v@.len() - i,
    {
        r.push(v[i]);
        i = i + 1;
        proof {
            assert(r@ =~= v@.subrange(0, i as int));
        }
    }
    proof {
        assert(r@ =~= v@);
    }
    r
}

impl CanonicalImage {
    /// Validates a decoded RGBA8 buffer as the run's source image. The source
    /// must be square; a non-square source aborts the whole run before any
    /// artifact is produced.
    pub fn load_source(width: u32, height: u32, pixels: Vec<u8>) -> (r: Result<CanonicalImage, IconError>)
        ensures
            match r {
                Ok(img) => {
                    &&& img.wf()
                    &&& img.width == width
                    &&& img.height == height
                    &&& img.pixels@ == pixels@
                    &&& width == height
                },
                Err(e) => {
                    &&& e == IconError::Precondition
                    &&& !(width == height && width >= 1 && pixels@.len() == 4 * width * height)
                },
            },
    {
        let len128: u128 = pixels.len() as u128;
        let w128: u128 = width as u128;
        let h128: u128 = height as u128;
        proof {
            assert(4 * w128 * h128 <= 4 * 0xffff_ffffu128 * 0xffff_ffffu128) by (nonlinear_arith)
                requires
                    w128 <= 0xffff_ffffu128,
                    h128 <= 0xffff_ffffu128,
            ;
        }
        let need128: u128 = 4u128 * w128 * h128;
        if width == height && width >= 1 && len128 == need128 {
            Ok(CanonicalImage { width, height, pixels })
        } else {
            Err(IconError::Precondition)
        }
    }

    /// Resizes to a square of the given edge length with a high-quality
    /// windowed-sinc filter; a buffer that already has the target shape is
    /// returned unchanged, byte for byte.
    pub fn resize(&self, size: u32) -> (r: CanonicalImage)
        requires
            self.wf(),
            size >= 1,
            4 * size * size <= usize::MAX,
            4 * self.width * size <= usize::MAX,
        ensures
            r.wf(),
            r.width == size,
            r.height == size,
            r.pixels@ == resample_spec(self.pixels@, self.width as int, self.height as int, size as int),
    {
        if self.width == size && self.height == size {
            CanonicalImage { width: size, height: size, pixels: copy_bytes(&self.pixels) }
        } else {
            let pixels = resample_rgba(&self.pixels, self.width, self.height, size);
            CanonicalImage { width: size, height: size, pixels }
        }
    }
}

/// Resizing is idempotent: resizing to `N` and then to `N` again yields the
/// same bytes as the single resize, for every buffer and every supported `N`.
pub proof fn lemma_resize_idempotent(pixels: Seq<u8>, width: int, height: int, size: int)
    ensures
        resample_spec(resample_spec(pixels, width, height, size), size, size, size)
            == resample_spec(pixels, width, height, size),
{
}

} // verus!

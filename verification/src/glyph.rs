//! Glyph identities and rasterized glyph images.

use vstd::prelude::*;

verus! {

/// A cache key for a rasterized glyph (a hash of the font, glyph, size and
/// subpixel position).
#[derive(Debug, Clone, Copy, PartialEq, Eq, Hash, Structural)]
pub struct GlyphKey(pub u64);

/// The horizontal subpixel position a glyph is rasterized at, in quarters of
/// a pixel.
#[derive(Debug, Clone, Copy, PartialEq, Eq, Hash, Structural)]
pub enum SubpixelVariant {
    Zero,
    OneQuarter,
    Half,
    ThreeQuarters,
}

impl Default for SubpixelVariant {
    fn default() -> (v: Self)
        ensures
            v == SubpixelVariant::Zero,
    {
        SubpixelVariant::Zero
    }
}

/// A length in device pixels.
#[derive(Debug, Clone, Copy, PartialEq, Eq, Hash, Structural)]
pub struct DevicePixels(pub i32);

/// The size of an image in device pixels.
#[derive(Debug, Clone, Copy, PartialEq, Eq, Hash, Structural)]
pub struct DeviceSize {
    pub width: DevicePixels,
    pub height: DevicePixels,
}

/// A rasterized glyph: its size, its pixels, and the offset to draw it at
/// (carried as given; `O` is the caller's point type).
pub struct RasterizedGlyph<O> {
    pub size: DeviceSize,
    pub data: Vec<u8>,
    /// If `true`, `data` has only an alpha channel (1 byte per pixel);
    /// otherwise RGBA (4 bytes per pixel).
    pub is_monochromatic: bool,
    /// Offset to draw the glyph at.
    pub offset: O,
}

/// RGBA pixels for alpha-only pixels: black, with each pixel's alpha kept.
pub open spec fn rgba_of_alpha(alpha: Seq<u8>) -> Seq<u8>
    decreases alpha.len(),
{
    if alpha.len() == 0 {
        Seq::empty()
    } else {
        rgba_of_alpha(alpha.drop_last()) + seq![0u8, 0u8, 0u8, alpha.last()]
    }
}

/// Four bytes per pixel.
pub proof fn lemma_rgba_of_alpha_len(alpha: Seq<u8>)
    ensures
        rgba_of_alpha(alpha).len() == 4 * alpha.len(),
    decreases alpha.len(),
{
    if alpha.len() > 0 {
        lemma_rgba_of_alpha_len(alpha.drop_last());
    }
}

/// Pixel `i` of the RGBA image is black with the alpha of alpha pixel `i`.
pub proof fn lemma_rgba_of_alpha_pixel(alpha: Seq<u8>, i: int)
    requires
        0 <= i < alpha.len(),
    ensures
        rgba_of_alpha(alpha).len() == 4 * alpha.len(),
        rgba_of_alpha(alpha)[4 * i] == 0,
        rgba_of_alpha(alpha)[4 * i + 1] == 0,
        rgba_of_alpha(alpha)[4 * i + 2] == 0,
        rgba_of_alpha(alpha)[4 * i + 3] == alpha[i],
    decreases alpha.len(),
{
    lemma_rgba_of_alpha_len(alpha);
    lemma_rgba_of_alpha_len(alpha.drop_last());
    if i < alpha.len() - 1 {
        lemma_rgba_of_alpha_pixel(alpha.drop_last(), i);
    }
}

/// The alpha channel of RGBA pixels: the fourth byte of every pixel.
pub open spec fn alpha_of_rgba(rgba: Seq<u8>) -> Seq<u8>
    decreases rgba.len(),
{
    if rgba.len() < 4 {
        Seq::empty()
    } else {
        alpha_of_rgba(rgba.subrange(0, rgba.len() - 4)).push(rgba[rgba.len() - 1])
    }
}

/// The alpha mask of an RGBA image (4 bytes per pixel): one byte per pixel,
/// its alpha.
pub fn alpha_channel(rgba: &[u8]) -> (alpha: Vec<u8>)
    requires
        rgba@.len() % 4 == 0,
    ensures
        alpha@ == alpha_of_rgba(rgba@),
{
    let len = rgba.len();
    let n = len / 4;
    assert(4 * n == len) by (nonlinear_arith)
        requires
            n == len / 4,
            len % 4 == 0,
    ;
    let mut alpha: Vec<u8> = Vec::with_capacity(n);
    let mut i: usize = 0;
    assert(rgba@.subrange(0, 0) =~= Seq::<u8>::empty());
    while i < n
        invariant
            4 * n == rgba@.len(),
            rgba@.len() == len,
            0 <= i <= n,
            alpha@ == alpha_of_rgba(rgba@.subrange(0, 4 * i)),
        decreases n - i,
    {
        let a = rgba[4 * i + 3];
        alpha.push(a);
        proof {
            let next = rgba@.subrange(0, 4 * (i + 1));
            assert(next.subrange(0, next.len() - 4) =~= rgba@.subrange(0, 4 * i));
            assert(next[next.len() - 1] == a);
        }
        i = i + 1;
    }
    assert(rgba@.subrange(0, 4 * n) =~= rgba@);
    alpha
}

/// Taking the alpha channel of an alpha image widened to RGBA gives the
/// alpha image back.
pub proof fn lemma_alpha_of_widened_alpha(alpha: Seq<u8>)
    ensures
        alpha_of_rgba(rgba_of_alpha(alpha)) == alpha,
    decreases alpha.len(),
{
    if alpha.len() > 0 {
        lemma_alpha_of_widened_alpha(alpha.drop_last());
        lemma_rgba_of_alpha_len(alpha.drop_last());
        let wide = rgba_of_alpha(alpha);
        assert(wide.subrange(0, wide.len() - 4) =~= rgba_of_alpha(alpha.drop_last()));
        assert(alpha_of_rgba(rgba_of_alpha(alpha.drop_last())).push(alpha.last()) =~= alpha);
    } else {
        assert(alpha =~= Seq::<u8>::empty());
    }
}

impl<O: Copy> RasterizedGlyph<O> {
    /// The same glyph with RGBA pixels: an alpha-only glyph becomes black
    /// pixels with its alpha values; an RGBA glyph is copied as it is.
    pub fn to_polychromatic(&self) -> (g: RasterizedGlyph<O>)
        requires
            self.is_monochromatic ==> 4 * self.data@.len() <= usize::MAX,
        ensures
            g.size == self.size,
            g.offset == self.offset,
            !g.is_monochromatic,
            g.data@ == if self.is_monochromatic {
                rgba_of_alpha(self.data@)
            } else {
                self.data@
            },
    {
        if !self.is_monochromatic {
            return RasterizedGlyph {
                size: self.size,
                data: self.data.clone(),
                is_monochromatic: self.is_monochromatic,
                offset: self.offset,
            };
        }
        let n = self.data.len();
        let mut data: Vec<u8> = Vec::with_capacity(n * 4);
        let mut i: usize = 0;
        while i < n
            invariant
                n == self.data@.len(),
                0 <= i <= n,
                data@ == rgba_of_alpha(self.data@.take(i as int)),
            decreases n - i,
        {
            let px = self.data[i];
            data.push(0);
            data.push(0);
            data.push(0);
            data.push(px);
            proof {
                assert(self.data@.take(i + 1).drop_last() =~= self.data@.take(i as int));
                assert(data@ =~= rgba_of_alpha(self.data@.take(i + 1)));
            }
            i = i + 1;
        }
        assert(self.data@.take(n as int) =~= self.data@);
        RasterizedGlyph { size: self.size, data, is_monochromatic: false, offset: self.offset }
    }
}

} // verus!

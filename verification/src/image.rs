//! Pixel transforms applied to captcha images before recognition.
//!
//! An image is an 8-bit RGB raster: `width * height` pixels, row by row,
//! three bytes (red, green, blue) each.
use vstd::prelude::*;

verus! {

/// An 8-bit RGB raster.
#[derive(Debug, Clone)]
pub struct RgbImage {
    pub width: u32,
    pub height: u32,
    pub data: Vec<u8>,
}

impl RgbImage {
    /// The raster holds exactly three bytes per pixel.
    pub open spec fn wf(&self) -> bool {
        self.data@.len() == 3 * (self.width as int * self.height as int)
    }
}

/// The luminance of a pixel, as the integer weights 299/587/114 per mille
/// give it.
pub open spec fn luminance(r: u8, g: u8, b: u8) -> int {
    (r as int * 299 + g as int * 587 + b as int * 114) / 1000
}

/// Each byte of a thresholded raster: white (255) where the pixel's
/// luminance reaches the threshold, black (0) elsewhere.
pub open spec fn binary_data(d: Seq<u8>, threshold: u8) -> Seq<u8> {
    Seq::new(
        d.len(),
        |i: int|
            {
                let p = i - i % 3;
                if luminance(d[p], d[p + 1], d[p + 2]) >= threshold {
                    255u8
                } else {
                    0u8
                }
            },
    )
}

/// Each byte of a raster with its channels rotated: the new red is the old
/// blue, the new green the old red, the new blue the old green.
pub open spec fn reverted_data(d: Seq<u8>) -> Seq<u8> {
    Seq::new(
        d.len(),
        |i: int|
            {
                let p = i - i % 3;
                if i % 3 == 0 {
                    d[p + 2]
                } else if i % 3 == 1 {
                    d[p]
                } else {
                    d[p + 1]
                }
            },
    )
}

/// Black and white: white where the luminance reaches `threshold`.
pub fn convert_to_binary(img: &RgbImage, threshold: u8) -> (r: RgbImage)
    requires
        img.wf(),
    ensures
        r.wf(),
        r.width == img.width,
        r.height == img.height,
        r.data@ == binary_data(img.data@, threshold),
{
    let d = &img.data;
    let n = d.len();
    let ghost spec = binary_data(d@, threshold);
    let mut out: Vec<u8> = Vec::new();
    let mut i: usize = 0;
    while i < n
        invariant
            n == d@.len(),
            n % 3 == 0,
            i % 3 == 0,
            i <= n,
            spec == binary_data(d@, threshold),
            out@ == spec.subrange(0, i as int),
        decreases n - i,
    {
        let r = d[i] as u32;
        let g = d[i + 1] as u32;
        let b = d[i + 2] as u32;
        let lum = (r * 299 + g * 587 + b * 114) / 1000;
        let v: u8 = if lum >= threshold as u32 {
            255
        } else {
            0
        };
        proof {
            assert((i + 1) % 3 == 1 && (i + 1) - (i + 1) % 3 == i);
            assert((i + 2) % 3 == 2 && (i + 2) - (i + 2) % 3 == i);
            assert(spec[i as int] == v);
            assert(spec[i + 1] == v);
            assert(spec[i + 2] == v);
        }
        out.push(v);
        out.push(v);
        out.push(v);
        assert(out@ =~= spec.subrange(0, i + 3));
        i = i + 3;
    }
    assert(spec.subrange(0, n as int) =~= spec);
    RgbImage { width: img.width, height: img.height, data: out }
}

/// Channels rotated: red takes blue, green takes red, blue takes green.
pub fn revert_color(img: &RgbImage) -> (r: RgbImage)
    requires
        img.wf(),
    ensures
        r.wf(),
        r.width == img.width,
        r.height == img.height,
        r.data@ == reverted_data(img.data@),
{
    let d = &img.data;
    let n = d.len();
    let ghost spec = reverted_data(d@);
    let mut out: Vec<u8> = Vec::new();
    let mut i: usize = 0;
    while i < n
        invariant
            n == d@.len(),
            n % 3 == 0,
            i % 3 == 0,
            i <= n,
            spec == reverted_data(d@),
            out@ == spec.subrange(0, i as int),
        decreases n - i,
    {
        proof {
            assert((i + 1) % 3 == 1 && (i + 1) - (i + 1) % 3 == i);
            assert((i + 2) % 3 == 2 && (i + 2) - (i + 2) % 3 == i);
        }
        out.push(d[i + 2]);
        out.push(d[i]);
        out.push(d[i + 1]);
        assert(out@ =~= spec.subrange(0, i + 3));
        i = i + 3;
    }
    assert(spec.subrange(0, n as int) =~= spec);
    RgbImage { width: img.width, height: img.height, data: out }
}

/// Rotating the channels three times gives the image back.
pub proof fn lemma_revert_three_times(d: Seq<u8>)
    requires
        d.len() % 3 == 0,
    ensures
        reverted_data(reverted_data(reverted_data(d))) == d,
{
    let a = reverted_data(d);
    let b = reverted_data(a);
    let c = reverted_data(b);
    assert forall|i: int| 0 <= i < d.len() implies #[trigger] c[i] == d[i] by {
        let p = i - i % 3;
        assert(p + 2 < d.len()) by {
            assert(p % 3 == 0);
        }
        assert((p + 1) % 3 == 1 && (p + 1) - (p + 1) % 3 == p);
        assert((p + 2) % 3 == 2 && (p + 2) - (p + 2) % 3 == p);
        assert(p % 3 == 0 && p - p % 3 == p);
    }
    assert(c =~= d);
}

} // verus!

//! Lazily synchronized cache of one image in multiple colorspace
//! representations: linear RGB, HSL, and a perceptual Lab-like space. At
//! most one representation is authoritative; the others are derived and
//! recomputed on demand.

use vstd::prelude::*;

use crate::color::{rgb_h, rgb_l, rgb_s, rgb_to_hsl_x};
use crate::image::Image;

verus! {

/// A buffer-cache failure: a derivation the cache cannot compute.
#[derive(Debug)]
pub enum BufferError {
    Unsupported,
}

/// A width x height HSL raster: per pixel `h s l a`, hue in [0, 6000)
/// milli-sectors, saturation and lightness in [0, 1000], alpha in [0, 255].
#[derive(Debug)]
pub struct HslImage {
    pub width: u32,
    pub height: u32,
    pub data: Vec<i32>,
}

impl View for HslImage {
    type V = Seq<i32>;

    open spec fn view(&self) -> Seq<i32> {
        self.data@
    }
}

impl HslImage {
    /// The raster invariant: four values per pixel.
    pub open spec fn wf(&self) -> bool {
        self.data@.len() == 4 * ((self.width as int) * (self.height as int))
    }

    /// An empty HSL raster.
    pub fn empty() -> (r: HslImage)
        ensures
            r.wf(),
            r.width == 0,
            r.height == 0,
            r@.len() == 0,
    {
        HslImage { width: 0, height: 0, data: Vec::new() }
    }
}

/// A width x height raster in a perceptual Lab-like space. Its derivation
/// from RGB is an unsupported path in this cache: values can only be loaded
/// from outside.
#[derive(Debug)]
pub struct OklabImage {
    pub width: u32,
    pub height: u32,
    pub data: Vec<i32>,
}

impl OklabImage {
    /// An empty raster.
    pub fn empty() -> (r: OklabImage)
        ensures
            r.width == 0,
            r.height == 0,
            r.data@.len() == 0,
    {
        OklabImage { width: 0, height: 0, data: Vec::new() }
    }
}

/// The RGB buffer converted pixel by pixel to HSL values; alpha carries
/// over. Row order is preserved: value `i` of the result describes byte `i`
/// of the input.
pub open spec fn rgb_to_hsl_seq(s: Seq<u8>) -> Seq<i32> {
    Seq::new(
        s.len(),
        |i: int|
            {
                let base = 4 * (i / 4);
                let r = s[base] as int;
                let g = s[base + 1] as int;
                let b = s[base + 2] as int;
                if i % 4 == 0 {
                    rgb_h(r, g, b) as i32
                } else if i % 4 == 1 {
                    rgb_s(r, g, b) as i32
                } else if i % 4 == 2 {
                    rgb_l(r, g, b) as i32
                } else {
                    s[i] as i32
                }
            },
    )
}

/// The cache: one image in up to three representations, with per-slot
/// `enabled` (authoritative) and `updated` (in sync) flags.
#[derive(Debug)]
pub struct ImageBuffers {
    pub rgb: Image,
    pub hsl: HslImage,
    pub oklab: OklabImage,
    pub enabled: [bool; 3],
    pub updated: [bool; 3],
}

impl ImageBuffers {
    /// The cache invariant: the held rasters are well formed.
    pub open spec fn wf(&self) -> bool {
        &&& self.rgb.wf()
        &&& self.hsl.wf()
    }

    /// An empty cache: no representation authoritative, all dirty.
    pub fn new() -> (r: ImageBuffers)
        ensures
            r.wf(),
            r.enabled@ == seq![false, false, false],
            r.updated@ == seq![false, false, false],
            r.rgb@.len() == 0,
            r.hsl@.len() == 0,
            r.oklab.data@.len() == 0,
    {
        let r = ImageBuffers {
            rgb: Image::empty(),
            hsl: HslImage::empty(),
            oklab: OklabImage::empty(),
            enabled: [false, false, false],
            updated: [false, false, false],
        };
        proof {
            assert(r.enabled@ =~= seq![false, false, false]);
            assert(r.updated@ =~= seq![false, false, false]);
        }
        r
    }

    /// A cache whose authoritative representation is the given RGB raster;
    /// the derived representations are dirty.
    pub fn from_rgb(img: Image) -> (r: ImageBuffers)
        requires
            img.wf(),
        ensures
            r.wf(),
            r.rgb@ == img@,
            r.rgb.width == img.width,
            r.rgb.height == img.height,
            r.enabled@ == seq![true, false, false],
            r.updated@ == seq![true, false, false],
    {
        let r = ImageBuffers {
            rgb: img,
            hsl: HslImage::empty(),
            oklab: OklabImage::empty(),
            enabled: [true, false, false],
            updated: [true, false, false],
        };
        proof {
            assert(r.enabled@ =~= seq![true, false, false]);
            assert(r.updated@ =~= seq![true, false, false]);
        }
        r
    }

    /// A cache whose authoritative representation is the given HSL raster.
    pub fn from_hsl(img: HslImage) -> (r: ImageBuffers)
        requires
            img.wf(),
        ensures
            r.wf(),
            r.hsl@ == img@,
            r.enabled@ == seq![false, true, false],
            r.updated@ == seq![false, true, false],
    {
        let r = ImageBuffers {
            rgb: Image::empty(),
            hsl: img,
            oklab: OklabImage::empty(),
            enabled: [false, true, false],
            updated: [false, true, false],
        };
        proof {
            assert(r.enabled@ =~= seq![false, true, false]);
            assert(r.updated@ =~= seq![false, true, false]);
        }
        r
    }

    /// A cache whose authoritative representation is the given Lab-like
    /// raster.
    pub fn from_oklab(img: OklabImage) -> (r: ImageBuffers)
        ensures
            r.wf(),
            r.oklab.data@ == img.data@,
            r.enabled@ == seq![false, false, true],
            r.updated@ == seq![false, false, true],
    {
        let r = ImageBuffers {
            rgb: Image::empty(),
            hsl: HslImage::empty(),
            oklab: img,
            enabled: [false, false, true],
            updated: [false, false, true],
        };
        proof {
            assert(r.enabled@ =~= seq![false, false, true]);
            assert(r.updated@ =~= seq![false, false, true]);
        }
        r
    }

    /// Marks which representations are authoritative.
    pub fn set_updates(&mut self, rgb: bool, hsl: bool)
        ensures
            final(self).enabled@ == seq![rgb, hsl, false],
            final(self).rgb == old(self).rgb,
            final(self).hsl == old(self).hsl,
            final(self).oklab == old(self).oklab,
            final(self).updated == old(self).updated,
    {
        self.enabled = [rgb, hsl, false];
        proof {
            assert(self.enabled@ =~= seq![rgb, hsl, false]);
        }
    }

    /// The RGB representation.
    pub fn get_rgb(&self) -> (r: &Image)
        ensures
            r == &self.rgb,
    {
        &self.rgb
    }

    /// The HSL representation.
    pub fn get_hsl(&self) -> (r: &HslImage)
        ensures
            r == &self.hsl,
    {
        &self.hsl
    }

    /// The Lab-like representation.
    pub fn get_oklab(&self) -> (r: &OklabImage)
        ensures
            r == &self.oklab,
    {
        &self.oklab
    }

    /// Replaces the RGB raster and makes it authoritative; the others
    /// become dirty.
    pub fn update_rgb(&mut self, new_rgb: Image)
        requires
            old(self).wf(),
            new_rgb.wf(),
        ensures
            final(self).wf(),
            final(self).rgb@ == new_rgb@,
            final(self).rgb.width == new_rgb.width,
            final(self).rgb.height == new_rgb.height,
            final(self).hsl == old(self).hsl,
            final(self).oklab == old(self).oklab,
            final(self).updated@ == seq![true, false, false],
            final(self).enabled == old(self).enabled,
    {
        self.rgb = new_rgb;
        self.updated = [true, false, false];
        proof {
            assert(self.updated@ =~= seq![true, false, false]);
        }
    }

    /// Replaces the HSL raster and makes it authoritative; the others
    /// become dirty.
    pub fn update_hsl(&mut self, new_hsl: HslImage)
        requires
            old(self).wf(),
            new_hsl.wf(),
        ensures
            final(self).wf(),
            final(self).hsl@ == new_hsl@,
            final(self).rgb == old(self).rgb,
            final(self).oklab == old(self).oklab,
            final(self).updated@ == seq![false, true, false],
            final(self).enabled == old(self).enabled,
    {
        self.hsl = new_hsl;
        self.updated = [false, true, false];
        proof {
            assert(self.updated@ =~= seq![false, true, false]);
        }
    }

    /// Loading a Lab-like raster needs a conversion this cache does not
    /// provide: it reports `Unsupported` and changes nothing.
    pub fn update_oklab(&mut self, new_oklab: OklabImage) -> (r: Result<(), BufferError>)
        ensures
            r is Err,
            *final(self) == *old(self),
    {
        let _ = new_oklab;
        Err(BufferError::Unsupported)
    }

    /// Recomputes the derived representations from the authoritative one.
    /// With RGB authoritative the HSL raster is rebuilt pixel by pixel in
    /// row order (the Lab-like derivation is not provided and its slot
    /// stays dirty); with HSL or Lab authoritative the conversions back to
    /// RGB are not provided, and the call reports `Unsupported` and
    /// changes nothing.
    pub fn update(&mut self) -> (r: Result<(), BufferError>)
        requires
            old(self).wf(),
        ensures
            final(self).wf(),
            r is Ok <==> (old(self).enabled@[0] || (!old(self).enabled@[1] && !old(
                self,
            ).enabled@[2])),
            r is Err ==> *final(self) == *old(self),
            r is Ok && old(self).enabled@[0] ==> {
                &&& final(self).hsl@ == rgb_to_hsl_seq(old(self).rgb@)
                &&& final(self).hsl.width == old(self).rgb.width
                &&& final(self).hsl.height == old(self).rgb.height
                &&& final(self).rgb == old(self).rgb
                &&& final(self).oklab == old(self).oklab
                &&& final(self).updated@ == old(self).updated@.update(1, true)
                &&& final(self).enabled == old(self).enabled
            },
            r is Ok && !old(self).enabled@[0] ==> *final(self) == *old(self),
    {
        if self.enabled[0] {
            let hsl = rgb_buffer_to_hsl(&self.rgb);
            self.hsl = hsl;
            let u0 = self.updated[0];
            let u2 = self.updated[2];
            self.updated = [u0, true, u2];
            proof {
                assert(self.updated@ =~= old(self).updated@.update(1, true));
            }
            Ok(())
        } else if self.enabled[1] || self.enabled[2] {
            Err(BufferError::Unsupported)
        } else {
            Ok(())
        }
    }

    /// Clears all three representations to empty and marks all dirty.
    pub fn reset(&mut self)
        ensures
            final(self).wf(),
            final(self).rgb@.len() == 0,
            final(self).hsl@.len() == 0,
            final(self).oklab.data@.len() == 0,
            final(self).updated@ == seq![false, false, false],
            final(self).enabled == old(self).enabled,
    {
        self.rgb = Image::empty();
        self.hsl = HslImage::empty();
        self.oklab = OklabImage::empty();
        self.updated = [false, false, false];
        proof {
            assert(self.updated@ =~= seq![false, false, false]);
        }
    }
}

/// Converts a whole RGB raster to HSL values, pixel by pixel in row order.
fn rgb_buffer_to_hsl(img: &Image) -> (out: HslImage)
    requires
        img.wf(),
    ensures
        out.wf(),
        out.width == img.width,
        out.height == img.height,
        out@ == rgb_to_hsl_seq(img@),
{
    let n = img.data.len();
    let mut data: Vec<i32> = Vec::new();
    let mut i: usize = 0;
    while i < n
        invariant
            img.wf(),
            n == img@.len(),
            i <= n,
            i % 4 == 0,
            data@.len() == i as int,
            forall|j: int| 0 <= j < i as int ==> #[trigger] data@[j] == rgb_to_hsl_seq(img@)[j],
        decreases n - i,
    {
        let r = img.data[i];
        let g = img.data[i + 1];
        let b = img.data[i + 2];
        let a = img.data[i + 3];
        let hsl = rgb_to_hsl_x(r, g, b);
        data.push(hsl.0 as i32);
        data.push(hsl.1 as i32);
        data.push(hsl.2 as i32);
        data.push(a as i32);
        proof {
            let s = rgb_to_hsl_seq(img@);
            assert forall|j: int| i as int <= j < i as int + 4 implies data@[j] == s[j] by {
                assert(4 * (j / 4) == i as int);
            }
        }
        i = i + 4;
    }
    assert(data@ =~= rgb_to_hsl_seq(img@));
    HslImage { width: img.width, height: img.height, data }
}

} // verus!

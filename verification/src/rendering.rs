//! The rendering dispatcher: walks a `FilterArray` in canonical order and
//! applies every active filter to the image through the CPU numeric
//! kernels. A filter whose leading parameter is exactly zero is skipped.

use vstd::prelude::*;

use crate::filters::{FilterArray, WB_BASELINE_TEMP};
use crate::image::Image;
use crate::kernels::{
    boxblur, contrast, exposition, radius_px, saturate, sharpen, spec_boxblur, spec_contrast,
    spec_exposition, spec_gaussianblur, spec_saturate, spec_sharpen, spec_whitebalance,
    whitebalance,
};
use crate::num::clamped;

verus! {

/// The render backends a dispatcher can be built for. A GPU device
/// collaborator is not available in this build, so asking for the GPU
/// backend reports a recoverable error and the caller falls back to CPU.
#[derive(Clone, Copy, Debug, PartialEq, Eq, Structural)]
pub enum RenderingBackends {
    GPU,
    CPU,
}

/// A render failure: either a plain message or a device-level code.
#[derive(Debug)]
pub enum RenderingError {
    GenericError(&'static str),
    GpuError(u32),
}

/// The rendering dispatcher; it owns its backend choice for its lifetime.
#[derive(Debug, Clone, Copy)]
pub struct Rendering {
    backend: RenderingBackends,
}

/// Whether a slot's filter runs: its leading parameter is not exactly zero.
pub open spec fn slot_active(ps: Seq<i64>) -> bool {
    ps.len() > 0 && ps[0] != 0
}

/// The absolute instruction the white-balance kernel receives: a composed
/// four-value slot as it stands, and a plain absolute `[temperature, tint]`
/// pair composed onto the baseline reference white point as its current
/// white point.
pub open spec fn wb_instruction(ps: Seq<i64>) -> (int, int, int, int) {
    if ps.len() == 4 {
        (ps[0] as int, ps[1] as int, ps[2] as int, ps[3] as int)
    } else {
        (WB_BASELINE_TEMP as int, 0, ps[0] as int, ps[1] as int)
    }
}

/// The buffer after the filter of slot `i` with parameters `ps` runs.
pub open spec fn spec_apply_slot(s: Seq<u8>, w: int, h: int, i: int, ps: Seq<i64>) -> Seq<u8> {
    if i == 0 {
        spec_exposition(s, ps[0] as int)
    } else if i == 2 {
        let wb = wb_instruction(ps);
        spec_whitebalance(s, wb.0, wb.1, wb.2, wb.3)
    } else if i == 1 {
        spec_sharpen(s, w, h, ps[0] as int, ps[1] as int)
    } else if i == 3 {
        spec_contrast(s, ps[0] as int)
    } else if i == 4 {
        spec_saturate(s, ps[0] as int)
    } else if i == 5 {
        spec_gaussianblur(s, w, h, ps[0] as int, ps[1] as int)
    } else {
        spec_boxblur(s, w, h, radius_px(ps[0] as int))
    }
}

/// The buffer after the first `n` slots ran in canonical order, skipping
/// inactive ones.
pub open spec fn spec_render_upto(s: Seq<u8>, w: int, h: int, fs: Seq<Seq<i64>>, n: int) -> Seq<u8>
    decreases n,
{
    if n <= 0 {
        s
    } else {
        let prev = spec_render_upto(s, w, h, fs, n - 1);
        if slot_active(fs[n - 1]) {
            spec_apply_slot(prev, w, h, n - 1, fs[n - 1])
        } else {
            prev
        }
    }
}

/// The buffer after the whole filter table ran.
pub open spec fn spec_render(s: Seq<u8>, w: int, h: int, fs: Seq<Seq<i64>>) -> Seq<u8> {
    spec_render_upto(s, w, h, fs, 7)
}

impl Rendering {
    /// The backend this dispatcher was built for.
    pub closed spec fn spec_backend(&self) -> RenderingBackends {
        self.backend
    }

    /// Builds a dispatcher. The GPU backend needs a device collaborator
    /// that is not available in this build, so it is reported as a
    /// recoverable error; the CPU backend always succeeds.
    pub fn init(backend: RenderingBackends) -> (r: Result<Rendering, RenderingError>)
        ensures
            backend is CPU ==> (r matches Ok(rd) && rd.spec_backend() == backend),
            backend is GPU ==> (r matches Err(e) && e is GenericError),
    {
        match backend {
            RenderingBackends::CPU => Ok(Rendering { backend }),
            RenderingBackends::GPU => Err(
                RenderingError::GenericError("no GPU device collaborator is available"),
            ),
        }
    }

    /// Applies every active filter to `img` in canonical order and returns
    /// the rendered raster; it never fails on a well-formed table. An
    /// active white-balance slot holding the plain absolute
    /// `[temperature, tint]` pair is composed onto the baseline reference
    /// white point, so the documented baseline table renders as the
    /// identity.
    pub fn render_data(&self, img: &Image, filters: &FilterArray) -> (r: Result<
        Image,
        RenderingError,
    >)
        requires
            img.wf(),
            filters.wf(),
        ensures
            r is Ok,
            r matches Ok(out) ==> out.wf() && out.width == img.width && out.height == img.height
                && out@ == spec_render(img@, img.width as int, img.height as int, filters@),
    {
        let ghost w = img.width as int;
        let ghost h = img.height as int;
        let mut out = img.duplicate();
        let mut i: usize = 0;
        while i < 7
            invariant
                img.wf(),
                filters.wf(),
                out.wf(),
                out.width == img.width,
                out.height == img.height,
                w == img.width as int,
                h == img.height as int,
                i <= 7,
                out@ == spec_render_upto(img@, w, h, filters@, i as int),
            decreases 7 - i,
        {
            let ps = filters.params_at(i);
            if ps.len() > 0 && ps[0] != 0 {
                if i == 0 {
                    out = exposition(&out, ps[0]);
                } else if i == 1 {
                    out = sharpen(&out, ps[0], ps[1]);
                } else if i == 2 {
                    if ps.len() == 4 {
                        out = whitebalance(&out, ps[0], ps[1], ps[2], ps[3]);
                    } else {
                        out = whitebalance(&out, WB_BASELINE_TEMP, 0, ps[0], ps[1]);
                    }
                } else if i == 3 {
                    out = contrast(&out, ps[0]);
                } else if i == 4 {
                    out = saturate(&out, ps[0]);
                } else if i == 5 {
                    out = crate::kernels::gaussianblur(&out, ps[0], ps[1]);
                } else {
                    out = boxblur(&out, ps[0]);
                }
            }
            i = i + 1;
        }
        Ok(out)
    }
}

/// Law: rendering with every filter parameter at its neutral value — the
/// baseline table itself — leaves the image byte-identical to the input.
/// The additive slots are skipped at their zero amounts, and the baseline
/// white-balance pair composes onto its own white point, which maps every
/// pixel to itself.
pub proof fn lemma_render_neutral_identity(s: Seq<u8>, w: int, h: int)
    requires
        s.len() % 4 == 0,
    ensures
        spec_render(s, w, h, crate::filters::spec_defaults()) == s,
{
    let fs = crate::filters::spec_defaults();
    assert(spec_render_upto(s, w, h, fs, 0) == s);
    assert(spec_render_upto(s, w, h, fs, 1) == s);
    assert(spec_render_upto(s, w, h, fs, 2) == s);
    assert(spec_render_upto(s, w, h, fs, 3) == spec_whitebalance(
        s,
        WB_BASELINE_TEMP as int,
        0,
        WB_BASELINE_TEMP as int,
        0,
    ));
    crate::kernels::lemma_whitebalance_identity(s, WB_BASELINE_TEMP as int, 0);
    assert(spec_render_upto(s, w, h, fs, 3) =~= s);
    assert(spec_render_upto(s, w, h, fs, 4) == s);
    assert(spec_render_upto(s, w, h, fs, 5) == s);
    assert(spec_render_upto(s, w, h, fs, 6) == s);
    assert(spec_render_upto(s, w, h, fs, 7) == s);
}

/// Law: at the renderer, exposure amounts that clamp to the same value
/// render identically — requesting ten stops behaves exactly like the
/// two-stop bound, whatever the other slots hold.
pub proof fn lemma_render_exposure_clamped(
    s: Seq<u8>,
    w: int,
    h: int,
    fs: Seq<Seq<i64>>,
    p1: i64,
    p2: i64,
)
    requires
        fs.len() == 7,
        clamped(p1 as int, -2000, 2000) == clamped(p2 as int, -2000, 2000),
    ensures
        spec_render(s, w, h, fs.update(0, seq![p1])) == spec_render(s, w, h, fs.update(0, seq![p2])),
{
    let f1 = fs.update(0, seq![p1]);
    let f2 = fs.update(0, seq![p2]);
    assert(p1 == 0 <==> p2 == 0);
    assert(spec_render_upto(s, w, h, f1, 1) == spec_render_upto(s, w, h, f2, 1)) by {
        assert(f1[0] == seq![p1] && f2[0] == seq![p2]);
        assert(spec_render_upto(s, w, h, f1, 0) == s);
        assert(spec_render_upto(s, w, h, f2, 0) == s);
        if p1 != 0 {
            assert(spec_render_upto(s, w, h, f1, 1) == spec_exposition(s, p1 as int));
            assert(spec_render_upto(s, w, h, f2, 1) == spec_exposition(s, p2 as int));
            crate::kernels::lemma_exposure_amount_clamped(s, p1 as int);
            crate::kernels::lemma_exposure_amount_clamped(s, p2 as int);
        }
    }
    assert(spec_render_upto(s, w, h, f1, 2) == spec_render_upto(s, w, h, f2, 2));
    assert(spec_render_upto(s, w, h, f1, 3) == spec_render_upto(s, w, h, f2, 3));
    assert(spec_render_upto(s, w, h, f1, 4) == spec_render_upto(s, w, h, f2, 4));
    assert(spec_render_upto(s, w, h, f1, 5) == spec_render_upto(s, w, h, f2, 5));
    assert(spec_render_upto(s, w, h, f1, 6) == spec_render_upto(s, w, h, f2, 6));
    assert(spec_render_upto(s, w, h, f1, 7) == spec_render_upto(s, w, h, f2, 7));
}

} // verus!

//! The edit-session orchestrator: owns the pristine original, the working
//! buffer with already-baked edits, the desired and baked filter states, a
//! colorspace cache, and a tone curve. Interactive preview renders only the
//! pending delta `filters - loaded_filters`; export renders the full
//! current filter state.

use vstd::prelude::*;

use crate::buffers::{BufferError, ImageBuffers};
use crate::curve::{Curve, CurveType};
use crate::filters::{
    spec_apply_overrides, spec_defaults, spec_difference, spec_index, spec_merge, valid_arity,
    Filter, FilterArray, FilterType, WB_BASELINE_TEMP,
};
use crate::image::Image;
use crate::rendering::{spec_render, Rendering, RenderingError};

verus! {

/// One absolute white-balance instruction: from the already-baked pair to
/// the target pair (the final two values of the requested slot).
pub open spec fn compose_wb(baked: Seq<i64>, target: Seq<i64>) -> Seq<i64> {
    seq![baked[0], baked[1], target[target.len() - 2], target[target.len() - 1]]
}

/// The pending delta handed to the renderer: the per-slot difference, with
/// the white-balance slot composed into one absolute instruction.
pub open spec fn spec_pending_delta(fs: Seq<Seq<i64>>, lf: Seq<Seq<i64>>) -> Seq<Seq<i64>> {
    spec_difference(fs, lf).update(2, compose_wb(lf[2], fs[2]))
}

/// The filter table export renders: the full requested state, with the
/// white-balance slot composed onto the baseline reference white point.
pub open spec fn spec_export_filters(fs: Seq<Seq<i64>>) -> Seq<Seq<i64>> {
    fs.update(2, compose_wb(seq![WB_BASELINE_TEMP, 0i64], fs[2]))
}

/// The edit session.
#[derive(Debug)]
pub struct Data {
    rendering: Rendering,
    pub full_res_preview: Image,
    filters: FilterArray,
    loaded_filters: FilterArray,
    loaded_image: Image,
    imagebuffers: ImageBuffers,
    pub curve: Curve,
    pub zoom: (u32, u32, i64),
}

impl Data {
    /// The session invariant: well-formed rasters and filter tables, the
    /// working buffer shaped like the original, and the baked white-balance
    /// state held as an absolute pair.
    pub closed spec fn wf(&self) -> bool {
        &&& self.full_res_preview.wf()
        &&& self.loaded_image.wf()
        &&& self.filters.wf()
        &&& self.loaded_filters.wf()
        &&& self.curve.wf()
        &&& self.imagebuffers.wf()
        &&& self.loaded_filters@[2].len() == 2
        &&& self.full_res_preview.width == self.loaded_image.width
        &&& self.full_res_preview.height == self.loaded_image.height
        &&& self.imagebuffers.enabled@ == seq![true, false, false]
    }

    /// The working buffer's bytes.
    pub closed spec fn spec_preview(&self) -> Seq<u8> {
        self.full_res_preview@
    }

    /// The tone curve.
    pub closed spec fn spec_curve(&self) -> Curve {
        self.curve
    }

    /// The zoom viewport descriptor.
    pub closed spec fn spec_zoom(&self) -> (u32, u32, i64) {
        self.zoom
    }

    /// The desired filter state.
    pub closed spec fn spec_filters(&self) -> Seq<Seq<i64>> {
        self.filters@
    }

    /// The filter state already baked into the working buffer.
    pub closed spec fn spec_loaded_filters(&self) -> Seq<Seq<i64>> {
        self.loaded_filters@
    }

    /// The pristine original's bytes.
    pub closed spec fn spec_loaded_image(&self) -> Seq<u8> {
        self.loaded_image@
    }

    /// The pristine original's width.
    pub closed spec fn spec_loaded_width(&self) -> u32 {
        self.loaded_image.width
    }

    /// The pristine original's height.
    pub closed spec fn spec_loaded_height(&self) -> u32 {
        self.loaded_image.height
    }

    /// The RGB bytes held by the colorspace cache.
    pub closed spec fn spec_cache_rgb(&self) -> Seq<u8> {
        self.imagebuffers.rgb@
    }

    /// The whole colorspace cache.
    pub closed spec fn spec_cache(&self) -> ImageBuffers {
        self.imagebuffers
    }

    /// A session over an optional initial image and optional filter
    /// overrides; everything derived starts at baseline.
    pub fn new(
        rendering: Rendering,
        image_to_load: Option<Image>,
        filters_to_load: Option<Vec<Filter>>,
    ) -> (r: Data)
        requires
            image_to_load matches Some(img) ==> img.wf(),
        ensures
            r.wf(),
            r.spec_loaded_image() == (match image_to_load {
                Some(img) => img@,
                None => Seq::<u8>::empty(),
            }),
            r.spec_preview() == r.spec_loaded_image(),
            r.spec_filters() == (if filters_to_load is Some {
                spec_apply_overrides(spec_defaults(), filters_to_load->Some_0@)
            } else {
                spec_defaults()
            }),
            r.spec_loaded_filters() == spec_defaults(),
            r.spec_curve().wf(),
            r.spec_curve().xs@ == seq![0i64, crate::curve::CURVE_MAX],
            r.spec_curve().ys@ == seq![0i64, crate::curve::CURVE_MAX],
            r.spec_curve().curve_type == CurveType::MONOTONE,
            r.spec_cache().rgb@ == r.spec_loaded_image(),
            r.spec_cache().updated@ == seq![true, false, false],
            r.spec_zoom() == (0u32, 0u32, 1000i64),
    {
        let img = match image_to_load {
            None => Image::empty(),
            Some(i) => i,
        };
        let imagebuffers = ImageBuffers::from_rgb(img.duplicate());
        let filters = FilterArray::new(filters_to_load);
        let loaded_filters = FilterArray::new(None);
        proof {
            assert(spec_defaults()[2].len() == 2);
        }
        Data {
            rendering,
            full_res_preview: img.duplicate(),
            filters,
            loaded_filters,
            loaded_image: img,
            imagebuffers,
            curve: Curve::new(CurveType::MONOTONE),
            zoom: (0, 0, 1000),
        }
    }

    /// Recomputes the derived colorspace representations of the cache.
    pub fn update_all_color_spaces(&mut self) -> (r: Result<(), BufferError>)
        requires
            old(self).wf(),
        ensures
            final(self).wf(),
            final(self).spec_filters() == old(self).spec_filters(),
            final(self).spec_loaded_filters() == old(self).spec_loaded_filters(),
            final(self).spec_loaded_image() == old(self).spec_loaded_image(),
            final(self).spec_preview() == old(self).spec_preview(),
    {
        self.imagebuffers.update()
    }

    /// The pristine original's `(width, height)`.
    pub fn image_dimensions(&self) -> (r: (u32, u32))
        ensures
            r.0 == self.spec_loaded_width(),
            r.1 == self.spec_loaded_height(),
    {
        self.loaded_image.dimensions()
    }

    /// The current parameters of one filter.
    pub fn get_filter(&self, filtertype: FilterType) -> (r: &Vec<i64>)
        requires
            self.wf(),
        ensures
            r@ == self.spec_filters()[spec_index(filtertype)],
    {
        self.filters.get_filter(filtertype)
    }

    /// Replaces the pristine original and the working buffer with a new
    /// image, refreshes the RGB cache, and clears the baked filter state to
    /// baseline. The desired filter state is kept.
    pub fn load_image(&mut self, img: Image)
        requires
            old(self).wf(),
            img.wf(),
        ensures
            final(self).wf(),
            final(self).spec_loaded_image() == img@,
            final(self).spec_loaded_width() == img.width,
            final(self).spec_loaded_height() == img.height,
            final(self).spec_preview() == img@,
            final(self).spec_cache_rgb() == img@,
            final(self).spec_cache().hsl@ == crate::buffers::rgb_to_hsl_seq(img@),
            final(self).spec_cache().updated@ == seq![true, true, false],
            final(self).spec_loaded_filters() == spec_defaults(),
            final(self).spec_filters() == old(self).spec_filters(),
    {
        self.loaded_image = img.duplicate();
        self.imagebuffers.update_rgb(img.duplicate());
        let _ = self.imagebuffers.update();
        proof {
            assert(self.imagebuffers.updated@ =~= seq![true, true, false]);
        }
        self.full_res_preview = img;
        self.loaded_filters = FilterArray::new(None);
        proof {
            assert(spec_defaults()[2].len() == 2);
        }
    }

    /// Mutates only the desired filter state; no rendering occurs. The
    /// parameter vector must have an arity its slot accepts.
    pub fn update_filter(&mut self, filtertype: FilterType, parameters: Vec<i64>)
        requires
            old(self).wf(),
            valid_arity(spec_index(filtertype), parameters@.len() as int),
        ensures
            final(self).wf(),
            final(self).spec_filters() == old(self).spec_filters().update(
                spec_index(filtertype),
                parameters@,
            ),
            final(self).spec_loaded_filters() == old(self).spec_loaded_filters(),
            final(self).spec_loaded_image() == old(self).spec_loaded_image(),
            final(self).spec_preview() == old(self).spec_preview(),
            final(self).spec_cache() == old(self).spec_cache(),
            final(self).spec_curve() == old(self).spec_curve(),
            final(self).spec_zoom() == old(self).spec_zoom(),
    {
        self.filters.update_filter(filtertype, parameters);
    }

    /// Renders the pending delta `filters - loaded_filters` onto the
    /// working buffer, with the white-balance slot composed into one
    /// absolute instruction from the baked pair to the requested target.
    /// On success the delta is merged into the baked state and the RGB
    /// cache refreshed; the pristine original is untouched.
    pub fn update_image(&mut self) -> (r: Result<Image, RenderingError>)
        requires
            old(self).wf(),
        ensures
            final(self).wf(),
            r is Ok,
            r matches Ok(out) ==> {
                &&& out.wf()
                &&& out@ == spec_render(
                    old(self).spec_preview(),
                    old(self).spec_loaded_width() as int,
                    old(self).spec_loaded_height() as int,
                    spec_pending_delta(old(self).spec_filters(), old(self).spec_loaded_filters()),
                )
                &&& final(self).spec_preview() == out@
                &&& final(self).spec_cache_rgb() == out@
                &&& final(self).spec_loaded_filters() == spec_merge(
                    old(self).spec_loaded_filters(),
                    spec_pending_delta(old(self).spec_filters(), old(self).spec_loaded_filters()),
                )
                &&& final(self).spec_filters() == old(self).spec_filters()
                &&& final(self).spec_loaded_image() == old(self).spec_loaded_image()
            },
    {
        proof {
            self.filters.lemma_wf_view();
            self.loaded_filters.lemma_wf_view();
        }
        let mut delta = self.filters.difference(&self.loaded_filters);
        let baked = self.loaded_filters.get_filter(FilterType::WhiteBalance);
        let target = self.filters.get_filter(FilterType::WhiteBalance);
        let tn = target.len();
        let instr: Vec<i64> = vec![baked[0], baked[1], target[tn - 2], target[tn - 1]];
        proof {
            assert(instr@ =~= compose_wb(
                self.loaded_filters@[2],
                self.filters@[2],
            ));
        }
        delta.update_filter(FilterType::WhiteBalance, instr);
        assert(delta@ == spec_pending_delta(self.filters@, self.loaded_filters@));
        let rendered = self.rendering.render_data(&self.full_res_preview, &delta);
        match rendered {
            Ok(out) => {
                self.full_res_preview = out.duplicate();
                self.loaded_filters = self.loaded_filters.merge(&delta);
                self.imagebuffers.update_rgb(out.duplicate());
                proof {
                    assert(self.loaded_filters@[2].len() == 2);
                }
                Ok(out)
            },
            Err(e) => {
                proof {
                    assert(false);
                }
                Err(e)
            },
        }
    }

    /// Discards all edits: the working buffer returns to the pristine
    /// original, both filter states to baseline, and the cache is cleared.
    pub fn reset(&mut self)
        requires
            old(self).wf(),
        ensures
            final(self).wf(),
            final(self).spec_preview() == old(self).spec_loaded_image(),
            final(self).spec_filters() == spec_defaults(),
            final(self).spec_loaded_filters() == spec_defaults(),
            final(self).spec_loaded_image() == old(self).spec_loaded_image(),
            final(self).spec_cache().rgb@.len() == 0,
            final(self).spec_cache().hsl@.len() == 0,
            final(self).spec_cache().oklab.data@.len() == 0,
            final(self).spec_cache().updated@ == seq![false, false, false],
    {
        self.full_res_preview = self.loaded_image.duplicate();
        self.filters = FilterArray::new(None);
        self.loaded_filters = FilterArray::new(None);
        self.imagebuffers.reset();
        proof {
            assert(spec_defaults()[2].len() == 2);
        }
    }

    /// A from-scratch full-parameter render: the complete desired filter
    /// state, with the white-balance slot composed onto the baseline
    /// reference white point, rendered against the pristine original. The
    /// result is independent of whatever already-rendered state the working
    /// buffer holds, and the session is not mutated.
    pub fn export(&self) -> (r: Result<Image, RenderingError>)
        requires
            self.wf(),
        ensures
            r is Ok,
            r matches Ok(out) ==> {
                &&& out.wf()
                &&& out@ == spec_render(
                    self.spec_loaded_image(),
                    self.spec_loaded_width() as int,
                    self.spec_loaded_height() as int,
                    spec_export_filters(self.spec_filters()),
                )
            },
    {
        proof {
            self.filters.lemma_wf_view();
        }
        let mut fs = self.filters.duplicate();
        let wb = self.filters.get_filter(FilterType::WhiteBalance);
        let wn = wb.len();
        let instr: Vec<i64> = vec![WB_BASELINE_TEMP, 0, wb[wn - 2], wb[wn - 1]];
        proof {
            assert(instr@ =~= compose_wb(seq![WB_BASELINE_TEMP, 0i64], self.filters@[2]));
        }
        fs.update_filter(FilterType::WhiteBalance, instr);
        assert(fs@ == spec_export_filters(self.filters@));
        let rendered = self.rendering.render_data(&self.loaded_image, &fs);
        match rendered {
            Ok(out) => Ok(out),
            Err(e) => {
                proof {
                    assert(false);
                }
                Err(e)
            },
        }
    }
}

/// Law: after an interactive render the baked filter state reports every
/// additive amount at its requested value, and the white balance at the
/// requested absolute target pair — the session invariant that
/// `filters - loaded_filters` is exactly the not-yet-rendered delta.
/// (Requested amounts whose difference from the baked amount overflows the
/// machine range saturate and are not reached.)
pub proof fn lemma_update_image_reaches_target(fs: Seq<Seq<i64>>, lf: Seq<Seq<i64>>)
    requires
        fs.len() == 7,
        lf.len() == 7,
        fs[2].len() >= 2,
        forall|i: int| crate::filters::additive_slot(i) ==> (#[trigger] fs[i]).len() >= 1,
        forall|i: int| crate::filters::additive_slot(i) ==> (#[trigger] lf[i]).len() >= 1,
        forall|i: int|
            crate::filters::additive_slot(i) ==> i64::MIN <= (#[trigger] fs[i])[0] - lf[i][0]
                <= i64::MAX,
    ensures
        forall|i: int|
            crate::filters::additive_slot(i) ==> #[trigger] spec_merge(
                lf,
                spec_pending_delta(fs, lf),
            )[i][0] == fs[i][0],
        spec_merge(lf, spec_pending_delta(fs, lf))[2] == fs[2].subrange(
            fs[2].len() - 2,
            fs[2].len() as int,
        ),
{
    let delta = spec_pending_delta(fs, lf);
    assert forall|i: int| crate::filters::additive_slot(i) implies #[trigger] spec_merge(
        lf,
        delta,
    )[i][0] == fs[i][0] by {
        assert(delta[i] == spec_difference(fs, lf)[i]);
        assert(delta[i][0] == crate::num::sat64(fs[i][0] - lf[i][0]) as i64);
    }
    assert(delta[2] == compose_wb(lf[2], fs[2]));
    assert(delta[2].subrange(delta[2].len() - 2, delta[2].len() as int) =~= fs[2].subrange(
        fs[2].len() - 2,
        fs[2].len() as int,
    ));
}

/// Law: export always hands the renderer a single absolute white-balance
/// instruction, from the baseline reference white point to the requested
/// target pair, independent of whatever filter state is already baked into
/// the working buffer; every other slot is rendered exactly as requested.
pub proof fn lemma_export_absolute_white_balance(fs: Seq<Seq<i64>>)
    requires
        fs.len() == 7,
        fs[2].len() >= 2,
    ensures
        spec_export_filters(fs)[2] =~= seq![
            WB_BASELINE_TEMP,
            0i64,
            fs[2][fs[2].len() - 2],
            fs[2][fs[2].len() - 1],
        ],
        forall|i: int| 0 <= i < 7 && i != 2 ==> #[trigger] spec_export_filters(fs)[i] == fs[i],
{
    assert(compose_wb(seq![WB_BASELINE_TEMP, 0i64], fs[2]) =~= seq![
        WB_BASELINE_TEMP,
        0i64,
        fs[2][fs[2].len() - 2],
        fs[2][fs[2].len() - 1],
    ]);
}

} // verus!

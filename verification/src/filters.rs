//! Filter tags, per-tag parameter vectors, and the fixed-slot `FilterArray`
//! with its delta/merge algebra.
//!
//! Every filter is relative (a cumulative delta whose neutral amount is 0)
//! except white balance, which is an absolute `[temperature, tint]` target:
//! it is replaced wholesale on merge and never diffed arithmetically.

use vstd::prelude::*;

use crate::num::{sat64, sat_add64, sat_sub64};

verus! {

/// The closed set of adjustable effects, in the canonical application order.
#[derive(Clone, Copy, Debug, PartialEq, Eq, Structural)]
pub enum FilterType {
    Exposition,
    Sharpening,
    WhiteBalance,
    Contrast,
    Saturation,
    GaussianBlur,
    Boxblur,
}

/// The slot each tag occupies in the canonical order.
pub open spec fn spec_index(t: FilterType) -> int {
    match t {
        FilterType::Exposition => 0,
        FilterType::Sharpening => 1,
        FilterType::WhiteBalance => 2,
        FilterType::Contrast => 3,
        FilterType::Saturation => 4,
        FilterType::GaussianBlur => 5,
        FilterType::Boxblur => 6,
    }
}

/// The tag that owns a slot.
pub open spec fn tag_of_slot(i: int) -> FilterType {
    if i == 0 {
        FilterType::Exposition
    } else if i == 1 {
        FilterType::Sharpening
    } else if i == 2 {
        FilterType::WhiteBalance
    } else if i == 3 {
        FilterType::Contrast
    } else if i == 4 {
        FilterType::Saturation
    } else if i == 5 {
        FilterType::GaussianBlur
    } else {
        FilterType::Boxblur
    }
}

/// The fixed parameter arity of a slot. The white-balance slot normally
/// holds the absolute pair `[temperature, tint]`; a composed render
/// instruction temporarily widens it to four values
/// `[current temperature, current tint, target temperature, target tint]`.
pub open spec fn slot_arity(i: int) -> int {
    if i == 0 || i == 3 || i == 4 {
        1
    } else {
        2
    }
}

/// Whether `n` is an accepted parameter count for slot `i`.
pub open spec fn valid_arity(i: int, n: int) -> bool {
    if i == 2 {
        n == 2 || n == 4
    } else {
        n == slot_arity(i)
    }
}

/// The slots whose leading parameter composes additively (all but white
/// balance).
pub open spec fn additive_slot(i: int) -> bool {
    0 <= i < 7 && i != 2
}

/// Baseline parameters: every additive filter at its neutral amount, white
/// balance at the reference temperature with zero tint.
pub open spec fn spec_defaults() -> Seq<Seq<i64>> {
    seq![
        seq![0i64],
        seq![0i64, 0i64],
        seq![WB_BASELINE_TEMP, 0i64],
        seq![0i64],
        seq![0i64],
        seq![0i64, 0i64],
        seq![0i64, 0i64],
    ]
}

/// Reference white-balance temperature in milli-kelvin.
pub const WB_BASELINE_TEMP: i64 = 6_500_000;

/// One adjustable effect: a tag and its parameter vector, fixed-point
/// milli-units.
#[derive(Debug)]
pub struct Filter {
    pub filtertype: FilterType,
    pub parameters: Vec<i64>,
}

/// Exactly one filter per tag, in the fixed canonical order. Slot count and
/// per-slot arity never change after construction; only values change.
#[derive(Debug)]
pub struct FilterArray {
    filters: Vec<Filter>,
}

impl View for FilterArray {
    type V = Seq<Seq<i64>>;

    closed spec fn view(&self) -> Seq<Seq<i64>> {
        Seq::new(7, |i: int| self.filters@[i].parameters@)
    }
}

/// Overrides applied in order over a base parameter table; an override with
/// an arity its slot does not accept is ignored.
pub open spec fn spec_apply_overrides(cur: Seq<Seq<i64>>, ovs: Seq<Filter>) -> Seq<Seq<i64>>
    decreases ovs.len(),
{
    if ovs.len() == 0 {
        cur
    } else {
        let prev = spec_apply_overrides(cur, ovs.drop_last());
        let f = ovs.last();
        let idx = spec_index(f.filtertype);
        if valid_arity(idx, f.parameters@.len() as int) {
            prev.update(idx, f.parameters@)
        } else {
            prev
        }
    }
}

/// The difference `A - B`: on every additive slot the leading parameter
/// becomes the amount still to be applied to go from a state where `B` is
/// baked in to state `A`; the absolute white-balance slot keeps `A`'s value.
pub open spec fn spec_difference(a: Seq<Seq<i64>>, b: Seq<Seq<i64>>) -> Seq<Seq<i64>> {
    Seq::new(
        7,
        |i: int|
            if additive_slot(i) {
                a[i].update(0, sat64(a[i][0] - b[i][0]) as i64)
            } else {
                a[i]
            },
    )
}

/// The merge `A + B`: adds `B`'s leading parameter onto `A`'s on every
/// additive slot; the white-balance slot is replaced wholesale by `B`'s
/// absolute target, the final `[temperature, tint]` pair of `B`'s slot.
pub open spec fn spec_merge(a: Seq<Seq<i64>>, b: Seq<Seq<i64>>) -> Seq<Seq<i64>> {
    Seq::new(
        7,
        |i: int|
            if additive_slot(i) {
                a[i].update(0, sat64(a[i][0] + b[i][0]) as i64)
            } else {
                b[2].subrange(b[2].len() - 2, b[2].len() as int)
            },
    )
}

/// Copies a parameter vector.
fn copy_params(v: &Vec<i64>) -> (r: Vec<i64>)
    ensures
        r@ == v@,
{
    let mut r: Vec<i64> = Vec::new();
    let mut i: usize = 0;
    while i < v.len()
        invariant
            i <= v.len(),
            r@ == v@.take(i as int),
        decreases v.len() - i,
    {
        r.push(v[i]);
        assert(r@ =~= v@.take(i as int + 1));
        i = i + 1;
    }
    assert(r@ =~= v@);
    r
}

impl FilterType {
    /// The slot this tag occupies in the canonical order.
    pub fn index(&self) -> (r: usize)
        ensures
            r as int == spec_index(*self),
    {
        match self {
            FilterType::Exposition => 0,
            FilterType::Sharpening => 1,
            FilterType::WhiteBalance => 2,
            FilterType::Contrast => 3,
            FilterType::Saturation => 4,
            FilterType::GaussianBlur => 5,
            FilterType::Boxblur => 6,
        }
    }
}

impl FilterArray {
    /// The structural invariant: seven slots, canonical tags, accepted
    /// arities.
    pub closed spec fn wf(&self) -> bool {
        &&& self.filters@.len() == 7
        &&& forall|i: int|
            0 <= i < 7 ==> (#[trigger] self.filters@[i]).filtertype == tag_of_slot(i)
        &&& forall|i: int|
            0 <= i < 7 ==> valid_arity(i, (#[trigger] self.filters@[i]).parameters@.len() as int)
    }

    /// Builds the seven fixed slots with baseline parameters, then applies
    /// any supplied overrides by tag; an override whose arity its slot does
    /// not accept is ignored.
    pub fn new(filters: Option<Vec<Filter>>) -> (r: FilterArray)
        ensures
            r.wf(),
            r@ == (if filters is Some {
                spec_apply_overrides(spec_defaults(), filters->Some_0@)
            } else {
                spec_defaults()
            }),
    {
        let mut fa: Vec<Filter> = Vec::new();
        fa.push(Filter { filtertype: FilterType::Exposition, parameters: vec![0i64] });
        fa.push(Filter { filtertype: FilterType::Sharpening, parameters: vec![0i64, 0i64] });
        fa.push(
            Filter { filtertype: FilterType::WhiteBalance, parameters: vec![WB_BASELINE_TEMP, 0i64] },
        );
        fa.push(Filter { filtertype: FilterType::Contrast, parameters: vec![0i64] });
        fa.push(Filter { filtertype: FilterType::Saturation, parameters: vec![0i64] });
        fa.push(Filter { filtertype: FilterType::GaussianBlur, parameters: vec![0i64, 0i64] });
        fa.push(Filter { filtertype: FilterType::Boxblur, parameters: vec![0i64, 0i64] });
        let mut out = FilterArray { filters: fa };
        assert(out@ =~~= spec_defaults());
        assert(out.wf());
        if let Some(ovs) = filters {
            let ghost base = spec_defaults();
            let mut k: usize = 0;
            while k < ovs.len()
                invariant
                    k <= ovs.len(),
                    out.wf(),
                    out@ == spec_apply_overrides(base, ovs@.take(k as int)),
                    base == spec_defaults(),
                decreases ovs.len() - k,
            {
                let idx = ovs[k].filtertype.index();
                let n = ovs[k].parameters.len();
                let ok: bool = if idx == 2 {
                    n == 2 || n == 4
                } else if idx == 0 || idx == 3 || idx == 4 {
                    n == 1
                } else {
                    n == 2
                };
                if ok {
                    let p = copy_params(&ovs[k].parameters);
                    let t = ovs[k].filtertype;
                    out.filters.set(idx, Filter { filtertype: t, parameters: p });
                }
                proof {
                    assert(ovs@.take(k as int + 1).drop_last() =~= ovs@.take(k as int));
                    assert(ovs@.take(k as int + 1).last() == ovs@[k as int]);
                    assert(out@ =~= spec_apply_overrides(base, ovs@.take(k as int + 1)));
                }
                k = k + 1;
            }
            proof {
                assert(ovs@.take(ovs@.len() as int) =~= ovs@);
            }
            out
        } else {
            out
        }
    }

    /// Replaces one slot's parameter vector. The caller must supply an
    /// arity the slot accepts.
    pub fn update_filter(&mut self, filtertype: FilterType, parameters: Vec<i64>)
        requires
            old(self).wf(),
            valid_arity(spec_index(filtertype), parameters@.len() as int),
        ensures
            final(self).wf(),
            final(self)@ == old(self)@.update(spec_index(filtertype), parameters@),
    {
        let idx = filtertype.index();
        self.filters.set(idx, Filter { filtertype, parameters });
        assert(self@ =~= old(self)@.update(spec_index(filtertype), parameters@));
    }

    /// The current parameters for a tag.
    pub fn get_filter(&self, filtertype: FilterType) -> (r: &Vec<i64>)
        requires
            self.wf(),
        ensures
            r@ == self@[spec_index(filtertype)],
            valid_arity(spec_index(filtertype), r@.len() as int),
    {
        let idx = filtertype.index();
        &self.filters[idx].parameters
    }

    /// The shape facts the invariant gives about the view: seven slots,
    /// each with an accepted arity.
    pub proof fn lemma_wf_view(&self)
        requires
            self.wf(),
        ensures
            self@.len() == 7,
            forall|i: int| 0 <= i < 7 ==> valid_arity(i, (#[trigger] self@[i]).len() as int),
    {
    }

    /// The parameters stored in slot `i`.
    pub fn params_at(&self, i: usize) -> (r: &Vec<i64>)
        requires
            self.wf(),
            i < 7,
        ensures
            r@ == self@[i as int],
            valid_arity(i as int, r@.len() as int),
    {
        &self.filters[i].parameters
    }

    /// The tag stored in slot `i`.
    pub fn tag_at(&self, i: usize) -> (r: FilterType)
        requires
            self.wf(),
            i < 7,
        ensures
            r == tag_of_slot(i as int),
    {
        self.filters[i].filtertype
    }

    /// An independent copy of the array.
    pub fn duplicate(&self) -> (r: FilterArray)
        requires
            self.wf(),
        ensures
            r.wf(),
            r@ == self@,
    {
        let mut fa: Vec<Filter> = Vec::new();
        let mut i: usize = 0;
        while i < 7
            invariant
                self.wf(),
                i <= 7,
                fa@.len() == i as int,
                forall|j: int|
                    0 <= j < i as int ==> (#[trigger] fa@[j]).filtertype == tag_of_slot(j)
                        && fa@[j].parameters@ == self@[j],
            decreases 7 - i,
        {
            let p = copy_params(&self.filters[i].parameters);
            fa.push(Filter { filtertype: self.filters[i].filtertype, parameters: p });
            i = i + 1;
        }
        let r = FilterArray { filters: fa };
        assert(r@ =~= self@);
        r
    }

    /// The difference `self - rhs`: the pending delta whose render takes an
    /// image with `rhs` baked in to the state `self` describes.
    pub fn difference(&self, rhs: &FilterArray) -> (r: FilterArray)
        requires
            self.wf(),
            rhs.wf(),
        ensures
            r.wf(),
            r@ == spec_difference(self@, rhs@),
    {
        let mut fa: Vec<Filter> = Vec::new();
        let mut i: usize = 0;
        while i < 7
            invariant
                self.wf(),
                rhs.wf(),
                i <= 7,
                fa@.len() == i as int,
                forall|j: int|
                    0 <= j < i as int ==> (#[trigger] fa@[j]).filtertype == tag_of_slot(j)
                        && fa@[j].parameters@ == spec_difference(self@, rhs@)[j],
            decreases 7 - i,
        {
            let mut p = copy_params(&self.filters[i].parameters);
            if i != 2 {
                let d = sat_sub64(p[0], rhs.filters[i].parameters[0]);
                p.set(0, d);
            }
            fa.push(Filter { filtertype: self.filters[i].filtertype, parameters: p });
            i = i + 1;
        }
        let r = FilterArray { filters: fa };
        assert(r@ =~= spec_difference(self@, rhs@));
        assert forall|i: int| 0 <= i < 7 implies valid_arity(
            i,
            (#[trigger] r.filters@[i]).parameters@.len() as int,
        ) by {
            assert(valid_arity(i, self.filters@[i].parameters@.len() as int));
        }
        r
    }

    /// The merge `self + rhs`: accumulates `rhs`'s additive amounts onto
    /// `self` and replaces the white-balance slot with `rhs`'s absolute
    /// target pair.
    pub fn merge(&self, rhs: &FilterArray) -> (r: FilterArray)
        requires
            self.wf(),
            rhs.wf(),
        ensures
            r.wf(),
            r@ == spec_merge(self@, rhs@),
    {
        let mut fa: Vec<Filter> = Vec::new();
        let mut i: usize = 0;
        while i < 7
            invariant
                self.wf(),
                rhs.wf(),
                i <= 7,
                fa@.len() == i as int,
                forall|j: int|
                    0 <= j < i as int ==> (#[trigger] fa@[j]).filtertype == tag_of_slot(j)
                        && fa@[j].parameters@ == spec_merge(self@, rhs@)[j],
            decreases 7 - i,
        {
            if i != 2 {
                let mut p = copy_params(&self.filters[i].parameters);
                let d = sat_add64(p[0], rhs.filters[i].parameters[0]);
                p.set(0, d);
                fa.push(Filter { filtertype: self.filters[i].filtertype, parameters: p });
            } else {
                let wb = &rhs.filters[2].parameters;
                let n = wb.len();
                let mut p: Vec<i64> = Vec::new();
                p.push(wb[n - 2]);
                p.push(wb[n - 1]);
                assert(p@ =~= rhs@[2].subrange(rhs@[2].len() - 2, rhs@[2].len() as int));
                fa.push(Filter { filtertype: FilterType::WhiteBalance, parameters: p });
            }
            i = i + 1;
        }
        let r = FilterArray { filters: fa };
        assert(r@ =~= spec_merge(self@, rhs@));
        r
    }
}

/// Law: for every additive slot, `(A - B) + B == A` — the delta algebra
/// round-trips whenever the subtraction itself does not saturate. (With
/// `B`'s leading amount at `i64::MIN` the difference saturates and the slot
/// is not restored; such amounts lie far outside every filter's working
/// range.)
pub proof fn lemma_difference_merge_round_trip(a: Seq<Seq<i64>>, b: Seq<Seq<i64>>)
    requires
        a.len() == 7,
        b.len() == 7,
        forall|i: int| additive_slot(i) ==> (#[trigger] a[i]).len() >= 1,
        forall|i: int| additive_slot(i) ==> (#[trigger] b[i]).len() >= 1,
        forall|i: int|
            additive_slot(i) ==> i64::MIN <= (#[trigger] a[i])[0] - b[i][0] <= i64::MAX,
    ensures
        forall|i: int| additive_slot(i) ==> #[trigger] spec_merge(spec_difference(a, b), b)[i] == a[i],
{
    assert forall|i: int| additive_slot(i) implies #[trigger] spec_merge(
        spec_difference(a, b),
        b,
    )[i] == a[i] by {
        let d = spec_difference(a, b)[i];
        assert(d == a[i].update(0, sat64(a[i][0] - b[i][0]) as i64));
        assert(sat64(a[i][0] - b[i][0]) == a[i][0] - b[i][0]);
        assert(sat64(d[0] + b[i][0]) == a[i][0]);
        assert(spec_merge(spec_difference(a, b), b)[i] == d.update(0, a[i][0]));
        assert(d.update(0, a[i][0]) =~= a[i]);
    }
}

} // verus!

//! Behavior of the fixed-slot filter array and its delta/merge algebra.

use lvie_core::filters::{Filter, FilterArray, FilterType, WB_BASELINE_TEMP};

#[test]
fn baseline_slots_hold_documented_defaults() {
    let fa = FilterArray::new(None);
    assert_eq!(fa.get_filter(FilterType::Exposition).as_slice(), &[0]);
    assert_eq!(fa.get_filter(FilterType::Sharpening).as_slice(), &[0, 0]);
    assert_eq!(
        fa.get_filter(FilterType::WhiteBalance).as_slice(),
        &[WB_BASELINE_TEMP, 0]
    );
    assert_eq!(fa.get_filter(FilterType::Contrast).as_slice(), &[0]);
    assert_eq!(fa.get_filter(FilterType::Saturation).as_slice(), &[0]);
    assert_eq!(fa.get_filter(FilterType::GaussianBlur).as_slice(), &[0, 0]);
    assert_eq!(fa.get_filter(FilterType::Boxblur).as_slice(), &[0, 0]);
}

#[test]
fn overrides_apply_by_tag() {
    let fa = FilterArray::new(Some(vec![
        Filter {
            filtertype: FilterType::Saturation,
            parameters: vec![250],
        },
        Filter {
            filtertype: FilterType::WhiteBalance,
            parameters: vec![7_200_000, -5_000],
        },
    ]));
    assert_eq!(fa.get_filter(FilterType::Saturation).as_slice(), &[250]);
    assert_eq!(
        fa.get_filter(FilterType::WhiteBalance).as_slice(),
        &[7_200_000, -5_000]
    );
    assert_eq!(fa.get_filter(FilterType::Exposition).as_slice(), &[0]);
}

#[test]
fn override_with_wrong_arity_is_ignored() {
    let fa = FilterArray::new(Some(vec![Filter {
        filtertype: FilterType::Exposition,
        parameters: vec![1, 2, 3],
    }]));
    assert_eq!(fa.get_filter(FilterType::Exposition).as_slice(), &[0]);
}

#[test]
fn update_filter_replaces_one_slot() {
    let mut fa = FilterArray::new(None);
    fa.update_filter(FilterType::Contrast, vec![340]);
    assert_eq!(fa.get_filter(FilterType::Contrast).as_slice(), &[340]);
    assert_eq!(fa.get_filter(FilterType::Saturation).as_slice(), &[0]);
}

#[test]
fn difference_subtracts_additive_leading_amounts() {
    let mut a = FilterArray::new(None);
    let mut b = FilterArray::new(None);
    a.update_filter(FilterType::Exposition, vec![1000]);
    a.update_filter(FilterType::Contrast, vec![500]);
    b.update_filter(FilterType::Exposition, vec![400]);
    b.update_filter(FilterType::Contrast, vec![-100]);
    let d = a.difference(&b);
    assert_eq!(d.get_filter(FilterType::Exposition).as_slice(), &[600]);
    assert_eq!(d.get_filter(FilterType::Contrast).as_slice(), &[600]);
    // the absolute white-balance slot keeps the left operand's value
    assert_eq!(
        d.get_filter(FilterType::WhiteBalance).as_slice(),
        &[WB_BASELINE_TEMP, 0]
    );
}

#[test]
fn merge_adds_amounts_and_replaces_white_balance() {
    let mut a = FilterArray::new(None);
    let mut b = FilterArray::new(None);
    a.update_filter(FilterType::Saturation, vec![120]);
    b.update_filter(FilterType::Saturation, vec![30]);
    b.update_filter(FilterType::WhiteBalance, vec![7_000_000, 10_000]);
    let m = a.merge(&b);
    assert_eq!(m.get_filter(FilterType::Saturation).as_slice(), &[150]);
    assert_eq!(
        m.get_filter(FilterType::WhiteBalance).as_slice(),
        &[7_000_000, 10_000]
    );
}

#[test]
fn merge_takes_the_target_pair_of_a_composed_instruction() {
    let a = FilterArray::new(None);
    let mut b = FilterArray::new(None);
    b.update_filter(
        FilterType::WhiteBalance,
        vec![WB_BASELINE_TEMP, 0, 7_000_000, 10_000],
    );
    let m = a.merge(&b);
    assert_eq!(
        m.get_filter(FilterType::WhiteBalance).as_slice(),
        &[7_000_000, 10_000]
    );
}

#[test]
fn difference_then_merge_restores_additive_slots() {
    let mut a = FilterArray::new(None);
    let mut b = FilterArray::new(None);
    a.update_filter(FilterType::Exposition, vec![1234]);
    a.update_filter(FilterType::Sharpening, vec![77, 3000]);
    a.update_filter(FilterType::GaussianBlur, vec![-55, 5000]);
    b.update_filter(FilterType::Exposition, vec![-999]);
    b.update_filter(FilterType::Sharpening, vec![13, 9000]);
    b.update_filter(FilterType::Boxblur, vec![4, 0]);
    let m = a.difference(&b).merge(&b);
    assert_eq!(m.get_filter(FilterType::Exposition).as_slice(), &[1234]);
    assert_eq!(m.get_filter(FilterType::Sharpening).as_slice(), &[77, 3000]);
    assert_eq!(m.get_filter(FilterType::GaussianBlur).as_slice(), &[-55, 5000]);
    assert_eq!(m.get_filter(FilterType::Boxblur).as_slice(), &[0, 0]);
}

#[test]
fn difference_saturates_at_the_machine_range() {
    let mut a = FilterArray::new(None);
    let mut b = FilterArray::new(None);
    a.update_filter(FilterType::Exposition, vec![i64::MIN]);
    b.update_filter(FilterType::Exposition, vec![1]);
    let d = a.difference(&b);
    assert_eq!(d.get_filter(FilterType::Exposition).as_slice(), &[i64::MIN]);
}

//! Behavior of the colorspace buffer cache and the histogram and
//! row-buffer operations.

use lvie_core::buffers::{BufferError, HslImage, ImageBuffers, OklabImage};
use lvie_core::histogram::{
    adjust_contrast, adjust_exposure, adjust_saturation, collect_data,
    combine_grayscale_with_colored, convert_to_grayscale, old_collect_data, CollectDataType,
};
use lvie_core::image::Image;

#[test]
fn rgb_cache_updates_its_hsl_representation() {
    let img = Image {
        width: 2,
        height: 1,
        data: vec![255, 0, 0, 255, 0, 0, 0, 128],
    };
    let mut bufs = ImageBuffers::from_rgb(img);
    assert!(bufs.update().is_ok());
    let hsl = bufs.get_hsl();
    // pure red: hue 0, full saturation, half lightness
    assert_eq!(&hsl.data[0..4], &[0, 1000, 500, 255]);
    // black: all zero
    assert_eq!(&hsl.data[4..8], &[0, 0, 0, 128]);
    assert_eq!((hsl.width, hsl.height), (2, 1));
}

#[test]
fn hsl_authoritative_cache_reports_unsupported() {
    let mut bufs = ImageBuffers::from_hsl(HslImage::empty());
    assert!(matches!(bufs.update(), Err(BufferError::Unsupported)));
}

#[test]
fn loading_an_oklab_raster_reports_unsupported() {
    let mut bufs = ImageBuffers::new();
    assert!(matches!(
        bufs.update_oklab(OklabImage::empty()),
        Err(BufferError::Unsupported)
    ));
}

#[test]
fn set_updates_marks_the_authoritative_representations() {
    let mut bufs = ImageBuffers::from_rgb(Image::filled(1, 1, 1, 2, 3, 4));
    assert_eq!(bufs.enabled, [true, false, false]);
    bufs.set_updates(false, true);
    assert_eq!(bufs.enabled, [false, true, false]);
    // with HSL authoritative the derivations back to RGB are unsupported
    assert!(matches!(bufs.update(), Err(BufferError::Unsupported)));
}

#[test]
fn reset_clears_the_cache() {
    let mut bufs = ImageBuffers::from_rgb(Image::filled(2, 2, 9, 9, 9, 9));
    bufs.update().unwrap();
    bufs.reset();
    assert_eq!(bufs.get_rgb().data.len(), 0);
    assert_eq!(bufs.get_hsl().data.len(), 0);
}

#[test]
fn update_rgb_marks_the_derived_representations_dirty() {
    let mut bufs = ImageBuffers::from_rgb(Image::filled(1, 1, 0, 255, 0, 255));
    bufs.update().unwrap();
    bufs.update_rgb(Image::filled(1, 1, 255, 0, 0, 255));
    bufs.update().unwrap();
    assert_eq!(&bufs.get_hsl().data[0..4], &[0, 1000, 500, 255]);
}

#[test]
fn histogram_counts_channel_values() {
    let img = Image {
        width: 3,
        height: 1,
        data: vec![10, 1, 2, 255, 30, 3, 4, 255, 10, 5, 6, 255],
    };
    let m = collect_data(&img, CollectDataType::Red);
    assert_eq!(m.get(&10), Some(&2));
    assert_eq!(m.get(&30), Some(&1));
    assert_eq!(m.get(&11), None);
    assert_eq!(m.len(), 2);
}

#[test]
fn histogram_counts_luminance() {
    // lightness of (100, 50, 150) is (150 + 50) / 2 = 100
    let img = Image {
        width: 2,
        height: 1,
        data: vec![100, 50, 150, 255, 100, 50, 150, 255],
    };
    let m = collect_data(&img, CollectDataType::Luminance);
    assert_eq!(m.get(&100), Some(&2));
    assert_eq!(m.len(), 1);
}

#[test]
fn row_histogram_keys_the_raw_channel_values() {
    let rows = vec![vec![300, 0, 0], vec![-5, 0, 0], vec![255, 0, 0]];
    let m = old_collect_data(&rows, CollectDataType::Red);
    assert_eq!(m.get(&300), Some(&1));
    assert_eq!(m.get(&-5), Some(&1));
    assert_eq!(m.get(&255), Some(&1));
    // a value beyond the key range saturates at the cast
    let big = vec![vec![9_000_000_000, 0, 0]];
    let m2 = old_collect_data(&big, CollectDataType::Red);
    assert_eq!(m2.get(&i32::MAX), Some(&1));
}

#[test]
fn grayscale_is_the_hsl_lightness() {
    let rows = vec![vec![255, 255, 255], vec![0, 0, 0], vec![100, 50, 150]];
    let g = convert_to_grayscale(&rows);
    assert_eq!(g, vec![255, 0, 100]);
}

#[test]
fn combining_gray_pixels_targets_the_requested_lightness() {
    let rows = vec![vec![128, 128, 128]];
    let out = combine_grayscale_with_colored(&vec![60], &rows);
    // a gray pixel keeps hue 0 and saturation 0; the lightness round
    // trip through milli-units quantizes 60 to 59
    assert_eq!(out, vec![vec![59, 59, 59]]);
}

#[test]
fn row_exposure_matches_the_kernel_formula() {
    let rows = vec![vec![128, 128, 128], vec![10, 300, -4]];
    let out = adjust_exposure(&rows, 1000);
    assert_eq!(out[0], vec![255, 255, 255]);
    // raw channels are multiplied first; only the result is clamped
    assert_eq!(out[1], vec![20, 255, 0]);
    // amounts beyond the working range behave like the bound
    assert_eq!(adjust_exposure(&rows, 99_000), adjust_exposure(&rows, 2_000));
}

#[test]
fn row_saturation_clamps_the_nudge_at_the_lower_bound() {
    let rows = vec![vec![40, 170, 90]];
    let out = adjust_saturation(&rows, -1000);
    assert_eq!(out, vec![vec![93, 117, 102]]);
    assert_eq!(adjust_saturation(&rows, -9000), adjust_saturation(&rows, -500));
}

#[test]
fn row_contrast_leaves_a_uniform_buffer_at_its_quantized_lightness() {
    let rows = vec![vec![128, 128, 128], vec![128, 128, 128]];
    let out = adjust_contrast(&rows, 300);
    assert_eq!(out, vec![vec![127, 127, 127], vec![127, 127, 127]]);
}

#[test]
fn row_contrast_spreads_values_about_the_mean() {
    let rows = vec![vec![100, 100, 100], vec![200, 200, 200]];
    let out = adjust_contrast(&rows, 500);
    // mean lightness 150: the darker row moves down, the brighter up
    assert!(out[0][0] < 100);
    assert!(out[1][0] > 200);
}

#[test]
fn crop_keeps_the_selected_window_row_major() {
    let buffer = vec![vec![1], vec![2], vec![3], vec![4], vec![5], vec![6]];
    let out = lvie_core::histogram::crop_image(&buffer, (3, 2), (1, 0, 0, 0));
    assert_eq!(out, vec![vec![2], vec![3], vec![5], vec![6]]);
    let top = lvie_core::histogram::crop_image(&buffer, (3, 2), (0, 1, 0, 0));
    assert_eq!(top, vec![vec![4], vec![5], vec![6]]);
    let none = lvie_core::histogram::crop_image(&buffer, (3, 2), (0, 0, 3, 0));
    assert_eq!(none.len(), 0);
}

//! Behavior of the rendering dispatcher, the CPU kernels, and the edit
//! session.

use lvie_core::filters::{Filter, FilterArray, FilterType, WB_BASELINE_TEMP};
use lvie_core::image::Image;
use lvie_core::kernels;
use lvie_core::rendering::{Rendering, RenderingBackends, RenderingError};
use lvie_core::session::Data;

fn gray_image(w: u32, h: u32, v: u8) -> Image {
    Image::filled(w, h, v, v, v, 255)
}

fn cpu() -> Rendering {
    Rendering::init(RenderingBackends::CPU).unwrap()
}

#[test]
fn gpu_backend_reports_a_recoverable_error() {
    let r = Rendering::init(RenderingBackends::GPU);
    assert!(matches!(r, Err(RenderingError::GenericError(_))));
    // the caller can fall back to the CPU backend
    assert!(Rendering::init(RenderingBackends::CPU).is_ok());
}

#[test]
fn neutral_parameters_render_byte_identical() {
    let rend = cpu();
    let img = Image::filled(3, 2, 17, 130, 200, 255);
    // the baseline table itself: every additive amount zero, the
    // white-balance slot at the reference pair, which composes onto its
    // own white point
    let filters = FilterArray::new(None);
    let out = rend.render_data(&img, &filters).unwrap();
    assert_eq!(out.data, img.data);
    assert_eq!((out.width, out.height), (3, 2));
}

#[test]
fn composed_neutral_instruction_renders_byte_identical() {
    let rend = cpu();
    let img = Image::filled(3, 2, 17, 130, 200, 255);
    // the explicitly composed baseline-to-baseline instruction
    let filters = FilterArray::new(Some(vec![Filter {
        filtertype: FilterType::WhiteBalance,
        parameters: vec![WB_BASELINE_TEMP, 0, WB_BASELINE_TEMP, 0],
    }]));
    let out = rend.render_data(&img, &filters).unwrap();
    assert_eq!(out.data, img.data);
}

#[test]
fn one_stop_over_gray_at_the_renderer() {
    let rend = cpu();
    let img = gray_image(4, 4, 128);
    let mut filters = FilterArray::new(None);
    filters.update_filter(FilterType::Exposition, vec![1000]);
    let out = rend.render_data(&img, &filters).unwrap();
    for p in 0..16 {
        assert_eq!(&out.data[4 * p..4 * p + 4], &[255, 255, 255, 255]);
    }
    // re-rendering the neutral table afterward returns the image unchanged
    let again = rend
        .render_data(&out, &FilterArray::new(None))
        .unwrap();
    assert_eq!(again.data, out.data);
}

#[test]
fn renderer_clamps_exposure_amounts_alike() {
    let rend = cpu();
    let img = Image::filled(2, 2, 60, 120, 240, 9);
    let mut fa1 = FilterArray::new(None);
    let mut fa2 = FilterArray::new(None);
    fa1.update_filter(FilterType::Exposition, vec![10_000]);
    fa2.update_filter(FilterType::Exposition, vec![2_000]);
    let a = rend.render_data(&img, &fa1).unwrap();
    let b = rend.render_data(&img, &fa2).unwrap();
    assert_eq!(a.data, b.data);
}

#[test]
fn exposure_of_one_stop_saturates_midtones() {
    let out = kernels::exposition(&gray_image(4, 4, 128), 1000);
    for p in 0..16 {
        assert_eq!(&out.data[4 * p..4 * p + 4], &[255, 255, 255, 255]);
    }
}

#[test]
fn exposure_amounts_beyond_the_range_behave_like_the_bound() {
    let img = Image::filled(2, 2, 60, 120, 240, 9);
    let a = kernels::exposition(&img, 10_000);
    let b = kernels::exposition(&img, 2_000);
    assert_eq!(a.data, b.data);
    let c = kernels::exposition(&img, -10_000);
    let d = kernels::exposition(&img, -2_000);
    assert_eq!(c.data, d.data);
    // one quarter-stop example at the bound: 4x multiply, saturated
    assert_eq!(&a.data[0..4], &[240, 255, 255, 9]);
}

#[test]
fn exposure_at_zero_is_exact() {
    let img = Image::filled(2, 1, 7, 77, 177, 3);
    let out = kernels::exposition(&img, 0);
    assert_eq!(out.data, img.data);
}

#[test]
fn saturation_amounts_beyond_the_range_behave_like_the_bound() {
    let img = Image::filled(2, 2, 40, 170, 90, 255);
    let a = kernels::saturate(&img, -5_000);
    let b = kernels::saturate(&img, -500);
    assert_eq!(a.data, b.data);
    let c = kernels::saturate(&img, 5_000);
    let d = kernels::saturate(&img, 500);
    assert_eq!(c.data, d.data);
}

#[test]
fn desaturating_pulls_channels_toward_the_midpoint() {
    let img = Image::filled(1, 1, 40, 170, 90, 255);
    // saturation 619 drops by the clamped bound 500 to 119: each
    // deviation from the midpoint 105 shrinks by 119/619
    let out = kernels::saturate(&img, -1_000);
    assert_eq!(out.data, vec![93, 117, 102, 255]);
}

#[test]
fn white_balance_toward_its_own_white_point_is_identity() {
    let img = Image::filled(2, 2, 13, 210, 255, 128);
    let out = kernels::whitebalance(&img, 5_400_000, 7_000, 5_400_000, 7_000);
    assert_eq!(out.data, img.data);
}

#[test]
fn white_balance_warms_by_lowering_the_target_temperature() {
    let img = Image::filled(1, 1, 100, 100, 100, 255);
    let out = kernels::whitebalance(&img, WB_BASELINE_TEMP, 0, 4_000_000, 0);
    // red scales by 9/6.5, blue by 4/6.5, green by the unchanged tint
    assert_eq!(out.data, vec![138, 100, 61, 255]);
}

#[test]
fn box_blur_averages_the_clamped_window() {
    let img = Image {
        width: 2,
        height: 1,
        data: vec![10, 0, 100, 255, 30, 0, 200, 7],
    };
    let out = kernels::boxblur(&img, 1000);
    assert_eq!(out.data, vec![20, 0, 150, 255, 20, 0, 150, 7]);
}

#[test]
fn box_blur_with_zero_radius_keeps_every_pixel() {
    let img = Image {
        width: 2,
        height: 2,
        data: vec![
            1, 2, 3, 4, 5, 6, 7, 8, 9, 10, 11, 12, 13, 14, 15, 16,
        ],
    };
    let out = kernels::boxblur(&img, 0);
    assert_eq!(out.data, img.data);
}

#[test]
fn sharpening_with_zero_amount_keeps_every_pixel() {
    let img = Image {
        width: 2,
        height: 1,
        data: vec![10, 0, 100, 255, 30, 0, 200, 7],
    };
    let out = kernels::sharpen(&img, 0, 1000);
    assert_eq!(out.data, img.data);
}

#[test]
fn sharpening_pushes_channels_away_from_the_blur() {
    let img = Image {
        width: 2,
        height: 1,
        data: vec![10, 0, 0, 255, 30, 0, 0, 255],
    };
    // blur of radius 1 gives 20 on both; amount 1.0 doubles the deviation
    let out = kernels::sharpen(&img, 1000, 1000);
    assert_eq!(out.data, vec![0, 0, 0, 255, 40, 0, 0, 255]);
}

#[test]
fn gaussian_blur_with_tiny_sigma_keeps_the_image() {
    let img = Image {
        width: 2,
        height: 1,
        data: vec![10, 0, 0, 255, 30, 0, 0, 255],
    };
    // a sigma that rounds to a zero radius leaves the buffer unchanged
    let out = kernels::gaussianblur(&img, 400, 3000);
    assert_eq!(out.data, img.data);
}

#[test]
fn gaussian_blur_converges_to_the_window_mean() {
    let img = Image {
        width: 2,
        height: 1,
        data: vec![10, 0, 0, 255, 30, 0, 0, 255],
    };
    let out = kernels::gaussianblur(&img, 1000, 2000);
    // two box passes of radius 1 over two pixels: both settle at the mean
    assert_eq!(out.data, vec![20, 0, 0, 255, 20, 0, 0, 255]);
}

#[test]
fn contrast_keeps_a_uniform_image_at_its_quantized_lightness() {
    let img = gray_image(2, 2, 128);
    let out = kernels::contrast(&img, 400);
    // every deviation from the mean is zero; only the lightness
    // round-trip quantization remains
    assert_eq!(&out.data[0..4], &[127, 127, 127, 255]);
}

#[test]
fn gray_pixels_after_one_stop_session_render() {
    let rend = cpu();
    let mut s = Data::new(rend, Some(gray_image(4, 4, 128)), None);
    s.update_filter(FilterType::Exposition, vec![1000]);
    let out = s.update_image().unwrap();
    for p in 0..16 {
        assert_eq!(&out.data[4 * p..4 * p + 4], &[255, 255, 255, 255]);
    }
    // the delta is now baked in: rendering again changes nothing
    let again = s.update_image().unwrap();
    assert_eq!(again.data, out.data);
    assert_eq!(s.full_res_preview.data, out.data);
}

#[test]
fn export_equals_a_fresh_render_with_the_composed_instruction() {
    let rend = cpu();
    let mut s = Data::new(rend, Some(Image::filled(2, 2, 200, 100, 50, 255)), None);
    s.update_filter(FilterType::WhiteBalance, vec![7_000_000, 10_000]);
    let exported = s.export().unwrap();

    // a fresh render of the loaded image with the single absolute
    // white-balance instruction composed onto the baseline
    let mut filters = FilterArray::new(None);
    filters.update_filter(
        FilterType::WhiteBalance,
        vec![WB_BASELINE_TEMP, 0, 7_000_000, 10_000],
    );
    let fresh = cpu()
        .render_data(&Image::filled(2, 2, 200, 100, 50, 255), &filters)
        .unwrap();
    assert_eq!(exported.data, fresh.data);
}

#[test]
fn export_ignores_already_baked_edits() {
    let rend = cpu();
    let mut s = Data::new(rend, Some(gray_image(2, 2, 60)), None);
    s.update_filter(FilterType::Exposition, vec![500]);
    // bake the half-stop into the working buffer, then export
    let _ = s.update_image().unwrap();
    let exported = s.export().unwrap();

    // export renders the pristine original under the full filter state:
    // the half-stop applies once (60 -> 90), never twice
    assert_eq!(&exported.data[0..4], &[90, 90, 90, 255]);
    let mut filters = FilterArray::new(None);
    filters.update_filter(FilterType::Exposition, vec![500]);
    filters.update_filter(
        FilterType::WhiteBalance,
        vec![WB_BASELINE_TEMP, 0, WB_BASELINE_TEMP, 0],
    );
    let fresh = cpu().render_data(&gray_image(2, 2, 60), &filters).unwrap();
    assert_eq!(exported.data, fresh.data);
}

#[test]
fn export_does_not_mutate_the_session() {
    let rend = cpu();
    let mut s = Data::new(rend, Some(gray_image(2, 2, 90)), None);
    s.update_filter(FilterType::Exposition, vec![500]);
    let before = s.full_res_preview.data.clone();
    let _ = s.export().unwrap();
    assert_eq!(s.full_res_preview.data, before);
    assert_eq!(s.get_filter(FilterType::Exposition).as_slice(), &[500]);
}

#[test]
fn reset_restores_the_pristine_original() {
    let rend = cpu();
    let mut s = Data::new(rend, Some(gray_image(2, 2, 128)), None);
    s.update_filter(FilterType::Exposition, vec![1000]);
    let _ = s.update_image().unwrap();
    assert_ne!(s.full_res_preview.data, gray_image(2, 2, 128).data);
    s.reset();
    assert_eq!(s.full_res_preview.data, gray_image(2, 2, 128).data);
    assert_eq!(s.get_filter(FilterType::Exposition).as_slice(), &[0]);
}

#[test]
fn load_image_replaces_the_original_and_clears_baked_state() {
    let rend = cpu();
    let mut s = Data::new(rend, Some(gray_image(2, 2, 10)), None);
    s.update_filter(FilterType::Exposition, vec![1000]);
    let _ = s.update_image().unwrap();
    s.load_image(gray_image(3, 1, 77));
    assert_eq!(s.image_dimensions(), (3, 1));
    assert_eq!(s.full_res_preview.data, gray_image(3, 1, 77).data);
    // the desired filter state is kept, the baked state is baseline again
    assert_eq!(s.get_filter(FilterType::Exposition).as_slice(), &[1000]);
}

#[test]
fn session_without_an_image_starts_empty() {
    let rend = cpu();
    let s = Data::new(rend, None, None);
    assert_eq!(s.image_dimensions(), (0, 0));
    assert_eq!(s.full_res_preview.data.len(), 0);
}

//! Level selection, geometry planning, region planning and buffer
//! assembly.

use slideslib::cache::{
    assemble_region, blend_rgba, change_cache, embed_rgba, find_next_greater_value, plan_region,
    reset_offsets, scale_rgba, update_cache_data, update_zoom_props, PreloadRegionArgs, RegionPlan,
};
use slideslib::error::ErrorKind;
use slideslib::image_viewer::apply_slide_properties;
use slideslib::{Size, ZoomableImageViewer};

fn loaded_viewer() -> ZoomableImageViewer {
    let mut viewer = ZoomableImageViewer::new();
    let r = apply_slide_properties(
        &mut viewer,
        String::from("slide.tiff"),
        Size { w: 22016, h: 4608 },
        vec![1, 4, 16],
        None,
    );
    assert!(r.is_ok());
    viewer
}

#[test]
fn selects_the_next_greater_level() {
    let values: Vec<i64> = vec![0, 2, 8, 16];
    assert_eq!(find_next_greater_value(&values, 2), Some((1, 2)));
    assert_eq!(find_next_greater_value(&values, 5), Some((2, 8)));
    assert_eq!(find_next_greater_value(&values, 8), Some((2, 8)));
    assert_eq!(find_next_greater_value(&values, 17), None);
}

#[test]
fn thumbnail_level_uses_the_full_downsampled_extent() {
    let viewer = loaded_viewer();
    assert_eq!(viewer.level, 16);
    assert_eq!(viewer.max_level, 16);
    assert!(!viewer.tracker.preload_possible);
    assert_eq!(viewer.current_extents, Size { w: 1376, h: 288 });
    assert_eq!(viewer.view.viewport_size, Size { w: 1376, h: 288 });
    assert_eq!(viewer.view.cache_size, Size { w: 1376, h: 288 });
    assert_eq!(viewer.tracker.cache_size_x, 1376);
    assert_eq!(viewer.tracker.cache_size_y, 288);
    assert_eq!(viewer.tracker.max_global_x, 22016);
    assert_eq!(viewer.tracker.max_global_y, 4608);
    assert_eq!(viewer.offsetx, 11008);
    assert_eq!(viewer.offsety, 2304);
}

#[test]
fn intermediate_level_scales_the_viewport_down() {
    let mut viewer = loaded_viewer();
    viewer.level = 14;
    update_zoom_props(&mut viewer);
    assert_eq!(viewer.view.viewport_size, Size { w: 1204, h: 287 });
    assert_eq!(viewer.view.cache_size, Size { w: 1376, h: 288 });
    assert!(!viewer.tracker.preload_possible);
}

#[test]
fn fine_level_caps_the_cache_at_the_ceiling() {
    let mut viewer = loaded_viewer();
    viewer.level = 1;
    update_zoom_props(&mut viewer);
    assert!(viewer.tracker.preload_possible);
    assert_eq!(viewer.view.viewport_size, Size { w: 1500, h: 1125 });
    assert_eq!(viewer.view.cache_size, Size { w: 3000, h: 2250 });
    assert_eq!(viewer.view.viewport_default, Size { w: 1376, h: 288 });
    assert_eq!(viewer.tracker.cache_size_x, 3000);
    assert_eq!(viewer.tracker.cache_size_y, 2250);
    assert_eq!(viewer.tracker.cache_comp_x, 1);
    assert_eq!(viewer.tracker.cache_comp_y, 1);
}

fn canonical_args(offsetx: i64, offsety: i64) -> PreloadRegionArgs {
    PreloadRegionArgs {
        level: 16,
        max_extents: Size { w: 22016, h: 4608 },
        cache_size: Size { w: 2752, h: 576 },
        offsetx,
        offsety,
        levels: vec![1, 4, 16],
    }
}

#[test]
fn plans_the_canonical_centered_request() {
    let plan = plan_region(&canonical_args(11008, 2304), false);
    assert_eq!(plan.level_idx, 2);
    assert_eq!(plan.level_value, 16);
    // The corner would fall before the origin; at the coarsest level
    // the request is not shrunk, only the address is clamped.
    assert_eq!(plan.address_x, 0);
    assert_eq!(plan.address_y, 0);
    assert_eq!(plan.read_w, 2752);
    assert_eq!(plan.read_h, 576);
    assert_eq!(plan.out_w, 2752);
    assert_eq!(plan.out_h, 576);
    assert!(plan.scale_to.is_none());
}

#[test]
fn plans_a_request_far_outside_the_image() {
    let plan = plan_region(&canonical_args(200000, 0), false);
    assert_eq!(plan.address_x, 200000 - 22016);
    assert_eq!(plan.address_y, 0);
    assert_eq!(plan.read_w, 2752);
    assert_eq!(plan.read_h, 576);
}

#[test]
fn plans_the_overlay_request_against_its_base_level() {
    let plan = plan_region(&canonical_args(11008, 2304), true);
    assert_eq!(plan.level_idx, 0);
    assert_eq!(plan.read_w, 2752);
    assert_eq!(plan.read_h, 576);
    assert_eq!(plan.out_w, 2752);
    assert_eq!(plan.out_h, 576);
    assert_eq!(plan.scale_to, Some(Size { w: 2752, h: 576 }));
    // The address is rescaled by the coarsest level.
    assert_eq!(plan.address_x, 0);
    assert_eq!(plan.address_y, 0);
}

#[test]
fn shrinks_a_request_left_of_the_origin_at_finer_levels() {
    let mut args = canonical_args(0, 2304);
    args.level = 4;
    let plan = plan_region(&args, false);
    // The corner is 4 * 2752 / 2 = 5504 level-0 pixels left of the
    // origin, so 5504 / 4 = 1376 pixels are cut from the request.
    assert_eq!(plan.level_value, 4);
    assert_eq!(plan.address_x, 0);
    assert_eq!(plan.read_w, 2752 - 1376);
    assert_eq!(plan.read_h, 576);
}

#[test]
fn an_out_of_bounds_fetch_assembles_to_an_all_zero_buffer() {
    let plan = RegionPlan {
        level_idx: 0,
        level_value: 16,
        address_x: 177984,
        address_y: 0,
        read_w: 4,
        read_h: 3,
        out_w: 6,
        out_h: 5,
        scale_to: None,
    };
    let bytes: Vec<u8> = vec![0; 4 * 3 * 4];
    let out = assemble_region(&plan, &bytes);
    assert_eq!(out.len(), 6 * 5 * 4);
    let sum: u32 = out.iter().map(|b| *b as u32).sum();
    assert_eq!(sum, 0);
}

#[test]
fn a_short_read_is_embedded_bottom_right_aligned() {
    // A 1x1 red pixel inside a 3x2 canvas lands at the bottom-right
    // corner; everything else stays zero.
    let src: Vec<u8> = vec![200, 10, 20, 255];
    let out = embed_rgba(&src, 1, 1, 2, 1, 3, 2);
    assert_eq!(out.len(), 3 * 2 * 4);
    let corner = (1 * 3 + 2) * 4;
    assert_eq!(&out[corner..corner + 4], &[200, 10, 20, 255]);
    let sum: u32 = out.iter().map(|b| *b as u32).sum();
    assert_eq!(sum, 200 + 10 + 20 + 255);
}

#[test]
fn nearest_resampling_replicates_pixels() {
    let src: Vec<u8> = vec![1, 2, 3, 4];
    let out = scale_rgba(&src, 1, 1, 2, 2);
    assert_eq!(out, vec![1, 2, 3, 4, 1, 2, 3, 4, 1, 2, 3, 4, 1, 2, 3, 4]);
}

#[test]
fn blending_uses_the_fixed_weights() {
    let img: Vec<u8> = vec![100, 255, 1, 0];
    let pred: Vec<u8> = vec![200, 255, 1, 0];
    let out = blend_rgba(&img, &pred);
    // 0.35 * primary + 0.65 * overlay, truncated.
    assert_eq!(out, vec![165, 255, 1, 0]);
}

#[test]
fn foreground_refill_publishes_into_the_live_cache() {
    let mut viewer = loaded_viewer();
    let r = update_cache_data(
        &mut viewer,
        false,
        String::from("slide.tiff"),
        Ok(vec![7, 7, 7]),
        Ok(vec![]),
    );
    assert!(r.is_none());
    assert_eq!(viewer.buffers.cache, vec![7, 7, 7]);
}

#[test]
fn background_refill_stages_and_raises_the_ready_flag() {
    let mut viewer = loaded_viewer();
    assert!(!viewer.buffers.update_ready);
    let r = update_cache_data(
        &mut viewer,
        true,
        String::from("slide.tiff"),
        Ok(vec![9, 9]),
        Ok(vec![]),
    );
    assert!(r.is_none());
    assert!(viewer.buffers.update_ready);
    assert_eq!(viewer.buffers.loadtime_cache, vec![9, 9]);
    // The live cache is untouched until the swap.
    assert_ne!(viewer.buffers.cache, vec![9, 9]);
    let swap = change_cache(&mut viewer);
    assert!(swap.is_none());
    assert_eq!(viewer.buffers.cache, vec![9, 9]);
}

#[test]
fn blended_refill_combines_both_planes() {
    let mut viewer = loaded_viewer();
    viewer.show_pred = true;
    let r = update_cache_data(
        &mut viewer,
        false,
        String::from("slide.tiff"),
        Ok(vec![100, 100]),
        Ok(vec![200, 200]),
    );
    assert!(r.is_none());
    assert_eq!(viewer.buffers.cache, vec![165, 165]);
}

#[test]
fn a_failed_overlay_still_publishes_the_primary_plane() {
    let mut viewer = loaded_viewer();
    viewer.show_pred = true;
    let r = update_cache_data(
        &mut viewer,
        false,
        String::from("slide.tiff"),
        Ok(vec![4, 4]),
        Err(String::from("missing mask")),
    );
    assert!(matches!(r, Some(ErrorKind::MaskLoadingError(_, _))));
    assert_eq!(viewer.buffers.cache, vec![4, 4]);
}

#[test]
fn a_double_failure_keeps_the_previous_buffer() {
    let mut viewer = loaded_viewer();
    let before = viewer.buffers.cache.clone();
    let r = update_cache_data(
        &mut viewer,
        false,
        String::from("slide.tiff"),
        Err(String::from("no slide")),
        Err(String::from("no mask")),
    );
    assert!(matches!(r, Some(ErrorKind::BothLoadingError(_, _, _))));
    assert_eq!(viewer.buffers.cache, before);
}

#[test]
fn a_background_failure_lands_in_the_error_slot() {
    let mut viewer = loaded_viewer();
    let r = update_cache_data(
        &mut viewer,
        true,
        String::from("slide.tiff"),
        Err(String::from("no slide")),
        Err(String::from("no mask")),
    );
    assert!(r.is_none());
    assert!(matches!(viewer.error, Some(ErrorKind::ThreadMultiError(_, _))));
}

#[test]
fn reset_offsets_recenters_the_session() {
    let mut viewer = loaded_viewer();
    viewer.offsetx = 12345;
    viewer.offsety = 1234;
    viewer.view.cache_posx = 50;
    viewer.view.cache_posy = -50;
    viewer.tracker.center_correction_x = 7;
    reset_offsets(&mut viewer);
    assert_eq!(viewer.offsetx, 11008);
    assert_eq!(viewer.offsety, 2304);
    assert_eq!(viewer.tracker.current_x, 11008);
    assert_eq!(viewer.tracker.current_y, 2304);
    assert_eq!(viewer.view.cache_posx, 0);
    assert_eq!(viewer.view.cache_posy, 0);
    assert_eq!(viewer.tracker.center_correction_x, 0);
}

#[test]
fn a_background_overlay_failure_is_a_soft_error() {
    let mut viewer = loaded_viewer();
    let r = update_cache_data(
        &mut viewer,
        true,
        String::from("slide.tiff"),
        Ok(vec![5, 5]),
        Err(String::from("no mask")),
    );
    assert!(r.is_none());
    // The primary plane is still staged and the failure lands in the
    // error slot.
    assert!(viewer.buffers.update_ready);
    assert_eq!(viewer.buffers.loadtime_cache, vec![5, 5]);
    assert!(matches!(viewer.error, Some(ErrorKind::ThreadError(_))));
}

#[test]
fn selection_on_an_empty_level_list_finds_nothing() {
    let values: Vec<i64> = vec![];
    assert_eq!(find_next_greater_value(&values, 1), None);
}

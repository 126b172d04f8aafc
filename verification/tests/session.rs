//! Session-level behaviour: loading, level changes, panning, path
//! helpers and the shared error cell.

use slideslib::cache::update_zoom_props;
use slideslib::error::ErrorKind;
use slideslib::image_viewer::{
    apply_slide_properties, change_level, find_parent_of_mpmri, pan, step_level,
};
use slideslib::slide_predictor::replace_suffix_with_pred;
use slideslib::tracking::Borders;
use slideslib::util::{log_or_load_thread_err, reset_thread_err};
use slideslib::{Size, ZoomableImageViewer};

fn loaded_viewer() -> ZoomableImageViewer {
    let mut viewer = ZoomableImageViewer::new();
    let r = apply_slide_properties(
        &mut viewer,
        String::from("slide.tiff"),
        Size { w: 22016, h: 4608 },
        vec![1, 4, 16],
        None,
    );
    assert!(r.is_ok());
    viewer
}

#[test]
fn a_fresh_session_sits_centered() {
    let viewer = ZoomableImageViewer::new();
    assert_eq!(viewer.level, 1);
    assert_eq!(viewer.max_level, 1);
    assert_eq!(viewer.offsetx, 256);
    assert_eq!(viewer.offsety, 256);
    assert_eq!(viewer.view.cache_posx, 0);
    assert_eq!(viewer.view.cache_posy, 0);
    assert!(viewer.error.is_none());
    assert!(!viewer.buffers.update_ready);
    assert_eq!(viewer.buffers.cache.len(), 1024 * 1024 * 4);
}

#[test]
fn loading_adopts_the_slide_properties() {
    let viewer = loaded_viewer();
    assert_eq!(viewer.max_level, 16);
    assert_eq!(viewer.level, 16);
    assert_eq!(viewer.max_extents, Size { w: 22016, h: 4608 });
    assert_eq!(viewer.offsetx, 11008);
    assert_eq!(viewer.offsety, 2304);
    assert!(!viewer.show_pred);
}

#[test]
fn unusable_properties_are_rejected() {
    let mut viewer = ZoomableImageViewer::new();
    let r = apply_slide_properties(
        &mut viewer,
        String::from("broken.tiff"),
        Size { w: 512, h: 512 },
        vec![],
        None,
    );
    assert!(matches!(r, Err(ErrorKind::OpenSlidePropertiesError(_))));
    // The session is left unchanged.
    assert_eq!(viewer.level, 1);
    assert_eq!(viewer.max_level, 1);

    let mut viewer = ZoomableImageViewer::new();
    let r = apply_slide_properties(
        &mut viewer,
        String::from("broken.tiff"),
        Size { w: 512, h: 512 },
        vec![1, 4, 16],
        Some(32),
    );
    assert!(matches!(r, Err(ErrorKind::OpenSlidePropertiesError(_))));
}

#[test]
fn leaving_the_coarsest_level_recenters_on_the_midpoint() {
    let mut viewer = loaded_viewer();
    assert_eq!(viewer.view.cache_posx, 0);
    let refill = change_level(&mut viewer, 14);
    assert_eq!(viewer.level, 14);
    // Both the old and the new request select the coarsest level, so no
    // fetch is due, and the offset stays at the image midpoint.
    assert!(!refill);
    assert_eq!(viewer.offsetx, 11008);
    assert_eq!(viewer.offsety, 2304);
    assert_eq!(viewer.view.cache_posx, 0);
    assert_eq!(viewer.view.cache_posy, 0);

    let refill = change_level(&mut viewer, 1);
    assert!(refill);
    assert_eq!(viewer.level, 1);
}

#[test]
fn returning_to_the_coarsest_level_resets_the_offsets() {
    let mut viewer = loaded_viewer();
    let _ = change_level(&mut viewer, 1);
    viewer.view.cache_posx = 40;
    let refill = change_level(&mut viewer, 16);
    assert!(refill);
    assert_eq!(viewer.offsetx, 11008);
    assert_eq!(viewer.offsety, 2304);
    assert_eq!(viewer.view.cache_posx, 0);
    assert_eq!(viewer.current_border.cache, Borders::Center);
}

#[test]
fn small_pan_moves_only_the_cache_position() {
    let mut viewer = loaded_viewer();
    let _ = change_level(&mut viewer, 1);
    assert!(viewer.tracker.preload_possible);
    let (border, refill) = pan(&mut viewer, 10, -10);
    assert_eq!(border, Borders::Center);
    assert!(!refill);
    assert_eq!(viewer.offsetx, 11008);
    assert_eq!(viewer.offsety, 2304);
    assert_eq!(viewer.view.cache_posx, -20);
    assert_eq!(viewer.view.cache_posy, 20);
}

#[test]
fn crossing_a_soft_edge_starts_a_background_refill() {
    let mut viewer = loaded_viewer();
    let _ = change_level(&mut viewer, 1);
    // The cache is 3000 wide over a 1500 viewport: the half span is 750
    // and the soft trigger sits at 375 cache pixels.
    let (border, refill) = pan(&mut viewer, -200, 0);
    assert_eq!(border, Borders::Right);
    assert!(refill);
    assert_eq!(viewer.current_border.cache, Borders::Right);
    assert_eq!(viewer.current_border.edge, Borders::Right);
    // The global offset moved a full half span toward the edge.
    assert_eq!(viewer.offsetx, 11008 + 750);
    assert_eq!(viewer.view.cache_posx, 400);
}

#[test]
fn pan_at_the_coarsest_level_changes_nothing() {
    let mut viewer = loaded_viewer();
    let (border, refill) = pan(&mut viewer, 50, 50);
    assert_eq!(border, Borders::Center);
    assert!(!refill);
    assert_eq!(viewer.offsetx, 11008);
    assert_eq!(viewer.view.cache_posx, 0);
}

#[test]
fn level_steps_follow_the_zoom_rules() {
    assert_eq!(step_level(16, 16, true), 12);
    assert_eq!(step_level(4, 16, true), 3);
    assert_eq!(step_level(1, 16, true), 1);
    assert_eq!(step_level(1, 16, false), 2);
    assert_eq!(step_level(3, 16, false), 4);
    assert_eq!(step_level(4, 16, false), 8);
    assert_eq!(step_level(16, 16, false), 16);
}

#[test]
fn geometry_planning_is_stable_when_nothing_changed() {
    let mut viewer = loaded_viewer();
    let _ = change_level(&mut viewer, 1);
    let viewport = viewer.view.viewport_size;
    let cache = viewer.view.cache_size;
    update_zoom_props(&mut viewer);
    assert_eq!(viewer.view.viewport_size, viewport);
    assert_eq!(viewer.view.cache_size, cache);
}

#[test]
fn finds_the_parent_of_the_mpmri_subtree() {
    let r = find_parent_of_mpmri("/some/folder/mpMRI/subfolder/file.dcm");
    assert_eq!(r, Some(String::from("/some/folder")));
    let r = find_parent_of_mpmri("mpMRI/subfolder");
    assert_eq!(r, Some(String::from("")));
    let r = find_parent_of_mpmri("/some/folder/other/file.dcm");
    assert!(r.is_none());
    // A component merely containing the name does not match.
    let r = find_parent_of_mpmri("/some/mpMRIextra/file.dcm");
    assert!(r.is_none());
}

#[test]
fn replaces_the_suffix_with_the_prediction_one() {
    assert_eq!(replace_suffix_with_pred("foo.svs"), String::from("foo.pred.tiff"));
    assert_eq!(
        replace_suffix_with_pred("a.b/slide.one.tiff"),
        String::from("a.b/slide.one.pred.tiff")
    );
    assert_eq!(replace_suffix_with_pred("noext"), String::from("noext"));
}

#[test]
fn the_error_cell_stores_reads_and_resets() {
    let mut cell: Option<ErrorKind> = None;
    let r = log_or_load_thread_err(&mut cell, Some(ErrorKind::ConfigError()));
    assert!(r.is_none());
    assert!(matches!(cell, Some(ErrorKind::ConfigError())));
    let r = log_or_load_thread_err(&mut cell, None);
    assert!(matches!(r, Some(ErrorKind::ConfigError())));
    assert!(matches!(cell, Some(ErrorKind::ConfigError())));
    reset_thread_err(&mut cell);
    assert!(cell.is_none());
}

fn reconciliation_viewer() -> ZoomableImageViewer {
    let mut viewer = ZoomableImageViewer::new();
    let r = apply_slide_properties(
        &mut viewer,
        String::from("slide.tiff"),
        Size { w: 4096, h: 4096 },
        vec![1, 2, 16],
        Some(2),
    );
    assert!(r.is_ok());
    // Fix a known geometry so the reconciliation numbers are exact.
    viewer.view.cache_size = Size { w: 512, h: 512 };
    viewer.view.viewport_size = Size { w: 256, h: 256 };
    viewer.tracker.cache_size_x = 512;
    viewer.tracker.cache_size_y = 512;
    viewer.tracker.viewport_size_x = 256;
    viewer.tracker.viewport_size_y = 256;
    viewer.tracker.cache_comp_x = 2;
    viewer.tracker.cache_comp_y = 2;
    viewer
}

#[test]
fn level_change_folds_the_pan_into_the_offset_with_preload() {
    let mut viewer = reconciliation_viewer();
    viewer.tracker.preload_possible = true;
    viewer.view.cache_posx = 50;
    viewer.view.cache_posy = 50;
    slideslib::cache::update_offsets(&mut viewer, 2);
    assert_eq!(viewer.offsetx, 2148);
    assert_eq!(viewer.offsety, 2148);
    assert_eq!(viewer.view.cache_posx, 0);
    assert_eq!(viewer.view.cache_posy, 0);
    assert_eq!(viewer.tracker.current_x, 2148);
    assert_eq!(viewer.tracker.current_y, 2148);
}

#[test]
fn level_change_without_preload_inverts_and_clips_the_pan() {
    let mut viewer = reconciliation_viewer();
    viewer.tracker.preload_possible = false;
    viewer.offsetx = 4046;
    viewer.offsety = 50;
    viewer.tracker.current_x = 4046;
    viewer.tracker.current_y = 50;
    viewer.view.cache_posx = 1000;
    viewer.view.cache_posy = -1000;
    slideslib::cache::update_offsets(&mut viewer, 2);
    // The offset recenters on the image midpoint, and the inverted pan
    // is clipped to the cache half span of 128.
    assert_eq!(viewer.offsetx, 2048);
    assert_eq!(viewer.offsety, 2048);
    assert_eq!(viewer.view.cache_posx, 128);
    assert_eq!(viewer.view.cache_posy, -128);
}

#[test]
fn level_change_keeps_a_limit_border() {
    let mut viewer = reconciliation_viewer();
    viewer.current_border.cache = Borders::Bottom;
    viewer.current_border.edge = Borders::Bottom;
    slideslib::cache::update_offsets(&mut viewer, 2);
    assert_eq!(viewer.current_border.cache, Borders::Center);
    assert_eq!(viewer.current_border.edge, Borders::Center);

    let mut viewer = reconciliation_viewer();
    viewer.current_border.cache = Borders::BottomLimit;
    slideslib::cache::update_offsets(&mut viewer, 2);
    assert_eq!(viewer.current_border.cache, Borders::BottomLimit);
}

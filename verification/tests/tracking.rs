//! Tracker-level behaviour: pan updates, clipping, and the border
//! decision table.

use slideslib::tracking::{Borders, ExtentCoords, Limits, Tracker};

fn make_tracker() -> Tracker {
    Tracker {
        max_global_x: 2048,
        max_global_y: 2048,
        cache_size_x: 512,
        cache_size_y: 512,
        viewport_size_x: 256,
        viewport_size_y: 256,
        current_x: 512,
        current_y: 512,
        center_correction_x: 0,
        center_correction_y: 0,
        preload_possible: true,
        cache_comp_x: 1,
        cache_comp_y: 1,
    }
}

fn no_flags() -> ExtentCoords {
    ExtentCoords {
        x_right_reached: false,
        y_top_reached: false,
        x_left_reached: false,
        y_bottom_reached: false,
    }
}

#[test]
fn small_pan_keeps_global_offset() {
    let mut tracker = make_tracker();
    let mut gx: i64 = 512;
    let mut gy: i64 = 512;
    let mut cx: i64 = 0;
    let mut cy: i64 = 0;
    let limits = tracker.update_coords(&mut gx, &mut gy, &mut cx, &mut cy, 10, -10);
    assert_eq!(gx, 512);
    assert_eq!(gy, 512);
    assert_eq!(cx, -20);
    assert_eq!(cy, 20);
    assert!(!limits.xcache_right_trig_reached);
    assert!(!limits.xcache_left_trig_reached);
    assert!(!limits.ycache_bottom_trig_reached);
    assert!(!limits.ycache_top_trig_reached);
    assert!(!limits.border_reached);
    assert!(!limits.cache_reached);
}

#[test]
fn soft_trigger_moves_global_offset() {
    let mut tracker = make_tracker();
    let mut gx: i64 = 512;
    let mut gy: i64 = 512;
    let mut cx: i64 = 0;
    let mut cy: i64 = 0;
    let limits = tracker.update_coords(&mut gx, &mut gy, &mut cx, &mut cy, 50, -50);
    assert_eq!(gx, 384);
    assert_eq!(gy, 640);
    assert_eq!(cx, -100);
    assert_eq!(cy, 100);
    assert!(!limits.xcache_right_trig_reached);
    assert!(limits.xcache_left_trig_reached);
    assert!(limits.ycache_bottom_trig_reached);
    assert!(!limits.ycache_top_trig_reached);
    assert!(!limits.border_reached);
    assert!(limits.cache_reached);
}

#[test]
fn direction_switch_keeps_offsets_consistent() {
    let mut tracker = make_tracker();
    let mut gx: i64 = 512;
    let mut gy: i64 = 512;
    let mut cx: i64 = 0;
    let mut cy: i64 = 0;
    let _ = tracker.update_coords(&mut gx, &mut gy, &mut cx, &mut cy, -63, 63);
    let limits = tracker.update_coords(&mut gx, &mut gy, &mut cx, &mut cy, 126, -126);
    assert_eq!(gx, 384);
    assert_eq!(gy, 640);
    assert_eq!(cx, -126);
    assert_eq!(cy, 126);
    assert!(!limits.xcache_right_trig_reached);
    assert!(limits.xcache_left_trig_reached);
    assert!(limits.ycache_bottom_trig_reached);
    assert!(!limits.ycache_top_trig_reached);
    assert!(!limits.border_reached);
    assert!(limits.cache_reached);
}

#[test]
fn global_clipping_holds_at_the_image_edge() {
    let mut tracker = make_tracker();
    tracker.current_x = 512;
    tracker.current_y = 2047;
    let mut gx: i64 = 512;
    let mut gy: i64 = 2047;
    let mut cx: i64 = 0;
    let mut cy: i64 = 0;
    let _ = tracker.update_coords(&mut gx, &mut gy, &mut cx, &mut cy, 0, -63);
    assert_eq!(gx, 512);
    assert_eq!(gy, 2048);
    assert_eq!(cx, 0);
    assert_eq!(cy, 126);

    let mut tracker = make_tracker();
    tracker.current_x = 0;
    tracker.current_y = 2047;
    let mut gx: i64 = 0;
    let mut gy: i64 = 2047;
    let mut cx: i64 = 0;
    let mut cy: i64 = 0;
    let _ = tracker.update_coords(&mut gx, &mut gy, &mut cx, &mut cy, 63, 0);
    assert_eq!(gx, 0);
    assert_eq!(gy, 2047);
    assert_eq!(cx, -126);
    assert_eq!(cy, 0);
}

#[test]
fn border_reached_recenters_the_cache_position() {
    let mut tracker = make_tracker();
    let mut gx: i64 = 512;
    let mut gy: i64 = 512;
    let mut cx: i64 = 0;
    let mut cy: i64 = 0;
    let limits = tracker.update_coords(&mut gx, &mut gy, &mut cx, &mut cy, 129, -129);
    assert_eq!(gx, 384);
    assert_eq!(gy, 640);
    assert_eq!(cx, 0);
    assert_eq!(cy, 0);
    assert!(limits.border_reached);
}

#[test]
fn clip_cache_coords_clamps_to_the_half_span() {
    let tracker = make_tracker();
    let mut cx: i64 = 270;
    let mut cy: i64 = -270;
    tracker.clip_cache_coords(&mut cx, &mut cy);
    assert_eq!(cx, 128);
    assert_eq!(cy, -128);
    // Applying the clip again changes nothing.
    tracker.clip_cache_coords(&mut cx, &mut cy);
    assert_eq!(cx, 128);
    assert_eq!(cy, -128);
}

#[test]
fn clip_global_coords_clamps_into_the_image() {
    let mut tracker = make_tracker();
    tracker.max_global_x = 22016;
    tracker.max_global_y = 4608;
    let mut gx: i64 = 200000;
    let mut gy: i64 = -5;
    tracker.clip_global_coords(&mut gx, &mut gy);
    assert_eq!(gx, 22016);
    assert_eq!(gy, 0);
    let mut gx: i64 = 11008;
    let mut gy: i64 = 4608;
    tracker.clip_global_coords(&mut gx, &mut gy);
    assert_eq!(gx, 11008);
    assert_eq!(gy, 4608);
}

#[test]
fn border_table_for_topright_triggers() {
    let tracker = make_tracker();
    let mut limits = Limits {
        xcache_right_trig_reached: true,
        xcache_left_trig_reached: false,
        ycache_bottom_trig_reached: false,
        ycache_top_trig_reached: true,
        xyborder: no_flags(),
        border_reached: false,
        cache_reached: true,
    };
    assert_eq!(tracker.get_current_border(&limits), Borders::TopRight);
    limits.xyborder.y_top_reached = true;
    assert_eq!(tracker.get_current_border(&limits), Borders::Top);
    limits.xyborder.x_right_reached = true;
    assert_eq!(tracker.get_current_border(&limits), Borders::TopRightLimit);
}

#[test]
fn border_table_for_single_triggers() {
    let tracker = make_tracker();
    let mut limits = Limits {
        xcache_right_trig_reached: false,
        xcache_left_trig_reached: false,
        ycache_bottom_trig_reached: false,
        ycache_top_trig_reached: true,
        xyborder: no_flags(),
        border_reached: false,
        cache_reached: true,
    };
    assert_eq!(tracker.get_current_border(&limits), Borders::Top);
    limits.xyborder.y_top_reached = true;
    assert_eq!(tracker.get_current_border(&limits), Borders::TopLimit);
    limits.ycache_top_trig_reached = false;
    limits.xyborder.y_top_reached = false;
    assert_eq!(tracker.get_current_border(&limits), Borders::Center);
    limits.xcache_right_trig_reached = true;
    assert_eq!(tracker.get_current_border(&limits), Borders::Right);
    limits.xyborder.x_right_reached = true;
    assert_eq!(tracker.get_current_border(&limits), Borders::RightLimit);
}

#[test]
fn extent_center_flags() {
    let flags = ExtentCoords {
        x_right_reached: false,
        y_top_reached: true,
        x_left_reached: false,
        y_bottom_reached: false,
    };
    assert!(flags.x_in_center());
    assert!(!flags.y_in_center());
}

use framesense::geometry::{CaptureBounds, MonitorInfo, TotalScreenArea, compute_total_area};
use framesense::errors::CaptureError;
use framesense::overlay_pool::{OverlayGeometry, ShowAction, OverlayPool, overlay_geometry};
use framesense::capture::ScreenQuadrant;

fn mon(id: u32, x: i32, y: i32, width: u32, height: u32) -> MonitorInfo {
    MonitorInfo { id, x, y, width, height }
}

#[test]
fn total_area_of_two_side_by_side_monitors() {
    let monitors = vec![mon(0, 0, 0, 1920, 1080), mon(1, 1920, 0, 1920, 1080)];
    let area = compute_total_area(&monitors).unwrap();
    assert_eq!(
        area,
        TotalScreenArea { width: 3840, height: 1080, min_x: 0, min_y: 0, max_x: 3840, max_y: 1080 }
    );
}

#[test]
fn total_area_with_negative_origin() {
    let monitors = vec![mon(0, -1920, 0, 1920, 1080), mon(1, 0, -200, 2560, 1440)];
    let area = compute_total_area(&monitors).unwrap();
    assert_eq!(area.min_x, -1920);
    assert_eq!(area.min_y, -200);
    assert_eq!(area.max_x, 2560);
    assert_eq!(area.max_y, 1240);
    assert_eq!(area.width, 4480);
    assert_eq!(area.height, 1440);
}

#[test]
fn total_area_of_overlapping_monitors() {
    let monitors = vec![mon(0, 0, 0, 1000, 1000), mon(1, 500, 500, 1000, 1000)];
    let area = compute_total_area(&monitors).unwrap();
    assert_eq!(area.width, 1500);
    assert_eq!(area.height, 1500);
}

#[test]
fn total_area_of_no_monitors_is_no_displays() {
    let monitors: Vec<MonitorInfo> = Vec::new();
    assert_eq!(compute_total_area(&monitors), Err(CaptureError::NoDisplays));
}

#[test]
fn overlay_geometry_covers_all_monitors() {
    let monitors = vec![mon(0, -1920, 0, 1920, 1080), mon(1, 0, 0, 1920, 1080)];
    let g = overlay_geometry(&monitors);
    assert_eq!(g, OverlayGeometry { x: -1920, y: 0, width: 3840, height: 1080 });
}

#[test]
fn overlay_geometry_falls_back_without_monitors() {
    let monitors: Vec<MonitorInfo> = Vec::new();
    let g = overlay_geometry(&monitors);
    assert_eq!(g, OverlayGeometry { x: 0, y: 0, width: 1920, height: 1080 });
}

#[test]
fn overlay_pool_reuses_the_single_surface() {
    let mut pool = OverlayPool::new();
    assert!(!pool.is_overlay_active());
    assert_eq!(pool.plan_show(), ShowAction::CreateSurface);
    pool.on_surface_created(7, 1000);
    assert!(pool.is_overlay_active());
    // A second show must reuse the same handle, never create again.
    assert_eq!(pool.plan_show(), ShowAction::ReuseSurface(7));
    pool.on_surface_shown(2000);
    assert_eq!(pool.plan_show(), ShowAction::ReuseSurface(7));
    pool.on_surface_hidden();
    assert!(!pool.is_overlay_active());
    // Hiding keeps the surface: the next show still reuses it.
    assert_eq!(pool.plan_show(), ShowAction::ReuseSurface(7));
}

#[test]
fn quadrant_names() {
    assert_eq!(ScreenQuadrant::TopLeft.name(), "top-left");
    assert_eq!(ScreenQuadrant::TopRight.name(), "top-right");
    assert_eq!(ScreenQuadrant::BottomLeft.name(), "bottom-left");
    assert_eq!(ScreenQuadrant::BottomRight.name(), "bottom-right");
    assert_eq!(ScreenQuadrant::Center.name(), "center");
}

#[test]
fn quadrant_bounds_cover_expected_quarters() {
    let q = ScreenQuadrant::TopRight.bounds_for(1920, 1080);
    assert_eq!(q, CaptureBounds { x: 960, y: 0, width: 960, height: 540 });
    let c = ScreenQuadrant::Center.bounds_for(1920, 1080);
    assert_eq!(c, CaptureBounds { x: 480, y: 270, width: 960, height: 540 });
    let bl = ScreenQuadrant::BottomLeft.bounds_for(800, 600);
    assert_eq!(bl, CaptureBounds { x: 0, y: 300, width: 400, height: 300 });
}

#[test]
fn screen_infos_copy_sizes_and_mark_first_primary() {
    let monitors = vec![mon(7, 0, 0, 1920, 1080), mon(9, 1920, 0, 2560, 1440)];
    let infos = framesense::capture::screen_infos_of(&monitors);
    assert_eq!(infos.len(), 2);
    assert_eq!((infos[0].id, infos[0].width, infos[0].height), (0, 1920, 1080));
    assert_eq!((infos[1].id, infos[1].width, infos[1].height), (1, 2560, 1440));
    assert!(infos[0].is_primary);
    assert!(!infos[1].is_primary);
}

use framesense::errors::CaptureError;
use framesense::geometry::{CaptureBounds, MonitorInfo, compute_total_area};
use framesense::resolve::{resolve, resolve_single_fallback};

fn mon(id: u32, x: i32, y: i32, width: u32, height: u32) -> MonitorInfo {
    MonitorInfo { id, x, y, width, height }
}

fn rect(x: i32, y: i32, width: u32, height: u32) -> CaptureBounds {
    CaptureBounds { x, y, width, height }
}

#[test]
fn rect_on_second_monitor_resolves_locally() {
    let monitors = vec![mon(0, 0, 0, 1920, 1080), mon(1, 1920, 0, 1920, 1080)];
    let area = compute_total_area(&monitors).unwrap();
    let r = resolve(&rect(1920, 0, 100, 100), &area, &monitors).unwrap();
    assert_eq!(r.screen_index, 1);
    assert_eq!(r.local, rect(0, 0, 100, 100));
}

#[test]
fn rect_near_the_edge_is_pulled_back_to_fit() {
    let monitors = vec![mon(0, 0, 0, 800, 600)];
    let area = compute_total_area(&monitors).unwrap();
    let r = resolve(&rect(750, 550, 200, 200), &area, &monitors).unwrap();
    assert_eq!(r.screen_index, 0);
    assert_eq!(r.local, rect(600, 400, 200, 200));
}

#[test]
fn tiny_region_fails_with_region_too_small() {
    let monitors = vec![mon(0, 0, 0, 800, 600)];
    let area = compute_total_area(&monitors).unwrap();
    let r = resolve(&rect(100, 100, 5, 5), &area, &monitors);
    assert_eq!(r, Err(CaptureError::RegionTooSmall));
}

#[test]
fn rect_outside_every_monitor_fails_with_no_matching_monitor() {
    let monitors = vec![mon(0, 0, 0, 1920, 1080)];
    let area = compute_total_area(&monitors).unwrap();
    let r = resolve(&rect(5000, 5000, 100, 100), &area, &monitors);
    assert_eq!(r, Err(CaptureError::NoMatchingMonitor));
}

#[test]
fn spanning_rect_goes_to_the_first_overlapping_monitor() {
    // A selection across the seam of two monitors resolves to whichever is
    // enumerated first, not the one with the greater overlap.
    let monitors = vec![mon(0, 0, 0, 1920, 1080), mon(1, 1920, 0, 1920, 1080)];
    let area = compute_total_area(&monitors).unwrap();
    let r = resolve(&rect(1900, 100, 200, 200), &area, &monitors).unwrap();
    assert_eq!(r.screen_index, 0);
    // Clamped so the full 200x200 still fits on the first monitor.
    assert_eq!(r.local, rect(1720, 100, 200, 200));
}

#[test]
fn too_small_on_first_monitor_retries_the_next() {
    // The first overlapping monitor offers under ten usable pixels, so the
    // request moves on to the next overlapping monitor.
    let monitors = vec![mon(0, 0, 0, 8, 1080), mon(1, 8, 0, 1920, 1080)];
    let area = compute_total_area(&monitors).unwrap();
    let r = resolve(&rect(0, 0, 100, 100), &area, &monitors).unwrap();
    assert_eq!(r.screen_index, 1);
    assert_eq!(r.local, rect(0, 0, 100, 100));
}

#[test]
fn negative_virtual_origin_translates_to_absolute() {
    // The virtual desktop's origin is the top-left of the union, which here
    // lies on the left monitor at absolute -1920.
    let monitors = vec![mon(0, -1920, 0, 1920, 1080), mon(1, 0, 0, 1920, 1080)];
    let area = compute_total_area(&monitors).unwrap();
    let r = resolve(&rect(100, 50, 300, 200), &area, &monitors).unwrap();
    assert_eq!(r.screen_index, 0);
    assert_eq!(r.local, rect(100, 50, 300, 200));
    let r2 = resolve(&rect(2000, 50, 300, 200), &area, &monitors).unwrap();
    assert_eq!(r2.screen_index, 1);
    assert_eq!(r2.local, rect(80, 50, 300, 200));
}

#[test]
fn resolved_region_always_lies_within_its_monitor() {
    let monitors = vec![mon(0, 0, 0, 1366, 768), mon(1, 1366, -200, 2560, 1440)];
    let area = compute_total_area(&monitors).unwrap();
    let rects = [
        rect(0, 0, 100, 100),
        rect(1300, 700, 500, 500),
        rect(3000, 100, 4000, 4000),
        rect(-50, -50, 400, 300),
        rect(2000, 500, 64, 64),
    ];
    for b in rects {
        match resolve(&b, &area, &monitors) {
            Ok(rc) => {
                let m = &monitors[rc.screen_index];
                assert!(rc.local.x >= 0 && rc.local.y >= 0);
                assert!(rc.local.x as u32 + rc.local.width <= m.width);
                assert!(rc.local.y as u32 + rc.local.height <= m.height);
                assert!(rc.local.width >= 10 && rc.local.height >= 10);
            }
            Err(e) => {
                assert!(
                    e == CaptureError::NoMatchingMonitor || e == CaptureError::RegionTooSmall
                );
            }
        }
    }
}

#[test]
fn single_screen_fallback_clamps_like_the_spec() {
    let r = resolve_single_fallback(&rect(750, 550, 200, 200), 800, 600).unwrap();
    assert_eq!(r, rect(600, 400, 200, 200));
    let r2 = resolve_single_fallback(&rect(-100, -100, 300, 300), 800, 600).unwrap();
    assert_eq!(r2, rect(0, 0, 300, 300));
}

#[test]
fn single_screen_fallback_rejects_tiny_regions() {
    let r = resolve_single_fallback(&rect(10, 10, 5, 5), 800, 600);
    assert_eq!(r, Err(CaptureError::RegionTooSmall));
}

#[test]
fn capture_error_messages() {
    assert_eq!(CaptureError::NoDisplays.message(), "No screens available");
    assert_eq!(
        CaptureError::NoMatchingMonitor.message(),
        "No screen contains the specified coordinates"
    );
    assert_eq!(
        CaptureError::RegionTooSmall.message(),
        "Capture area too small after adjustment"
    );
    assert_eq!(CaptureError::EncodeFailure.message(), "PNG encoding failed");
    assert_eq!(CaptureError::CaptureBackendFailure.message(), "Screen capture failed");
}

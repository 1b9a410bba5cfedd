use framesense::auth::{AuthService, BackendUser, str_eq, user_from_backend};
use framesense::errors::CaptureError;
use framesense::geometry::CaptureBounds;
use framesense::state::{AppState, CaptureResult};

#[test]
fn new_service_points_at_the_production_api() {
    let service = AuthService::new();
    assert_eq!(service.api_url, "https://api.finalyze.pro");
    assert!(service.storage_path.is_none());
}

#[test]
fn storage_path_is_recorded() {
    let service = AuthService::new().with_storage_path(std::path::PathBuf::from("/tmp/sessions"));
    assert_eq!(service.storage_path, Some(std::path::PathBuf::from("/tmp/sessions")));
}

#[test]
fn free_tier_models() {
    let service = AuthService::new();
    assert_eq!(service.get_available_models("free"), vec!["GPT-3.5-turbo", "Gemini Flash"]);
}

#[test]
fn premium_tier_has_seven_models() {
    let service = AuthService::new();
    let models = service.get_available_models("premium");
    assert_eq!(models.len(), 7);
    assert!(models.contains(&"Haiku 3"));
    assert!(!models.contains(&"GPT-4o"));
}

#[test]
fn pro_tier_has_eleven_models() {
    let service = AuthService::new();
    let models = service.get_available_models("pro");
    assert_eq!(models.len(), 11);
    assert!(models.contains(&"Sonnet 3.5"));
}

#[test]
fn enterprise_tier_has_fourteen_models() {
    let service = AuthService::new();
    let models = service.get_available_models("enterprise");
    assert_eq!(models.len(), 14);
    assert!(models.contains(&"Opus 3"));
    assert!(models.contains(&"Mistral Large"));
}

#[test]
fn unknown_tier_falls_back_to_one_model() {
    let service = AuthService::new();
    assert_eq!(service.get_available_models("trial"), vec!["GPT-3.5-turbo"]);
}

#[test]
fn model_access_follows_the_tier_list() {
    let service = AuthService::new();
    assert!(service.can_use_model("free", "Gemini Flash"));
    assert!(!service.can_use_model("free", "GPT-4o"));
    assert!(service.can_use_model("pro", "GPT-4o"));
    assert!(!service.can_use_model("pro", "Opus 3"));
    assert!(service.can_use_model("enterprise", "Opus 3"));
    assert!(!service.can_use_model("made-up", "Gemini Flash"));
}

#[test]
fn string_equality_helper() {
    assert!(str_eq("abc", "abc"));
    assert!(!str_eq("abc", "abd"));
    assert!(!str_eq("abc", "abcd"));
    assert!(str_eq("", ""));
}

fn backend_user() -> BackendUser {
    BackendUser {
        id: String::from("u-1"),
        email: String::from("a@b.c"),
        name: String::from("A"),
        tier: String::from("premium"),
        subscription_status: Some(String::from("active")),
        stripe_customer_id: None,
        usage_daily: Some(3),
        usage_total: Some(40),
        created_at: Some(String::from("2024-01-01T00:00:00Z")),
        updated_at: None,
    }
}

#[test]
fn backend_user_converts_with_present_fields() {
    let u = user_from_backend(
        backend_user(),
        String::from("tok"),
        String::from("2024-06-01"),
        String::from("2024-06-01T12:00:00Z"),
    );
    assert_eq!(u.id, "u-1");
    assert_eq!(u.tier, "premium");
    assert_eq!(u.token, "tok");
    assert_eq!(u.usage.daily, 3);
    assert_eq!(u.usage.total, 40);
    assert_eq!(u.usage.last_reset, "2024-06-01");
    assert_eq!(u.created_at, "2024-01-01T00:00:00Z");
    assert_eq!(u.subscription_status, Some(String::from("active")));
    assert_eq!(u.usage_daily, Some(3));
}

#[test]
fn backend_user_converts_with_absent_fields() {
    let mut b = backend_user();
    b.usage_daily = None;
    b.usage_total = None;
    b.created_at = None;
    let u = user_from_backend(
        b,
        String::from("tok"),
        String::from("2024-06-01"),
        String::from("2024-06-01T12:00:00Z"),
    );
    assert_eq!(u.usage.daily, 0);
    assert_eq!(u.usage.total, 0);
    assert_eq!(u.created_at, "2024-06-01T12:00:00Z");
    assert_eq!(u.usage_daily, None);
}

#[test]
fn capture_result_packages_success() {
    let bounds = CaptureBounds { x: 1, y: 2, width: 30, height: 40 };
    let r = CaptureResult::from_outcome(bounds, Ok(String::from("payload")));
    assert!(r.success);
    assert_eq!(r.message, "Optimized screen capture successful!");
    assert_eq!(r.bounds, Some(bounds));
    assert_eq!(r.image_data, Some(String::from("payload")));
}

#[test]
fn capture_result_packages_failure() {
    let bounds = CaptureBounds { x: 1, y: 2, width: 30, height: 40 };
    let r = CaptureResult::from_outcome(bounds, Err(CaptureError::RegionTooSmall));
    assert!(!r.success);
    assert_eq!(r.message, "Capture area too small after adjustment");
    assert_eq!(r.bounds, None);
    assert_eq!(r.image_data, None);
}

#[test]
fn multi_screen_failure_names_the_path() {
    let bounds = CaptureBounds { x: 0, y: 0, width: 30, height: 40 };
    let r = CaptureResult::from_multi_screen_outcome(bounds, Err(CaptureError::NoDisplays));
    assert!(!r.success);
    assert_eq!(r.message, "Multi-screen capture failed: No screens available");
}

#[test]
fn app_state_records_a_capture() {
    let mut state = AppState::default();
    assert!(state.screenshot_data.is_none());
    let bounds = CaptureBounds { x: 5, y: 6, width: 70, height: 80 };
    state.save_capture(Some(String::from("img")), Some(bounds), 1234);
    assert_eq!(state.screenshot_data, Some(String::from("img")));
    assert_eq!(state.last_bounds, Some(bounds));
    assert_eq!(state.last_window_closed_time, Some(1234));
}

#[test]
fn default_usage_counters_start_at_zero() {
    let usage = framesense::auth::UserUsage::default();
    assert_eq!(usage.daily, 0);
    assert_eq!(usage.total, 0);
}

#[test]
fn app_result_carries_its_fields() {
    let r = framesense::state::AppResult { success: true, message: String::from("done") };
    assert!(r.success);
    assert_eq!(r.message, "done");
}

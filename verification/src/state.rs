//! The command boundary's result and state types: what the application
//! layer hands to its UI, and the state kept between window creations.

use vstd::prelude::*;
use vstd::string::StringExecFns;
use crate::errors::CaptureError;
use crate::geometry::CaptureBounds;

verus! {

/// A plain success/failure answer for a command.
#[derive(Clone, Debug)]
pub struct AppResult {
    pub success: bool,
    pub message: String,
}

/// What a capture command reports: on success the bounds served and the
/// encoded payload, on failure the human-readable message and no data.
#[derive(Clone, Debug)]
pub struct CaptureResult {
    pub success: bool,
    pub message: String,
    pub bounds: Option<CaptureBounds>,
    pub image_data: Option<String>,
}

impl CaptureResult {
    /// Package a capture outcome: success carries the payload and the
    /// rectangle it answers; failure carries the error's message and no
    /// image data, so the UI can surface it as-is.
    pub fn from_outcome(bounds: CaptureBounds, outcome: Result<String, CaptureError>) -> (r:
        CaptureResult)
        ensures
            outcome matches Ok(p) ==> {
                &&& r.success
                &&& r.message@ == "Optimized screen capture successful!"@
                &&& r.bounds == Some(bounds)
                &&& r.image_data == Some(p)
            },
            outcome matches Err(e) ==> {
                &&& !r.success
                &&& r.message@ == e.spec_message()
                &&& r.bounds is None
                &&& r.image_data is None
            },
    {
        match outcome {
            Ok(p) => CaptureResult {
                success: true,
                message: String::from_str("Optimized screen capture successful!"),
                bounds: Some(bounds),
                image_data: Some(p),
            },
            Err(e) => CaptureResult {
                success: false,
                message: String::from_str(e.message()),
                bounds: None,
                image_data: None,
            },
        }
    }

    /// The multi-screen variant of the same packaging: the failure message
    /// names the multi-screen path.
    pub fn from_multi_screen_outcome(
        bounds: CaptureBounds,
        outcome: Result<String, CaptureError>,
    ) -> (r: CaptureResult)
        ensures
            outcome matches Ok(p) ==> {
                &&& r.success
                &&& r.message@ == "Multi-screen optimized capture successful!"@
                &&& r.bounds == Some(bounds)
                &&& r.image_data == Some(p)
            },
            outcome matches Err(e) ==> {
                &&& !r.success
                &&& r.message@ == "Multi-screen capture failed: "@ + e.spec_message()
                &&& r.bounds is None
                &&& r.image_data is None
            },
    {
        match outcome {
            Ok(p) => CaptureResult {
                success: true,
                message: String::from_str("Multi-screen optimized capture successful!"),
                bounds: Some(bounds),
                image_data: Some(p),
            },
            Err(e) => {
                let mut message = String::from_str("Multi-screen capture failed: ");
                message.append(e.message());
                CaptureResult { success: false, message, bounds: None, image_data: None }
            },
        }
    }
}

/// State that persists between window creations: the last capture and when
/// the window was last closed.
#[derive(Clone, Debug)]
pub struct AppState {
    pub screenshot_data: Option<String>,
    pub last_bounds: Option<CaptureBounds>,
    pub last_window_closed_time: Option<u64>,
}

impl AppState {
    /// Record a finished capture.
    pub fn save_capture(&mut self, data: Option<String>, bounds: Option<CaptureBounds>, closed_at: u64)
        ensures
            final(self).screenshot_data == data,
            final(self).last_bounds == bounds,
            final(self).last_window_closed_time == Some(closed_at),
    {
        self.screenshot_data = data;
        self.last_bounds = bounds;
        self.last_window_closed_time = Some(closed_at);
    }
}

impl Default for AppState {
    /// An empty state: nothing captured, no window closed yet.
    fn default() -> (r: AppState)
        ensures
            r.screenshot_data is None,
            r.last_bounds is None,
            r.last_window_closed_time is None,
    {
        AppState { screenshot_data: None, last_bounds: None, last_window_closed_time: None }
    }
}

} // verus!

//! The failure taxonomy of the capture path. Every public operation reports a
//! structured error; none of them aborts the process.

use vstd::prelude::*;

verus! {

/// Why a capture request could not be served.
#[derive(Clone, Copy, Debug, PartialEq, Eq, Structural)]
pub enum CaptureError {
    /// The operating system reported zero monitors.
    NoDisplays,
    /// No monitor overlaps the requested absolute rectangle.
    NoMatchingMonitor,
    /// Every overlapping monitor left less than the minimum usable region
    /// after clamping.
    RegionTooSmall,
    /// The image encoding backend failed.
    EncodeFailure,
    /// The operating-system screen read failed.
    CaptureBackendFailure,
}

impl CaptureError {
    /// The human-readable description of each failure.
    pub open spec fn spec_message(self) -> Seq<char> {
        match self {
            CaptureError::NoDisplays => "No screens available"@,
            CaptureError::NoMatchingMonitor => "No screen contains the specified coordinates"@,
            CaptureError::RegionTooSmall => "Capture area too small after adjustment"@,
            CaptureError::EncodeFailure => "PNG encoding failed"@,
            CaptureError::CaptureBackendFailure => "Screen capture failed"@,
        }
    }

    /// A human-readable description, surfaced as-is at the command boundary.
    pub fn message(&self) -> (s: &'static str)
        ensures
            s@ == self.spec_message(),
    {
        match self {
            CaptureError::NoDisplays => "No screens available",
            CaptureError::NoMatchingMonitor => "No screen contains the specified coordinates",
            CaptureError::RegionTooSmall => "Capture area too small after adjustment",
            CaptureError::EncodeFailure => "PNG encoding failed",
            CaptureError::CaptureBackendFailure => "Screen capture failed",
        }
    }
}

} // verus!

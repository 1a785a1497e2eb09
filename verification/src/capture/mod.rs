//! Capture-side data and the compute steps around capture: what the
//! backends enumerate, how audio selections become capture streams, and
//! how a captured frame becomes the 1 fps PNG preview.
//!
//! The platform backends themselves (WGC/WASAPI, Portal/PipeWire) run
//! outside the library.

pub mod linux;
pub mod preview;
pub mod stub;
pub mod windows;

use vstd::prelude::*;
use crate::text::push_str;

verus! {

/// Why a capture backend could not be used.
#[derive(Debug, Clone, PartialEq, Eq)]
pub enum CaptureError {
    /// This build has no capture backend for the host.
    NotAvailable,
    /// The backend failed; the text says why.
    Failed(String),
}

impl CaptureError {
    /// The message shown to the user.
    pub fn message(&self) -> (r: String)
        ensures
            match self {
                CaptureError::NotAvailable => r@
                    == "capture backend requires Windows or Linux (this build is a stub)"@,
                CaptureError::Failed(m) => r@ == "capture failed: "@ + m@,
            },
    {
        match self {
            CaptureError::NotAvailable => String::from_str(
                "capture backend requires Windows or Linux (this build is a stub)",
            ),
            CaptureError::Failed(m) => {
                let mut s = String::from_str("capture failed: ");
                push_str(&mut s, m.as_str());
                s
            },
        }
    }
}

/// A capturable display.
#[derive(Debug, Clone, PartialEq, Eq)]
pub struct Display {
    pub id: String,
    pub label: String,
    pub w: u32,
    pub h: u32,
}

/// A capturable window.
#[derive(Debug, Clone, PartialEq, Eq)]
pub struct WindowInfo {
    pub id: String,
    pub title: String,
    pub app: String,
}

/// An audio endpoint.
#[derive(Debug, Clone, PartialEq, Eq)]
pub struct DeviceInfo {
    pub id: String,
    pub label: String,
    pub is_default: bool,
}

/// An application that plays audio.
#[derive(Debug, Clone, PartialEq, Eq)]
pub struct AppAudio {
    pub id: String,
    pub label: String,
}

/// The audio endpoints and applications a backend found.
#[derive(Debug, Clone, PartialEq, Eq)]
pub struct AudioDevices {
    pub inputs: Vec<DeviceInfo>,
    pub outputs: Vec<DeviceInfo>,
    pub apps: Vec<AppAudio>,
}

} // verus!

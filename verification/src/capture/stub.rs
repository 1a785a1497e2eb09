//! Capture backend of builds without the platform media stack: every
//! enumeration fails with [`CaptureError::NotAvailable`].

use vstd::prelude::*;
use crate::capture::{AudioDevices, CaptureError, Display, WindowInfo};

verus! {

/// Displays: not available in this build.
pub fn list_displays() -> (r: Result<Vec<Display>, CaptureError>)
    ensures
        r == Err::<Vec<Display>, CaptureError>(CaptureError::NotAvailable),
{
    Err(CaptureError::NotAvailable)
}

/// Windows: not available in this build.
pub fn list_windows() -> (r: Result<Vec<WindowInfo>, CaptureError>)
    ensures
        r == Err::<Vec<WindowInfo>, CaptureError>(CaptureError::NotAvailable),
{
    Err(CaptureError::NotAvailable)
}

/// Audio devices: not available in this build.
pub fn list_audio_devices() -> (r: Result<AudioDevices, CaptureError>)
    ensures
        r == Err::<AudioDevices, CaptureError>(CaptureError::NotAvailable),
{
    Err(CaptureError::NotAvailable)
}

} // verus!

//! GStreamer stream planning, encoder discovery and supervision policy.
//! Everything here is pure data: the running pipeline is materialized
//! outside the library.
//!
//! Capture stays in Rust (screen + audio capture, mixer, frame pacer);
//! GStreamer owns only encode (H.264) + mux (FLV) + RTMP send. Feeds enter
//! via `appsrc`: video `BGRA` (profile-normalized) and audio
//! `F32LE 48kHz stereo`.

pub mod pipeline;
pub mod probe;
pub mod supervisor;

pub use pipeline::{build_launch_string, build_plan, EncoderSpec, StreamPlan};
pub use probe::{pick_best, probe_encoders, probe_with, AUTO_CANDIDATES, MANUAL_ENCODERS};
pub use supervisor::{retry_backoff_ms, MAX_RETRIES};

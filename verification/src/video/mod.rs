//! Video frame normalization: every captured BGRA frame is scaled and
//! letterboxed to the profile size before it reaches `appsrc`.

pub mod sink;

pub use sink::{bgra_to_rgba, scale_bgra, scale_bgra_into, scale_bgra_strided};

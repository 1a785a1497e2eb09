//! The user-facing side of the streamer: language, steps, selections and
//! the hints shown before a stream starts.

pub mod i18n;
pub mod state;

pub use i18n::Locale;
pub use state::{AudioMode, Tab};

//! Verified core of ezStreamer: stream planning, encoder selection,
//! frame normalization, capture-source selection, and the supervision
//! decisions of the streamer.

pub mod audio;
pub mod backend;
pub mod capture;
pub mod config;
pub mod error;
pub mod gst;
pub mod logging;
pub mod text;
pub mod ui;
pub mod urls;
pub mod video;

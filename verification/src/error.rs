//! Errors reported by the planners before any pipeline is built.

use vstd::prelude::*;

verus! {

/// Why a stream could not be planned or started.
#[derive(Debug, Clone, PartialEq, Eq)]
pub enum Error {
    /// A profile exceeds the TopazChat bitrate limits (video 2000 kbps,
    /// audio 320 kbps).
    BitrateOver { v_kbps: u32, a_kbps: u32 },
    /// The stream key is empty, has the wrong length or bad characters.
    StreamKey(String),
    /// Profile geometry or the ingest URL is unusable.
    Config(String),
    /// The requested encoder id is unknown.
    EncoderNotAvailable(String),
    /// A capture or pump thread could not be started.
    Capture(String),
}

/// The payload text of an error, or the empty sequence for
/// `BitrateOver`.
pub open spec fn error_text(e: Error) -> Seq<char> {
    match e {
        Error::BitrateOver { .. } => Seq::empty(),
        Error::StreamKey(m) => m@,
        Error::Config(m) => m@,
        Error::EncoderNotAvailable(m) => m@,
        Error::Capture(m) => m@,
    }
}

} // verus!

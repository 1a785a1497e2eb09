//! File log naming, line format and rotation rule: one
//! `logs/ezStreamer-YYYY-MM-DD.log` per day, rotated to `.old` above
//! 10 MB. Clock and file access stay outside the library.

use vstd::prelude::*;
use crate::text::push_str;

verus! {

/// Size above which a log file is rotated (10 MB).
pub const MAX_LOG_BYTES: u64 = 10485760;

/// The log file name for a day (`date` as `YYYY-MM-DD`).
pub fn log_file_name(date: &str) -> (r: String)
    ensures
        r@ == "ezStreamer-"@ + date@ + ".log"@,
{
    let mut s = String::from_str("ezStreamer-");
    push_str(&mut s, date);
    push_str(&mut s, ".log");
    s
}

/// The name a rotated log file is renamed to.
pub fn rotated_name(file_name: &str) -> (r: String)
    ensures
        r@ == file_name@ + ".old"@,
{
    let mut s = String::new();
    push_str(&mut s, file_name);
    push_str(&mut s, ".old");
    s
}

/// True when a log file of `len` bytes must be rotated before appending.
pub fn needs_rotation(len: u64) -> (r: bool)
    ensures
        r == (len > MAX_LOG_BYTES),
{
    len > MAX_LOG_BYTES
}

/// One log line: `[timestamp] [level] message` and a line break.
pub fn log_line(timestamp: &str, level: &str, msg: &str) -> (r: String)
    ensures
        r@ == "["@ + timestamp@ + "] ["@ + level@ + "] "@ + msg@ + "\n"@,
{
    let mut s = String::from_str("[");
    push_str(&mut s, timestamp);
    push_str(&mut s, "] [");
    push_str(&mut s, level);
    push_str(&mut s, "] ");
    push_str(&mut s, msg);
    push_str(&mut s, "\n");
    s
}

} // verus!

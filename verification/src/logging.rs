//! The launcher's plain-text log line format: `[timestamp] message`.
use vstd::prelude::*;

use crate::text::{push_str, string_from_chars};

verus! {

/// `strftime`-style pattern of the local time that prefixes each log line.
pub const TIMESTAMP_FORMAT: &'static str = "%Y-%m-%d %H:%M:%S";

/// One log line: the timestamp in brackets, a space, the message and a
/// newline.
pub fn log_line(timestamp: &str, message: &str) -> (line: String)
    ensures
        line@ == "["@ + timestamp@ + "] "@ + message@ + "\n"@,
{
    let mut out: Vec<char> = Vec::new();
    push_str(&mut out, "[");
    push_str(&mut out, timestamp);
    push_str(&mut out, "] ");
    push_str(&mut out, message);
    push_str(&mut out, "\n");
    string_from_chars(out.as_slice())
}

} // verus!

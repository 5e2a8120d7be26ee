//! From a read on the report stream to a snapshot.
//!
//! The window manager writes one status line per change of state. Whoever
//! owns the stream reads a line into a buffer and hands the buffer over,
//! together with what the read returned.

use crate::model::{ParseError, WmRoot};
use crate::parser::{is_parse_of, parse_line};
use vstd::prelude::*;

verus! {

/// What a finished read means for the sequence of snapshots.
///
/// A read of no bytes is the end of the stream: `None`. Any other read
/// filled `buffer` with the next line, line end included, and the line is
/// parsed as it stands.
pub fn next_snapshot(bytes_read: usize, buffer: &str) -> (item: Option<Result<WmRoot, ParseError>>)
    ensures
        bytes_read == 0 ==> item is None,
        bytes_read > 0 ==> (item matches Some(res) && is_parse_of(res, buffer@)),
{
    if bytes_read > 0 {
        Some(parse_line(buffer))
    } else {
        None
    }
}

} // verus!

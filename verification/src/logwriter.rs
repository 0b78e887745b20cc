//! The writer that turns buffered output lines into log records: its data
//! (target and level) and the one piece of line handling worth stating — a
//! single trailing newline is trimmed before a line is logged.

use vstd::prelude::*;
use vstd::slice::slice_subrange;
use vstd::slice::slice_to_vec;

verus! {

/// The severity a forwarded line is logged at.
#[derive(Debug, Clone, Copy, PartialEq, Eq, Structural)]
pub enum LogLevel {
    Error,
    Warn,
    Info,
    Debug,
    Trace,
}

/// A writer that forwards each line it receives to a logger, under a fixed
/// target and level. The forwarding itself is I/O and lives outside this
/// library; the writer here carries the data and the line trimming.
#[derive(Debug)]
pub struct LoggerWriter {
    pub target: String,
    pub level: LogLevel,
}

impl LoggerWriter {
    /// A writer logging under `target` at `level`.
    pub fn new(target: String, level: LogLevel) -> (r: LoggerWriter)
        ensures
            r.target@ == target@,
            r.level == level,
    {
        LoggerWriter { target, level }
    }
}

/// What a buffered line is logged as: the line with one trailing newline
/// trimmed, if it carries one.
pub open spec fn spec_trim_newline(line: Seq<u8>) -> Seq<u8> {
    if line.len() > 0 && line.last() == 10 {
        line.drop_last()
    } else {
        line
    }
}

/// Trims a single trailing newline byte.
pub fn trim_newline(line: &[u8]) -> (r: Vec<u8>)
    ensures
        r@ == spec_trim_newline(line@),
{
    // the newline byte `\n`
    if line.len() > 0 && *vstd::slice::slice_index_get(line, line.len() - 1) == 10u8 {
        let trimmed = slice_subrange(line, 0, line.len() - 1);
        proof {
            assert(trimmed@ =~= line@.drop_last());
        }
        slice_to_vec(trimmed)
    } else {
        slice_to_vec(line)
    }
}

} // verus!

//! Processor time of a process.

use vstd::prelude::*;

verus! {

/// The text shown for the processor time of every process.
pub open spec fn elapsed() -> Seq<char> {
    "00:00:00"@
}

/// The processor time that the process `file` has used, as hours, minutes
/// and seconds. No accounting is done yet: every process is reported with
/// the same fixed time, whatever `file` names.
pub fn get_time(file: &str) -> (time: &str)
    ensures
        time@ == elapsed(),
{
    "00:00:00"
}

} // verus!

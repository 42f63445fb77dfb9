//! The file copy: what to do next after each read and each write, so that
//! the target receives every byte of the source, in order.
//!
//! The copy moves one buffer at a time. The program around this library
//! reads and writes; the decisions between the calls are made here.

use vstd::prelude::*;

verus! {

/// How a read from the source ended.
#[derive(Clone, Copy, Debug, PartialEq, Eq, Structural)]
pub enum ReadOutcome {
    /// So many bytes were put into the buffer; none at the end of the source.
    Filled(usize),
    /// The call was interrupted before it read anything.
    Interrupted,
    /// The call failed for another reason.
    Failed,
}

/// How a write to the target ended.
#[derive(Clone, Copy, Debug, PartialEq, Eq, Structural)]
pub enum WriteOutcome {
    /// So many bytes of those offered were taken.
    Took(usize),
    /// The call was interrupted before it wrote anything.
    Interrupted,
    /// The call failed for another reason.
    Failed,
}

/// Why a copy was given up.
#[derive(Clone, Copy, Debug, PartialEq, Eq, Structural)]
pub enum CopyError {
    /// Reading the source failed.
    ReadFailed,
    /// Writing the target failed.
    WriteFailed,
    /// The target took fewer bytes than the buffer held.
    ShortWrite { wrote: usize, had: usize },
}

/// What the copy does next.
#[derive(Clone, Copy, Debug, PartialEq, Eq, Structural)]
pub enum CopyStep {
    /// Fill the buffer from the source.
    Read,
    /// Offer the first so many bytes of the buffer to the target.
    Write(usize),
    /// Every byte has been copied.
    Done,
    /// Give up.
    Fail(CopyError),
}

/// The step that follows a read. The end of the source ends the copy, an
/// interrupted read is made again, and bytes that were read are written
/// before anything else is read.
pub open spec fn step_after_read(outcome: ReadOutcome) -> CopyStep {
    match outcome {
        ReadOutcome::Filled(n) => if n == 0 {
            CopyStep::Done
        } else {
            CopyStep::Write(n)
        },
        ReadOutcome::Interrupted => CopyStep::Read,
        ReadOutcome::Failed => CopyStep::Fail(CopyError::ReadFailed),
    }
}

/// The step that follows a write of `had` bytes. The copy reads on only
/// when the target took all of them; an interrupted write is made again
/// with the same bytes; a target that took fewer ends the copy.
pub open spec fn step_after_write(had: usize, outcome: WriteOutcome) -> CopyStep {
    match outcome {
        WriteOutcome::Took(m) => if m < had {
            CopyStep::Fail(CopyError::ShortWrite { wrote: m, had })
        } else {
            CopyStep::Read
        },
        WriteOutcome::Interrupted => CopyStep::Write(had),
        WriteOutcome::Failed => CopyStep::Fail(CopyError::WriteFailed),
    }
}

/// Decides what follows a read from the source.
pub fn after_read(outcome: ReadOutcome) -> (step: CopyStep)
    ensures
        step == step_after_read(outcome),
{
    match outcome {
        ReadOutcome::Filled(n) => if n == 0 {
            CopyStep::Done
        } else {
            CopyStep::Write(n)
        },
        ReadOutcome::Interrupted => CopyStep::Read,
        ReadOutcome::Failed => CopyStep::Fail(CopyError::ReadFailed),
    }
}

/// Decides what follows a write of `had` bytes to the target.
pub fn after_write(had: usize, outcome: WriteOutcome) -> (step: CopyStep)
    ensures
        step == step_after_write(had, outcome),
{
    match outcome {
        WriteOutcome::Took(m) => if m < had {
            CopyStep::Fail(CopyError::ShortWrite { wrote: m, had })
        } else {
            CopyStep::Read
        },
        WriteOutcome::Interrupted => CopyStep::Write(had),
        WriteOutcome::Failed => CopyStep::Fail(CopyError::WriteFailed),
    }
}

/// What came back from the call that a step asked for.
pub enum CopyEvent {
    /// The answer to a read.
    Read(ReadOutcome),
    /// The answer to a write.
    Write(WriteOutcome),
}

/// A copy under way: the step it is at, and how many bytes it has read
/// from the source and written to the target so far.
pub struct CopyProgress {
    pub step: CopyStep,
    pub read: nat,
    pub written: nat,
}

/// How a copy begins: nothing read, nothing written, about to read.
pub open spec fn copy_start() -> CopyProgress {
    CopyProgress { step: CopyStep::Read, read: 0, written: 0 }
}

/// The copy after one more event. An event that does not answer the step
/// the copy is at leaves it as it is.
pub open spec fn copy_advance(at: CopyProgress, event: CopyEvent) -> CopyProgress {
    match (at.step, event) {
        (CopyStep::Read, CopyEvent::Read(outcome)) => CopyProgress {
            step: step_after_read(outcome),
            read: at.read + match outcome {
                ReadOutcome::Filled(n) => n as nat,
                _ => 0,
            },
            written: at.written,
        },
        (CopyStep::Write(had), CopyEvent::Write(outcome)) => CopyProgress {
            step: step_after_write(had, outcome),
            read: at.read,
            written: at.written + match outcome {
                WriteOutcome::Took(m) => if m < had {
                    m as nat
                } else {
                    had as nat
                },
                _ => 0,
            },
        },
        _ => at,
    }
}

/// The copy after the events `events`, from its beginning.
pub open spec fn copy_run(events: Seq<CopyEvent>) -> CopyProgress
    decreases events.len(),
{
    if events.len() == 0 {
        copy_start()
    } else {
        copy_advance(copy_run(events.drop_last()), events.last())
    }
}

/// Nothing is lost on the way: whenever a copy is about to read or is
/// done, the target has received as many bytes as the source has given,
/// and while it is about to write, the bytes still owed are those in the
/// buffer.
pub proof fn lemma_copy_loses_nothing(events: Seq<CopyEvent>)
    ensures
        match copy_run(events).step {
            CopyStep::Read | CopyStep::Done => copy_run(events).written == copy_run(events).read,
            CopyStep::Write(had) => had > 0 && copy_run(events).read == copy_run(events).written
                + had,
            CopyStep::Fail(_) => copy_run(events).written <= copy_run(events).read,
        },
    decreases events.len(),
{
    if events.len() > 0 {
        lemma_copy_loses_nothing(events.drop_last());
    }
}

} // verus!

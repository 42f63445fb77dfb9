//! Why a process listing cannot be produced at all.

use vstd::prelude::*;

verus! {

/// A failure that ends the whole listing. A single process whose records
/// cannot be read is no failure: that process is left out.
#[derive(Clone, Copy, Debug, PartialEq, Eq, Structural)]
pub enum PsError {
    /// The status record of the calling process could not be read.
    SelfStatusUnreadable,
    /// The status record of the calling process names no owner.
    NoOwnerIdentity,
    /// The expression that recognises process entries did not compile.
    PatternRejected,
    /// The process registry could not be listed.
    RegistryUnreadable,
}

impl PsError {
    /// The text that describes this failure.
    pub open spec fn description(self) -> Seq<char> {
        match self {
            PsError::SelfStatusUnreadable => "cannot read the caller's status record"@,
            PsError::NoOwnerIdentity => "the caller's status record names no owner"@,
            PsError::PatternRejected => "the process entry pattern was rejected"@,
            PsError::RegistryUnreadable => "cannot list the process registry"@,
        }
    }

    /// A one-line description for the user.
    pub fn message(&self) -> (text: &'static str)
        ensures
            text@ == self.description(),
    {
        match self {
            PsError::SelfStatusUnreadable => "cannot read the caller's status record",
            PsError::NoOwnerIdentity => "the caller's status record names no owner",
            PsError::PatternRejected => "the process entry pattern was rejected",
            PsError::RegistryUnreadable => "cannot list the process registry",
        }
    }
}

} // verus!

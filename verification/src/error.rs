use vstd::prelude::*;

verus! {

/// The categories of input/output failure that the library distinguishes; the ones
/// it never tells apart are all `Other`.
#[derive(Debug, Clone, Copy, PartialEq, Eq, Structural)]
pub enum IoErrorKind {
    NotFound,
    PermissionDenied,
    AlreadyExists,
    InvalidInput,
    InvalidData,
    NotConnected,
    Other,
}

/// A failure with its category and a human readable message.
#[derive(Debug, PartialEq)]
pub struct IoFailure {
    pub kind: IoErrorKind,
    pub message: String,
}

impl IoFailure {
    /// The failure as plain values.
    pub open spec fn model(&self) -> (IoErrorKind, Seq<char>) {
        (self.kind, self.message@)
    }

    pub fn new(kind: IoErrorKind, message: &str) -> (r: IoFailure)
        ensures
            r.kind == kind,
            r.message@ == message@,
    {
        IoFailure { kind, message: message.to_owned() }
    }

    pub fn duplicate(&self) -> (r: IoFailure)
        ensures
            r.kind == self.kind,
            r.message@ == self.message@,
    {
        IoFailure { kind: self.kind, message: self.message.clone() }
    }
}

} // verus!

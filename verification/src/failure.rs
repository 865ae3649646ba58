//! What can go wrong, and the words for it.

use vstd::prelude::*;

verus! {

/// The ways in which a step can fail.
#[derive(Clone, Copy, Debug, PartialEq, Eq, Structural)]
pub enum FailureKind {
    /// Listing the packages of the device ended in failure.
    ListingFailed,
    /// Asking for the files of a package ended in failure.
    PathQueryFailed,
    /// The bridge wrote something that is not UTF-8; the detail says where.
    UnreadableOutput,
    /// The device named no file for a package.
    PathNotFound,
    /// A device path has no file name.
    NoFileName,
    /// There is no backup directory to install from.
    RootMissing,
    /// Every name that a copy could get is taken.
    NoFreeName,
    /// What was to be written lies in the base of a differential backup.
    InsideBase,
    /// The host answered a request with a reply of another kind.
    Unexpected,
    /// The host could not do what it was asked to.
    Host,
}

/// A failure: its kind, and what the bridge or the host said about it.
#[derive(Clone, Debug, PartialEq, Eq)]
pub struct Failure {
    pub kind: FailureKind,
    pub detail: String,
}

/// The words that come before the detail of a failure of kind `kind`.
pub open spec fn lead_of(kind: FailureKind) -> Seq<char> {
    match kind {
        FailureKind::ListingFailed => "adb command failed: "@,
        FailureKind::PathQueryFailed => "Failed to get package path: "@,
        FailureKind::UnreadableOutput => ""@,
        FailureKind::PathNotFound => "Package path not found"@,
        FailureKind::NoFileName => "Failed to get APK file name."@,
        FailureKind::RootMissing => "Backup directory not found. Please run with 'backup' first."@,
        FailureKind::NoFreeName => "No free name for the APK file."@,
        FailureKind::InsideBase => "The base backup must stay as it is."@,
        FailureKind::Unexpected => "The host gave a reply that was not asked for."@,
        FailureKind::Host => ""@,
    }
}

/// The message of a failure: the words of its kind, then its detail.
pub open spec fn message_of(kind: FailureKind, detail: Seq<char>) -> Seq<char> {
    lead_of(kind) + detail
}

impl DeepView for Failure {
    type V = (FailureKind, Seq<char>);

    open spec fn deep_view(&self) -> (FailureKind, Seq<char>) {
        (self.kind, self.detail@)
    }
}

impl View for Failure {
    type V = (FailureKind, Seq<char>);

    open spec fn view(&self) -> (FailureKind, Seq<char>) {
        (self.kind, self.detail@)
    }
}

impl Failure {
    /// A failure of kind `kind` with nothing more to say.
    pub fn of(kind: FailureKind) -> (r: Failure)
        ensures
            r@ == (kind, Seq::<char>::empty()),
    {
        Failure { kind, detail: String::new() }
    }

    /// A failure of kind `kind` with the detail `detail`.
    pub fn with(kind: FailureKind, detail: String) -> (r: Failure)
        ensures
            r@ == (kind, detail@),
    {
        Failure { kind, detail }
    }

    /// The message of this failure.
    pub fn message(&self) -> (r: String)
        ensures
            r@ == message_of(self.kind, self.detail@),
    {
        let lead = match self.kind {
            FailureKind::ListingFailed => "adb command failed: ",
            FailureKind::PathQueryFailed => "Failed to get package path: ",
            FailureKind::UnreadableOutput => "",
            FailureKind::PathNotFound => "Package path not found",
            FailureKind::NoFileName => "Failed to get APK file name.",
            FailureKind::RootMissing => {
                "Backup directory not found. Please run with 'backup' first."
            },
            FailureKind::NoFreeName => "No free name for the APK file.",
            FailureKind::InsideBase => "The base backup must stay as it is.",
            FailureKind::Unexpected => "The host gave a reply that was not asked for.",
            FailureKind::Host => "",
        };
        let mut r = lead.to_string();
        r.append(self.detail.as_str());
        r
    }
}

} // verus!

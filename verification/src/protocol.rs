//! What passes between the machine and its host: requests one way, replies
//! the other.

use crate::bridge::{Output, OutputView};
use crate::failure::{Failure, FailureKind};
use crate::notice::{Notice, NoticeView};
use vstd::prelude::*;

verus! {

/// What the host is asked to do.
#[derive(Clone, Debug, PartialEq, Eq)]
pub enum Request {
    /// Run the bridge with these arguments and gather what it leaves behind.
    Run { arguments: Vec<String> },
    /// Tell whether there is something at this path.
    Exists { path: String },
    /// Make the directory at this path, with its parents if `parents` is set.
    MakeDir { path: String, parents: bool },
    /// Name the entries of the directory at this path, only those that are
    /// directories if `folders` is set.
    List { path: String, folders: bool },
    /// Show the prompt and read a line from the user.
    Ask { prompt: String },
    /// End the run, in failure if one is given.
    Stop { failure: Option<Failure> },
}

/// A `Request` as a value of specifications.
pub enum RequestView {
    Run { arguments: Seq<Seq<char>> },
    Exists { path: Seq<char> },
    MakeDir { path: Seq<char>, parents: bool },
    List { path: Seq<char>, folders: bool },
    Ask { prompt: Seq<char> },
    Stop { failure: Option<(FailureKind, Seq<char>)> },
}

impl View for Request {
    type V = RequestView;

    open spec fn view(&self) -> RequestView {
        match self {
            Request::Run { arguments } => RequestView::Run { arguments: arguments.deep_view() },
            Request::Exists { path } => RequestView::Exists { path: path@ },
            Request::MakeDir { path, parents } => RequestView::MakeDir {
                path: path@,
                parents: *parents,
            },
            Request::List { path, folders } => RequestView::List { path: path@, folders: *folders },
            Request::Ask { prompt } => RequestView::Ask { prompt: prompt@ },
            Request::Stop { failure } => RequestView::Stop { failure: failure.deep_view() },
        }
    }
}

/// What the host has to say about the request it was given.
#[derive(Clone, Debug, PartialEq, Eq)]
pub enum Reply {
    /// The bridge ran, and left this behind.
    Ran { output: Output },
    /// Whether there is something at the path.
    Found { present: bool },
    /// The directory was made.
    Done,
    /// The names of the entries.
    Names { names: Vec<String> },
    /// The line that the user gave.
    Line { text: String },
    /// The host could not do it, for this reason.
    Failed { reason: String },
}

/// A `Reply` as a value of specifications.
pub enum ReplyView {
    Ran { output: OutputView },
    Found { present: bool },
    Done,
    Names { names: Seq<Seq<char>> },
    Line { text: Seq<char> },
    Failed { reason: Seq<char> },
}

impl View for Reply {
    type V = ReplyView;

    open spec fn view(&self) -> ReplyView {
        match self {
            Reply::Ran { output } => ReplyView::Ran { output: output@ },
            Reply::Found { present } => ReplyView::Found { present: *present },
            Reply::Done => ReplyView::Done,
            Reply::Names { names } => ReplyView::Names { names: names.deep_view() },
            Reply::Line { text } => ReplyView::Line { text: text@ },
            Reply::Failed { reason } => ReplyView::Failed { reason: reason@ },
        }
    }
}

/// What the machine decides: the notices for the user, in their order, and
/// then the request for the host.
#[derive(Clone, Debug, PartialEq, Eq)]
pub struct Step {
    pub notices: Vec<Notice>,
    pub request: Request,
}

/// A `Step` as a value of specifications.
pub struct StepView {
    pub notices: Seq<NoticeView>,
    pub request: RequestView,
}

impl View for Step {
    type V = StepView;

    open spec fn view(&self) -> StepView {
        StepView { notices: self.notices.deep_view(), request: self.request@ }
    }
}

} // verus!

//! An issue, its mathematical view, and the requested changes to one.
use vstd::prelude::*;
use crate::status::Status;
use crate::priority::Priority;
use crate::labels::texts;

verus! {

/// An instant in UTC: whole seconds since the Unix epoch and the nanoseconds
/// past that second.
#[derive(Clone, Copy, Debug, PartialEq, Eq, Structural)]
pub struct Timestamp {
    pub secs: i64,
    pub nanos: u32,
}

/// One tracked issue.
#[derive(Debug)]
pub struct Issue {
    /// Sequential id, assigned on creation and never reused.
    pub id: u32,
    /// Non-empty, trimmed title.
    pub title: String,
    pub description: Option<String>,
    pub status: Status,
    pub priority: Priority,
    /// Normalised labels (trimmed, lower-case), without duplicates.
    pub labels: Vec<String>,
    pub created_at: Timestamp,
    /// Absent until the issue is first changed after its creation.
    pub updated_at: Option<Timestamp>,
}

/// An issue as a mathematical value.
pub struct IssueView {
    pub id: u32,
    pub title: Seq<char>,
    pub description: Option<Seq<char>>,
    pub status: Status,
    pub priority: Priority,
    pub labels: Seq<Seq<char>>,
    pub created_at: Timestamp,
    pub updated_at: Option<Timestamp>,
}

/// The text of an optional string.
pub open spec fn opt_text(o: Option<String>) -> Option<Seq<char>> {
    match o {
        Some(s) => Some(s@),
        None => None,
    }
}

impl View for Issue {
    type V = IssueView;

    open spec fn view(&self) -> IssueView {
        IssueView {
            id: self.id,
            title: self.title@,
            description: opt_text(self.description),
            status: self.status,
            priority: self.priority,
            labels: texts(self.labels@),
            created_at: self.created_at,
            updated_at: self.updated_at,
        }
    }
}

/// How an update changes an issue's labels. The four ways to change them
/// exclude each other.
pub enum LabelEdit {
    /// Leave the labels as they are.
    Keep,
    /// Replace all labels.
    Replace(Vec<String>),
    /// Append labels that are not there yet.
    Add(Vec<String>),
    /// Remove the given labels; absent ones are ignored.
    Remove(Vec<String>),
    /// Remove every label.
    Clear,
}

/// A label change as a mathematical value.
pub enum LabelEditView {
    Keep,
    Replace(Seq<Seq<char>>),
    Add(Seq<Seq<char>>),
    Remove(Seq<Seq<char>>),
    Clear,
}

impl View for LabelEdit {
    type V = LabelEditView;

    open spec fn view(&self) -> LabelEditView {
        match self {
            LabelEdit::Keep => LabelEditView::Keep,
            LabelEdit::Replace(v) => LabelEditView::Replace(texts(v@)),
            LabelEdit::Add(v) => LabelEditView::Add(texts(v@)),
            LabelEdit::Remove(v) => LabelEditView::Remove(texts(v@)),
            LabelEdit::Clear => LabelEditView::Clear,
        }
    }
}

/// The fields an `update` command sets; `None` leaves a field as it is.
pub struct IssueUpdate {
    pub title: Option<String>,
    /// An empty description clears it.
    pub description: Option<String>,
    pub status: Option<Status>,
    pub priority: Option<Priority>,
    pub labels: LabelEdit,
}

/// An update request as a mathematical value.
pub struct IssueUpdateView {
    pub title: Option<Seq<char>>,
    pub description: Option<Seq<char>>,
    pub status: Option<Status>,
    pub priority: Option<Priority>,
    pub labels: LabelEditView,
}

impl View for IssueUpdate {
    type V = IssueUpdateView;

    open spec fn view(&self) -> IssueUpdateView {
        IssueUpdateView {
            title: opt_text(self.title),
            description: opt_text(self.description),
            status: self.status,
            priority: self.priority,
            labels: self.labels@,
        }
    }
}

impl IssueUpdateView {
    /// The request changes nothing.
    pub open spec fn is_empty(self) -> bool {
        &&& self.title is None
        &&& self.description is None
        &&& self.status is None
        &&& self.priority is None
        &&& self.labels is Keep
    }
}

} // verus!

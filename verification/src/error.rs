//! The ways a tracker command can be refused, and the message shown for each.
use vstd::prelude::*;
use crate::status::{Status, status_name, next_statuses};
use crate::text::{decimal, decimal_text, joined, join, owned};

verus! {

/// Why a command was refused.
#[derive(Clone, Copy, Debug, PartialEq, Eq, Structural)]
pub enum TrackerError {
    /// A title is empty once surrounding whitespace is trimmed.
    EmptyTitle,
    /// A label is empty once trimmed.
    EmptyLabel,
    /// An update names no field to change.
    NothingToUpdate,
    /// No issue has this id.
    NotFound(u32),
    /// The status flow does not allow this move.
    InvalidTransition { from: Status, to: Status },
    /// Only a closed issue can be reopened.
    NotClosed { id: u32, status: Status },
    /// The id counter has reached its largest value.
    IdsExhausted,
    /// No `.tracker` directory was found.
    NotInitialized,
    /// A `.tracker` directory is already present.
    AlreadyInitialized,
    /// The issues file holds neither the current nor the legacy format.
    Corrupt,
    /// Neither `$EDITOR` nor `$VISUAL` names an editor.
    NoEditor,
}

/// The names of the statuses that `from` may move to, comma-separated.
pub open spec fn allowed_names(from: Status) -> Seq<char> {
    joined(next_statuses(from).map_values(|s: Status| status_name(s)), ", "@)
}

/// The message shown for an error.
pub open spec fn error_message(e: TrackerError) -> Seq<char> {
    match e {
        TrackerError::EmptyTitle => "title cannot be empty"@,
        TrackerError::EmptyLabel => "label cannot be empty"@,
        TrackerError::NothingToUpdate => "at least one option required (--title, --description, --status, --priority, --label, --add-label, --remove-label, --clear-labels)"@,
        TrackerError::NotFound(id) => "no issue with id #"@ + decimal(id as nat),
        TrackerError::InvalidTransition { from, to } => "cannot move "@ + status_name(from)
            + " -> "@ + status_name(to) + " (allowed from "@ + status_name(from) + ": "@
            + allowed_names(from) + ")"@,
        TrackerError::NotClosed { id, status } => "only closed issues can be reopened (#"@
            + decimal(id as nat) + " is "@ + status_name(status) + ")"@,
        TrackerError::IdsExhausted => "no more issue ids are available"@,
        TrackerError::NotInitialized => "no tracker found in this directory or any parent \u{2014} run `tracker init` first"@,
        TrackerError::AlreadyInitialized => "tracker already initialized in this directory"@,
        TrackerError::Corrupt => "issues file is corrupt \u{2014} the JSON is invalid or has an unexpected structure"@,
        TrackerError::NoEditor => "no editor found \u{2014} set $EDITOR or $VISUAL"@,
    }
}

/// The names of the statuses that `from` may move to, comma-separated.
fn allowed_names_text(from: Status) -> (r: String)
    ensures
        r@ == allowed_names(from),
{
    let next = from.allowed_next();
    let mut names: Vec<String> = Vec::new();
    let mut i: usize = 0;
    while i < next.len()
        invariant
            next@ == next_statuses(from),
            0 <= i <= next.len(),
            names@.len() == i,
            forall|j: int| 0 <= j < i ==> #[trigger] names@[j]@ == status_name(next@[j]),
        decreases next.len() - i,
    {
        names.push(owned(next[i].as_str()));
        i = i + 1;
    }
    let r = join(&names, ", ");
    assert(names@.map_values(|s: String| s@) =~= next_statuses(from).map_values(
        |s: Status| status_name(s),
    ));
    r
}

impl TrackerError {
    /// The message shown for this error.
    pub fn message(&self) -> (r: String)
        ensures
            r@ == error_message(*self),
    {
        match self {
            TrackerError::EmptyTitle => owned("title cannot be empty"),
            TrackerError::EmptyLabel => owned("label cannot be empty"),
            TrackerError::NothingToUpdate => owned(
                "at least one option required (--title, --description, --status, --priority, --label, --add-label, --remove-label, --clear-labels)",
            ),
            TrackerError::NotFound(id) => {
                let mut r = owned("no issue with id #");
                r.append(decimal_text(*id).as_str());
                r
            },
            TrackerError::InvalidTransition { from, to } => {
                let mut r = owned("cannot move ");
                r.append(from.as_str());
                r.append(" -> ");
                r.append(to.as_str());
                r.append(" (allowed from ");
                r.append(from.as_str());
                r.append(": ");
                r.append(allowed_names_text(*from).as_str());
                r.append(")");
                r
            },
            TrackerError::NotClosed { id, status } => {
                let mut r = owned("only closed issues can be reopened (#");
                r.append(decimal_text(*id).as_str());
                r.append(" is ");
                r.append(status.as_str());
                r.append(")");
                r
            },
            TrackerError::IdsExhausted => owned("no more issue ids are available"),
            TrackerError::NotInitialized => owned(
                "no tracker found in this directory or any parent \u{2014} run `tracker init` first",
            ),
            TrackerError::AlreadyInitialized => owned("tracker already initialized in this directory"),
            TrackerError::Corrupt => owned(
                "issues file is corrupt \u{2014} the JSON is invalid or has an unexpected structure",
            ),
            TrackerError::NoEditor => owned("no editor found \u{2014} set $EDITOR or $VISUAL"),
        }
    }
}

} // verus!

//! The issue store: the id counter and the issues, and the operations that
//! the tracker's commands perform on it.
use vstd::prelude::*;
use crate::error::TrackerError;
use crate::issue::{Issue, IssueView, IssueUpdate, IssueUpdateView, LabelEdit, LabelEditView, Timestamp, opt_text};
use crate::labels::{
    texts, normalized_all, all_nonempty, dedup, without, normalize_labels, merge_labels,
    remove_labels,
};
use crate::priority::Priority;
use crate::status::{Status, transition_allowed};
use crate::text::{trimmed, trim_text, owned};

verus! {

/// The contents of the issues file.
#[derive(Debug)]
pub struct Store {
    /// The id the next created issue gets; it only increases.
    pub next_id: u32,
    pub issues: Vec<Issue>,
}

/// A store as a mathematical value.
pub struct StoreView {
    pub next_id: u32,
    pub issues: Seq<IssueView>,
}

impl View for Store {
    type V = StoreView;

    open spec fn view(&self) -> StoreView {
        StoreView { next_id: self.next_id, issues: self.issues@.map_values(|i: Issue| i@) }
    }
}

/// Some issue has id `id`.
pub open spec fn has_id(issues: Seq<IssueView>, id: u32) -> bool {
    exists|i: int| 0 <= i < issues.len() && (#[trigger] issues[i]).id == id
}

/// `i` is the first position of an issue with id `id`.
pub open spec fn is_position(issues: Seq<IssueView>, id: u32, i: int) -> bool {
    &&& 0 <= i < issues.len()
    &&& issues[i].id == id
    &&& forall|j: int| 0 <= j < i ==> (#[trigger] issues[j]).id != id
}

/// The first position of an issue with id `id` (meaningful when there is one).
pub open spec fn position_of(issues: Seq<IssueView>, id: u32) -> int {
    choose|i: int| is_position(issues, id, i)
}

/// A description as given on the command line: the text as it is, or none
/// when it is empty (`""` clears a description).
pub open spec fn description_value(raw: Seq<char>) -> Option<Seq<char>> {
    if raw.len() == 0 {
        None
    } else {
        Some(raw)
    }
}

/// A description written in the editor: the buffer trimmed, or none when
/// that is empty.
pub open spec fn edited_description(buffer: Seq<char>) -> Option<Seq<char>> {
    if trimmed(buffer).len() == 0 {
        None
    } else {
        Some(trimmed(buffer))
    }
}

/// The labels that a label change leaves on an issue that had `old`.
pub open spec fn edited_labels(old: Seq<Seq<char>>, edit: LabelEditView) -> Seq<Seq<char>> {
    match edit {
        LabelEditView::Keep => old,
        LabelEditView::Replace(l) => dedup(normalized_all(l)),
        LabelEditView::Add(l) => dedup(old + dedup(normalized_all(l))),
        LabelEditView::Remove(l) => without(old, dedup(normalized_all(l))),
        LabelEditView::Clear => Seq::empty(),
    }
}

/// The labels named by a label change are all non-empty once trimmed.
pub open spec fn edit_labels_ok(edit: LabelEditView) -> bool {
    match edit {
        LabelEditView::Replace(l) => all_nonempty(l),
        LabelEditView::Add(l) => all_nonempty(l),
        LabelEditView::Remove(l) => all_nonempty(l),
        _ => true,
    }
}

/// An issue after an accepted update at time `now`.
pub open spec fn updated_issue(old: IssueView, u: IssueUpdateView, now: Timestamp) -> IssueView {
    IssueView {
        id: old.id,
        title: match u.title {
            Some(t) => trimmed(t),
            None => old.title,
        },
        description: match u.description {
            Some(d) => description_value(d),
            None => old.description,
        },
        status: match u.status {
            Some(s) => s,
            None => old.status,
        },
        priority: match u.priority {
            Some(p) => p,
            None => old.priority,
        },
        labels: edited_labels(old.labels, u.labels),
        created_at: old.created_at,
        updated_at: Some(now),
    }
}

/// An issue with a new status, changed at `now`.
pub open spec fn with_status(old: IssueView, s: Status, now: Timestamp) -> IssueView {
    IssueView { status: s, updated_at: Some(now), ..old }
}

impl StoreView {
    /// Ids are below the counter and no two issues share one.
    pub open spec fn wf(self) -> bool {
        &&& forall|i: int| 0 <= i < self.issues.len() ==> (#[trigger] self.issues[i]).id < self.next_id
        &&& forall|i: int, j: int|
            0 <= i < j < self.issues.len() ==> (#[trigger] self.issues[i]).id != (#[trigger] self.issues[j]).id
    }

    /// The ids of the issues present.
    pub open spec fn ids(self) -> Set<u32> {
        Set::new(|id: u32| has_id(self.issues, id))
    }

    /// The new store and the new issue's id after `create`, or why it is refused.
    pub open spec fn create(
        self,
        title: Seq<char>,
        description: Option<Seq<char>>,
        priority: Priority,
        labels: Seq<Seq<char>>,
        now: Timestamp,
    ) -> Result<(StoreView, u32), TrackerError> {
        if trimmed(title).len() == 0 {
            Err(TrackerError::EmptyTitle)
        } else if !all_nonempty(labels) {
            Err(TrackerError::EmptyLabel)
        } else if self.next_id == u32::MAX {
            Err(TrackerError::IdsExhausted)
        } else {
            let issue = IssueView {
                id: self.next_id,
                title: trimmed(title),
                description: match description {
                    Some(d) => description_value(d),
                    None => None,
                },
                status: Status::Open,
                priority,
                labels: dedup(normalized_all(labels)),
                created_at: now,
                updated_at: None,
            };
            Ok(
                (
                    StoreView { next_id: (self.next_id + 1) as u32, issues: self.issues.push(issue) },
                    self.next_id,
                ),
            )
        }
    }

    /// The store after `update`, or why it is refused.
    pub open spec fn update(self, id: u32, u: IssueUpdateView, now: Timestamp) -> Result<
        StoreView,
        TrackerError,
    > {
        if u.is_empty() {
            Err(TrackerError::NothingToUpdate)
        } else if u.title matches Some(t) && trimmed(t).len() == 0 {
            Err(TrackerError::EmptyTitle)
        } else if !edit_labels_ok(u.labels) {
            Err(TrackerError::EmptyLabel)
        } else if !has_id(self.issues, id) {
            Err(TrackerError::NotFound(id))
        } else {
            let i = position_of(self.issues, id);
            let old = self.issues[i];
            if u.status matches Some(s) && !transition_allowed(old.status, s) {
                Err(TrackerError::InvalidTransition { from: old.status, to: u.status.unwrap() })
            } else {
                Ok(
                    StoreView {
                        next_id: self.next_id,
                        issues: self.issues.update(i, updated_issue(old, u, now)),
                    },
                )
            }
        }
    }

    /// The store after `close`, or why it is refused. Closing works from any
    /// status; a closed issue stays as it is.
    pub open spec fn close(self, id: u32, now: Timestamp) -> Result<StoreView, TrackerError> {
        if !has_id(self.issues, id) {
            Err(TrackerError::NotFound(id))
        } else {
            let i = position_of(self.issues, id);
            if self.issues[i].status == Status::Closed {
                Ok(self)
            } else {
                Ok(
                    StoreView {
                        next_id: self.next_id,
                        issues: self.issues.update(
                            i,
                            with_status(self.issues[i], Status::Closed, now),
                        ),
                    },
                )
            }
        }
    }

    /// The store after `reopen`, or why it is refused.
    pub open spec fn reopen(self, id: u32, now: Timestamp) -> Result<StoreView, TrackerError> {
        if !has_id(self.issues, id) {
            Err(TrackerError::NotFound(id))
        } else {
            let i = position_of(self.issues, id);
            if self.issues[i].status != Status::Closed {
                Err(TrackerError::NotClosed { id, status: self.issues[i].status })
            } else {
                Ok(
                    StoreView {
                        next_id: self.next_id,
                        issues: self.issues.update(i, with_status(self.issues[i], Status::Open, now)),
                    },
                )
            }
        }
    }

    /// The store after the description of issue `id` is set to `text`.
    pub open spec fn describe(self, id: u32, text: Seq<char>, now: Timestamp) -> Result<
        StoreView,
        TrackerError,
    > {
        if !has_id(self.issues, id) {
            Err(TrackerError::NotFound(id))
        } else {
            let i = position_of(self.issues, id);
            let old = self.issues[i];
            Ok(
                StoreView {
                    next_id: self.next_id,
                    issues: self.issues.update(
                        i,
                        IssueView { description: edited_description(text), updated_at: Some(now), ..old },
                    ),
                },
            )
        }
    }

    /// The store and the removed issue after `delete`, or why it is refused.
    pub open spec fn delete(self, id: u32) -> Result<(StoreView, IssueView), TrackerError> {
        if !has_id(self.issues, id) {
            Err(TrackerError::NotFound(id))
        } else {
            let i = position_of(self.issues, id);
            Ok(
                (
                    StoreView { next_id: self.next_id, issues: self.issues.remove(i) },
                    self.issues[i],
                ),
            )
        }
    }
}

/// When some issue has id `id`, `position_of` is its first position.
pub proof fn lemma_position_of(issues: Seq<IssueView>, id: u32)
    requires
        has_id(issues, id),
    ensures
        is_position(issues, id, position_of(issues, id)),
    decreases issues.len(),
{
    let p = issues.drop_last();
    if has_id(p, id) {
        lemma_position_of(p, id);
        let k = position_of(p, id);
        assert forall|j: int| 0 <= j < k implies (#[trigger] issues[j]).id != id by {
            assert(p[j] == issues[j]);
        }
        assert(p[k] == issues[k]);
        assert(is_position(issues, id, k));
    } else {
        let n = issues.len() - 1;
        assert forall|j: int| 0 <= j < n implies (#[trigger] issues[j]).id != id by {
            assert(p[j] == issues[j]);
        }
        assert(is_position(issues, id, n));
    }
}

/// There is at most one first position.
pub proof fn lemma_position_unique(issues: Seq<IssueView>, id: u32, i: int)
    requires
        is_position(issues, id, i),
    ensures
        position_of(issues, id) == i,
        has_id(issues, id),
{
    let k = position_of(issues, id);
    assert(is_position(issues, id, k));
    if k < i {
        assert(issues[k].id != id);
    }
    if i < k {
        assert(issues[i].id != id);
    }
}

impl Store {
    /// An empty store whose first issue gets id 1.
    pub fn new() -> (s: Store)
        ensures
            s@ == (StoreView { next_id: 1, issues: Seq::empty() }),
    {
        let s = Store { next_id: 1, issues: Vec::new() };
        assert(s@.issues =~= Seq::<IssueView>::empty());
        s
    }

    /// The first position of the issue with id `id`.
    pub fn position(&self, id: u32) -> (r: Option<usize>)
        ensures
            match r {
                Some(i) => is_position(self@.issues, id, i as int) && position_of(self@.issues, id)
                    == i,
                None => !has_id(self@.issues, id),
            },
    {
        let mut i: usize = 0;
        while i < self.issues.len()
            invariant
                0 <= i <= self.issues.len(),
                forall|j: int| 0 <= j < i ==> (#[trigger] self@.issues[j]).id != id,
            decreases self.issues.len() - i,
        {
            if self.issues[i].id == id {
                proof {
                    lemma_position_unique(self@.issues, id, i as int);
                }
                return Some(i);
            }
            i = i + 1;
        }
        None
    }

    /// The issue with id `id`.
    pub fn get(&self, id: u32) -> (r: Option<&Issue>)
        ensures
            match r {
                Some(issue) => has_id(self@.issues, id) && issue@ == self@.issues[position_of(
                    self@.issues,
                    id,
                )],
                None => !has_id(self@.issues, id),
            },
    {
        match self.position(id) {
            Some(i) => Some(&self.issues[i]),
            None => None,
        }
    }
}

/// The description stored for a text given on the command line.
pub fn description_from(raw: String) -> (r: Option<String>)
    ensures
        opt_text(r) == description_value(raw@),
{
    if raw.as_str().is_empty() {
        None
    } else {
        Some(raw)
    }
}

/// The description stored for an edited buffer.
pub fn edited_description_from(buffer: &str) -> (r: Option<String>)
    ensures
        opt_text(r) == edited_description(buffer@),
{
    let t = trim_text(buffer);
    if t.is_empty() {
        None
    } else {
        Some(owned(t))
    }
}

/// The labels named by a label change, normalised; refused if one is empty.
fn normalize_edit(edit: &LabelEdit) -> (r: Result<Option<Vec<String>>, TrackerError>)
    ensures
        match r {
            Ok(Some(v)) => edit_labels_ok(edit@) && match edit@ {
                LabelEditView::Replace(l) => texts(v@) == dedup(normalized_all(l)),
                LabelEditView::Add(l) => texts(v@) == dedup(normalized_all(l)),
                LabelEditView::Remove(l) => texts(v@) == dedup(normalized_all(l)),
                _ => false,
            },
            Ok(None) => edit_labels_ok(edit@) && (edit@ is Keep || edit@ is Clear),
            Err(e) => e == TrackerError::EmptyLabel && !edit_labels_ok(edit@),
        },
{
    match edit {
        LabelEdit::Replace(l) => match normalize_labels(l) {
            Ok(v) => Ok(Some(v)),
            Err(e) => Err(e),
        },
        LabelEdit::Add(l) => match normalize_labels(l) {
            Ok(v) => Ok(Some(v)),
            Err(e) => Err(e),
        },
        LabelEdit::Remove(l) => match normalize_labels(l) {
            Ok(v) => Ok(Some(v)),
            Err(e) => Err(e),
        },
        LabelEdit::Keep => Ok(None),
        LabelEdit::Clear => Ok(None),
    }
}

impl Store {
    /// Creates an open issue with the next id; the counter moves past it.
    /// The title is trimmed and must not be empty; labels are normalised and
    /// de-duplicated; the description is kept as given, an empty one dropped.
    pub fn create(
        &mut self,
        title: &str,
        description: Option<String>,
        priority: Priority,
        labels: &Vec<String>,
        now: Timestamp,
    ) -> (r: Result<u32, TrackerError>)
        ensures
            match old(self)@.create(title@, opt_text(description), priority, texts(labels@), now) {
                Ok((s, id)) => r == Ok::<u32, TrackerError>(id) && final(self)@ == s,
                Err(e) => r == Err::<u32, TrackerError>(e) && final(self)@ == old(self)@,
            },
    {
        let t = trim_text(title);
        if t.is_empty() {
            return Err(TrackerError::EmptyTitle);
        }
        let labels = match normalize_labels(labels) {
            Ok(l) => l,
            Err(e) => return Err(e),
        };
        if self.next_id == u32::MAX {
            return Err(TrackerError::IdsExhausted);
        }
        let id = self.next_id;
        let description = match description {
            Some(d) => description_from(d),
            None => None,
        };
        let issue = Issue {
            id,
            title: owned(t),
            description,
            status: Status::Open,
            priority,
            labels,
            created_at: now,
            updated_at: None,
        };
        let ghost v = issue@;
        self.issues.push(issue);
        self.next_id = id + 1;
        assert(self@.issues =~= old(self)@.issues.push(v));
        Ok(id)
    }

    /// Changes the fields that `u` sets on issue `id`. A status change must be
    /// an allowed move; a refused request changes nothing.
    pub fn update(&mut self, id: u32, u: IssueUpdate, now: Timestamp) -> (r: Result<(), TrackerError>)
        ensures
            match old(self)@.update(id, u@, now) {
                Ok(s) => r == Ok::<(), TrackerError>(()) && final(self)@ == s,
                Err(e) => r == Err::<(), TrackerError>(e) && final(self)@ == old(self)@,
            },
    {
        let ghost uv = u@;
        let keep_labels = match &u.labels {
            LabelEdit::Keep => true,
            _ => false,
        };
        if u.title.is_none() && u.description.is_none() && u.status.is_none()
            && u.priority.is_none() && keep_labels {
            return Err(TrackerError::NothingToUpdate);
        }
        let new_title = match &u.title {
            Some(t) => {
                let tt = trim_text(t.as_str());
                if tt.is_empty() {
                    return Err(TrackerError::EmptyTitle);
                }
                Some(owned(tt))
            },
            None => None,
        };
        let norm = match normalize_edit(&u.labels) {
            Ok(n) => n,
            Err(e) => return Err(e),
        };
        let i = match self.position(id) {
            Some(i) => i,
            None => return Err(TrackerError::NotFound(id)),
        };
        let old_status = self.issues[i].status;
        if let Some(s) = u.status {
            if !old_status.can_transition_to(&s) {
                return Err(TrackerError::InvalidTransition { from: old_status, to: s });
            }
        }
        let ghost old_issue = self@.issues[i as int];
        let mut issue = self.issues.remove(i);
        assert(issue@ == old_issue);
        if let Some(t) = new_title {
            issue.title = t;
        }
        if let Some(d) = u.description {
            issue.description = description_from(d);
        }
        if let Some(s) = u.status {
            issue.status = s;
        }
        if let Some(p) = u.priority {
            issue.priority = p;
        }
        match u.labels {
            LabelEdit::Keep => {},
            LabelEdit::Clear => {
                issue.labels = Vec::new();
                assert(texts(issue.labels@) =~= Seq::<Seq<char>>::empty());
            },
            LabelEdit::Replace(_) => {
                if let Some(n) = norm {
                    issue.labels = n;
                }
            },
            LabelEdit::Add(_) => {
                if let Some(n) = norm {
                    issue.labels = merge_labels(&issue.labels, &n);
                }
            },
            LabelEdit::Remove(_) => {
                if let Some(n) = norm {
                    issue.labels = remove_labels(&issue.labels, &n);
                }
            },
        }
        issue.updated_at = Some(now);
        let ghost nv = issue@;
        assert(nv == updated_issue(old_issue, uv, now));
        self.issues.insert(i, issue);
        assert(self@.issues =~= old(self)@.issues.update(i as int, nv));
        Ok(())
    }

    /// Sets the status of issue `id` to `to` at `now`; `i` is its position.
    fn set_status(&mut self, i: usize, to: Status, now: Timestamp)
        requires
            i < old(self).issues.len(),
        ensures
            final(self)@ == (StoreView {
                next_id: old(self)@.next_id,
                issues: old(self)@.issues.update(i as int, with_status(old(self)@.issues[i as int], to, now)),
            }),
    {
        let mut issue = self.issues.remove(i);
        issue.status = to;
        issue.updated_at = Some(now);
        let ghost nv = issue@;
        self.issues.insert(i, issue);
        assert(self@.issues =~= old(self)@.issues.update(i as int, nv));
    }

    /// Retires issue `id`: any status moves to closed; a closed issue is left
    /// as it is.
    pub fn close(&mut self, id: u32, now: Timestamp) -> (r: Result<(), TrackerError>)
        ensures
            match old(self)@.close(id, now) {
                Ok(s) => r == Ok::<(), TrackerError>(()) && final(self)@ == s,
                Err(e) => r == Err::<(), TrackerError>(e) && final(self)@ == old(self)@,
            },
    {
        let i = match self.position(id) {
            Some(i) => i,
            None => return Err(TrackerError::NotFound(id)),
        };
        if self.issues[i].status == Status::Closed {
            return Ok(());
        }
        self.set_status(i, Status::Closed, now);
        Ok(())
    }

    /// Brings a closed issue back to open.
    pub fn reopen(&mut self, id: u32, now: Timestamp) -> (r: Result<(), TrackerError>)
        ensures
            match old(self)@.reopen(id, now) {
                Ok(s) => r == Ok::<(), TrackerError>(()) && final(self)@ == s,
                Err(e) => r == Err::<(), TrackerError>(e) && final(self)@ == old(self)@,
            },
    {
        let i = match self.position(id) {
            Some(i) => i,
            None => return Err(TrackerError::NotFound(id)),
        };
        let status = self.issues[i].status;
        if status != Status::Closed {
            return Err(TrackerError::NotClosed { id, status });
        }
        self.set_status(i, Status::Open, now);
        Ok(())
    }

    /// Sets the description of issue `id` from an edited buffer (trimmed; a
    /// blank buffer clears it).
    pub fn describe(&mut self, id: u32, text: &str, now: Timestamp) -> (r: Result<(), TrackerError>)
        ensures
            match old(self)@.describe(id, text@, now) {
                Ok(s) => r == Ok::<(), TrackerError>(()) && final(self)@ == s,
                Err(e) => r == Err::<(), TrackerError>(e) && final(self)@ == old(self)@,
            },
    {
        let i = match self.position(id) {
            Some(i) => i,
            None => return Err(TrackerError::NotFound(id)),
        };
        let mut issue = self.issues.remove(i);
        issue.description = edited_description_from(text);
        issue.updated_at = Some(now);
        let ghost nv = issue@;
        self.issues.insert(i, issue);
        assert(self@.issues =~= old(self)@.issues.update(i as int, nv));
        Ok(())
    }

    /// Removes issue `id` permanently and hands it back; the id counter is
    /// left alone, so the id is not given out again.
    pub fn delete(&mut self, id: u32) -> (r: Result<Issue, TrackerError>)
        ensures
            match old(self)@.delete(id) {
                Ok((s, gone)) => r matches Ok(issue) && issue@ == gone && final(self)@ == s,
                Err(e) => r matches Err(x) && x == e && final(self)@ == old(self)@,
            },
    {
        let i = match self.position(id) {
            Some(i) => i,
            None => return Err(TrackerError::NotFound(id)),
        };
        let issue = self.issues.remove(i);
        assert(self@.issues =~= old(self)@.issues.remove(i as int));
        Ok(issue)
    }
}

} // verus!

//! Properties of the store that span its operations.
use vstd::prelude::*;
use crate::issue::{IssueView, IssueUpdateView, Timestamp};
use crate::labels::{dedup, normalized, normalized_all, lemma_dedup_distinct, lemma_without_labels, lemma_dedup_same_labels};
use crate::query::shown;
use crate::priority::Priority;
use crate::status::{Status, flow_allows, lemma_flow};
use crate::error::TrackerError;
use crate::store::{
    StoreView, has_id, is_position, position_of, lemma_position_of, lemma_position_unique,
    description_value, with_status, edited_labels,
};
use crate::issue::LabelEditView;
use crate::text::trimmed;

verus! {

/// One command applied to the store, as a mathematical value.
pub enum StoreOp {
    Create {
        title: Seq<char>,
        description: Option<Seq<char>>,
        priority: Priority,
        labels: Seq<Seq<char>>,
        now: Timestamp,
    },
    Update { id: u32, change: IssueUpdateView, now: Timestamp },
    Close { id: u32, now: Timestamp },
    Reopen { id: u32, now: Timestamp },
    Describe { id: u32, text: Seq<char>, now: Timestamp },
    Delete { id: u32 },
}

/// The store after `op`; a refused command leaves it as it was.
pub open spec fn step(s: StoreView, op: StoreOp) -> StoreView {
    match op {
        StoreOp::Create { title, description, priority, labels, now } => match s.create(
            title,
            description,
            priority,
            labels,
            now,
        ) {
            Ok((t, _)) => t,
            Err(_) => s,
        },
        StoreOp::Update { id, change, now } => match s.update(id, change, now) {
            Ok(t) => t,
            Err(_) => s,
        },
        StoreOp::Close { id, now } => match s.close(id, now) {
            Ok(t) => t,
            Err(_) => s,
        },
        StoreOp::Reopen { id, now } => match s.reopen(id, now) {
            Ok(t) => t,
            Err(_) => s,
        },
        StoreOp::Describe { id, text, now } => match s.describe(id, text, now) {
            Ok(t) => t,
            Err(_) => s,
        },
        StoreOp::Delete { id } => match s.delete(id) {
            Ok((t, _)) => t,
            Err(_) => s,
        },
    }
}

/// The store after the commands `ops`, in order.
pub open spec fn run(s: StoreView, ops: Seq<StoreOp>) -> StoreView
    decreases ops.len(),
{
    if ops.len() == 0 {
        s
    } else {
        step(run(s, ops.drop_last()), ops.last())
    }
}

/// Replacing the issue at `i` by one with the same id keeps the set of ids
/// and well-formedness.
proof fn lemma_replace_keeps_ids(s: StoreView, i: int, x: IssueView)
    requires
        0 <= i < s.issues.len(),
        x.id == s.issues[i].id,
    ensures
        forall|id: u32| has_id(s.issues.update(i, x), id) <==> has_id(s.issues, id),
        s.wf() ==> (StoreView { next_id: s.next_id, issues: s.issues.update(i, x) }).wf(),
{
    let t = s.issues.update(i, x);
    assert forall|id: u32| has_id(t, id) <==> has_id(s.issues, id) by {
        if has_id(t, id) {
            let k = choose|k: int| 0 <= k < t.len() && (#[trigger] t[k]).id == id;
            assert(s.issues[k].id == id);
        }
        if has_id(s.issues, id) {
            let k = choose|k: int| 0 <= k < s.issues.len() && (#[trigger] s.issues[k]).id == id;
            assert(t[k].id == id);
        }
    }
}

/// One command keeps the store well-formed, never lowers the id counter,
/// and brings in no id but the counter's old value.
pub proof fn lemma_step(s: StoreView, op: StoreOp)
    requires
        s.wf(),
    ensures
        step(s, op).wf(),
        step(s, op).next_id >= s.next_id,
        forall|id: u32| #[trigger] has_id(step(s, op).issues, id) ==> has_id(s.issues, id) || id == s.next_id,
{
    match op {
        StoreOp::Create { title, description, priority, labels, now } => {
            if let Ok((t, nid)) = s.create(title, description, priority, labels, now) {
                let n = s.issues.len();
                assert forall|id: u32| #[trigger] has_id(t.issues, id) implies has_id(s.issues, id) || id == s.next_id by {
                    let k = choose|k: int| 0 <= k < t.issues.len() && (#[trigger] t.issues[k]).id == id;
                    if k < n {
                        assert(s.issues[k].id == id);
                    }
                }
                assert forall|i: int, j: int| 0 <= i < j < t.issues.len() implies
                    (#[trigger] t.issues[i]).id != (#[trigger] t.issues[j]).id by {
                    if j == n {
                        assert(s.issues[i].id < s.next_id);
                    } else {
                        assert(s.issues[i].id != s.issues[j].id);
                    }
                }
                assert forall|i: int| 0 <= i < t.issues.len() implies (#[trigger] t.issues[i]).id < t.next_id by {
                    if i < n {
                        assert(s.issues[i].id < s.next_id);
                    }
                }
            }
        },
        StoreOp::Update { id, change, now } => {
            if let Ok(t) = s.update(id, change, now) {
                lemma_position_of(s.issues, id);
                let i = position_of(s.issues, id);
                lemma_replace_keeps_ids(s, i, t.issues[i]);
                assert(t.issues == s.issues.update(i, t.issues[i]));
            }
        },
        StoreOp::Close { id, now } => {
            if let Ok(t) = s.close(id, now) {
                lemma_position_of(s.issues, id);
                let i = position_of(s.issues, id);
                lemma_replace_keeps_ids(s, i, t.issues[i]);
                assert(t.issues == s.issues.update(i, t.issues[i]));
            }
        },
        StoreOp::Reopen { id, now } => {
            if let Ok(t) = s.reopen(id, now) {
                lemma_position_of(s.issues, id);
                let i = position_of(s.issues, id);
                lemma_replace_keeps_ids(s, i, t.issues[i]);
                assert(t.issues == s.issues.update(i, t.issues[i]));
            }
        },
        StoreOp::Describe { id, text, now } => {
            if let Ok(t) = s.describe(id, text, now) {
                lemma_position_of(s.issues, id);
                let i = position_of(s.issues, id);
                lemma_replace_keeps_ids(s, i, t.issues[i]);
                assert(t.issues == s.issues.update(i, t.issues[i]));
            }
        },
        StoreOp::Delete { id } => {
            if let Ok((t, _)) = s.delete(id) {
                lemma_position_of(s.issues, id);
                let i = position_of(s.issues, id);
                assert forall|id2: u32| #[trigger] has_id(t.issues, id2) implies has_id(s.issues, id2) by {
                    let k = choose|k: int| 0 <= k < t.issues.len() && (#[trigger] t.issues[k]).id == id2;
                    if k < i {
                        assert(s.issues[k].id == id2);
                    } else {
                        assert(s.issues[k + 1].id == id2);
                    }
                }
                assert forall|a: int, b: int| 0 <= a < b < t.issues.len() implies
                    (#[trigger] t.issues[a]).id != (#[trigger] t.issues[b]).id by {
                    let a2 = if a < i { a } else { a + 1 };
                    let b2 = if b < i { b } else { b + 1 };
                    assert(t.issues[a] == s.issues[a2]);
                    assert(t.issues[b] == s.issues[b2]);
                }
                assert forall|a: int| 0 <= a < t.issues.len() implies (#[trigger] t.issues[a]).id < t.next_id by {
                    let a2 = if a < i { a } else { a + 1 };
                    assert(t.issues[a] == s.issues[a2]);
                }
            }
        },
    }
}

/// Ids are never reused. Along any sequence of commands on a well-formed
/// store, the store stays well-formed and its id counter never goes down, and
/// an id below the counter that no issue holds (a deleted one, say) never
/// comes back.
pub proof fn lemma_ids_never_reused(s: StoreView, ops: Seq<StoreOp>)
    requires
        s.wf(),
    ensures
        run(s, ops).wf(),
        run(s, ops).next_id >= s.next_id,
        forall|id: u32|
            id < s.next_id && !has_id(s.issues, id) ==> !#[trigger] has_id(run(s, ops).issues, id),
    decreases ops.len(),
{
    if ops.len() > 0 {
        let p = ops.drop_last();
        lemma_ids_never_reused(s, p);
        lemma_step(run(s, p), ops.last());
    }
}

/// Reading after a write: the issue that `create` makes gets the counter's
/// id, is appended after the issues already there (which stay as they
/// were), and is found under that id: open, with the trimmed title, the
/// description as given (an empty one dropped), the given priority and
/// exactly the named labels, normalised and without duplicates. The counter
/// moves one past the new id.
pub proof fn lemma_create_then_get(
    s: StoreView,
    title: Seq<char>,
    description: Option<Seq<char>>,
    priority: Priority,
    labels: Seq<Seq<char>>,
    now: Timestamp,
)
    requires
        s.wf(),
        s.create(title, description, priority, labels, now) is Ok,
    ensures
        ({
            let (t, id) = s.create(title, description, priority, labels, now).unwrap();
            let found = t.issues[position_of(t.issues, id)];
            &&& has_id(t.issues, id)
            &&& found.id == id
            &&& found.title == trimmed(title)
            &&& found.description == match description {
                Some(d) => description_value(d),
                None => None,
            }
            &&& found.status == Status::Open
            &&& found.priority == priority
            &&& found.labels == dedup(normalized_all(labels))
            &&& found.labels.no_duplicates()
            &&& found.created_at == now
            &&& found.updated_at is None
            &&& !has_id(s.issues, id)
            &&& id == s.next_id
            &&& t.next_id == s.next_id + 1
            &&& t.issues.len() == s.issues.len() + 1
            &&& position_of(t.issues, id) == s.issues.len()
            &&& forall|j: int| 0 <= j < s.issues.len() ==> t.issues[j] == s.issues[j]
            &&& found.description == match description {
                Some(d) => if d.len() == 0 {
                    None
                } else {
                    Some(d)
                },
                None => None,
            }
            &&& forall|x: Seq<char>| #[trigger] found.labels.contains(x) <==> names_label(labels, x)
        }),
{
    let (t, id) = s.create(title, description, priority, labels, now).unwrap();
    lemma_dedup_same_labels(normalized_all(labels));
    assert forall|x: Seq<char>| #[trigger] t.issues[s.issues.len() as int].labels.contains(x) <==> names_label(labels, x) by {
        lemma_normalized_all_contains(labels, x);
    }
    let n = s.issues.len() as int;
    assert forall|j: int| 0 <= j < n implies (#[trigger] t.issues[j]).id != id by {
        assert(t.issues[j] == s.issues[j]);
        assert(s.issues[j].id < s.next_id);
    }
    assert(is_position(t.issues, id, n));
    lemma_position_unique(t.issues, id, n);
    lemma_dedup_distinct(normalized_all(labels));
    if has_id(s.issues, id) {
        let k = choose|k: int| 0 <= k < s.issues.len() && (#[trigger] s.issues[k]).id == id;
        assert(s.issues[k].id < s.next_id);
    }
}

/// A deleted issue is gone: in a well-formed store, after `delete` no issue
/// has that id, the removed issue is the one that had it, the others keep
/// their order, and the id counter is unchanged.
pub proof fn lemma_delete_then_get(s: StoreView, id: u32)
    requires
        s.wf(),
        s.delete(id) is Ok,
    ensures
        ({
            let (t, gone) = s.delete(id).unwrap();
            &&& !has_id(t.issues, id)
            &&& gone.id == id
            &&& t.next_id == s.next_id
            &&& t.issues.len() + 1 == s.issues.len()
            &&& gone == s.issues[position_of(s.issues, id)]
            &&& forall|j: int| 0 <= j < position_of(s.issues, id) ==> t.issues[j] == s.issues[j]
            &&& forall|j: int|
                position_of(s.issues, id) <= j < t.issues.len() ==> t.issues[j] == s.issues[j + 1]
        }),
{
    let (t, gone) = s.delete(id).unwrap();
    lemma_position_of(s.issues, id);
    let i = position_of(s.issues, id);
    if has_id(t.issues, id) {
        let k = choose|k: int| 0 <= k < t.issues.len() && (#[trigger] t.issues[k]).id == id;
        if k < i {
            assert(s.issues[k].id == id);
        } else {
            assert(s.issues[k + 1].id == id);
            assert(s.issues[i].id != s.issues[k + 1].id);
        }
    }
}

/// `reopen` undoes `close`: closing an issue (from any status) and then
/// reopening it leaves it open, with every field but the status and the
/// time of the last change as before the close.
pub proof fn lemma_close_then_reopen(s: StoreView, id: u32, t1: Timestamp, t2: Timestamp)
    requires
        s.close(id, t1) is Ok,
    ensures
        s.close(id, t1).unwrap().reopen(id, t2) is Ok,
        ({
            let i = position_of(s.issues, id);
            let u = s.close(id, t1).unwrap().reopen(id, t2).unwrap();
            &&& u.next_id == s.next_id
            &&& u.issues == s.issues.update(i, with_status(s.issues[i], Status::Open, t2))
        }),
{
    lemma_position_of(s.issues, id);
    let i = position_of(s.issues, id);
    let t = s.close(id, t1).unwrap();
    assert forall|j: int| 0 <= j < i implies (#[trigger] t.issues[j]).id != id by {
        assert(t.issues[j] == s.issues[j]);
    }
    assert(is_position(t.issues, id, i));
    lemma_position_unique(t.issues, id, i);
    let u = t.reopen(id, t2).unwrap();
    assert(u.issues =~= s.issues.update(i, with_status(s.issues[i], Status::Open, t2)));
}

/// Every issue's labels hold no duplicates.
pub open spec fn labels_tidy(s: StoreView) -> bool {
    forall|i: int| 0 <= i < s.issues.len() ==> (#[trigger] s.issues[i]).labels.no_duplicates()
}

/// Any label change leaves labels without duplicates.
proof fn lemma_edited_labels_tidy(old: Seq<Seq<char>>, edit: LabelEditView)
    requires
        old.no_duplicates(),
    ensures
        edited_labels(old, edit).no_duplicates(),
{
    match edit {
        LabelEditView::Replace(l) => lemma_dedup_distinct(normalized_all(l)),
        LabelEditView::Add(l) => lemma_dedup_distinct(old + dedup(normalized_all(l))),
        LabelEditView::Remove(l) => lemma_without_labels(old, dedup(normalized_all(l))),
        _ => {},
    }
}

/// Labels are de-duplicated on write: a command never leaves an issue with
/// the same label twice.
pub proof fn lemma_step_labels_tidy(s: StoreView, op: StoreOp)
    requires
        labels_tidy(s),
    ensures
        labels_tidy(step(s, op)),
{
    let t = step(s, op);
    match op {
        StoreOp::Create { title, description, priority, labels, now } => {
            lemma_dedup_distinct(normalized_all(labels));
            assert forall|i: int| 0 <= i < t.issues.len() implies (#[trigger] t.issues[i]).labels.no_duplicates() by {
                if i < s.issues.len() {
                    assert(t.issues[i] == s.issues[i]);
                }
            }
        },
        StoreOp::Update { id, change, now } => {
            if let Ok(t) = s.update(id, change, now) {
                lemma_position_of(s.issues, id);
                let k = position_of(s.issues, id);
                lemma_edited_labels_tidy(s.issues[k].labels, change.labels);
                assert forall|i: int| 0 <= i < t.issues.len() implies (#[trigger] t.issues[i]).labels.no_duplicates() by {
                    if i != k {
                        assert(t.issues[i] == s.issues[i]);
                    }
                }
            }
        },
        StoreOp::Close { id, now } => {
            if let Ok(t) = s.close(id, now) {
                lemma_position_of(s.issues, id);
                let k = position_of(s.issues, id);
                assert forall|i: int| 0 <= i < t.issues.len() implies (#[trigger] t.issues[i]).labels.no_duplicates() by {
                    assert(t.issues[i].labels == s.issues[i].labels);
                }
            }
        },
        StoreOp::Reopen { id, now } => {
            if let Ok(t) = s.reopen(id, now) {
                lemma_position_of(s.issues, id);
                let k = position_of(s.issues, id);
                assert forall|i: int| 0 <= i < t.issues.len() implies (#[trigger] t.issues[i]).labels.no_duplicates() by {
                    assert(t.issues[i].labels == s.issues[i].labels);
                }
            }
        },
        StoreOp::Describe { id, text, now } => {
            if let Ok(t) = s.describe(id, text, now) {
                lemma_position_of(s.issues, id);
                let k = position_of(s.issues, id);
                assert forall|i: int| 0 <= i < t.issues.len() implies (#[trigger] t.issues[i]).labels.no_duplicates() by {
                    assert(t.issues[i].labels == s.issues[i].labels);
                }
            }
        },
        StoreOp::Delete { id } => {
            if let Ok((t, _)) = s.delete(id) {
                lemma_position_of(s.issues, id);
                let k = position_of(s.issues, id);
                assert forall|i: int| 0 <= i < t.issues.len() implies (#[trigger] t.issues[i]).labels.no_duplicates() by {
                    let i2 = if i < k { i } else { i + 1 };
                    assert(t.issues[i] == s.issues[i2]);
                }
            }
        },
    }
}

/// Along any sequence of commands, labels stay free of duplicates.
pub proof fn lemma_labels_stay_tidy(s: StoreView, ops: Seq<StoreOp>)
    requires
        labels_tidy(s),
    ensures
        labels_tidy(run(s, ops)),
    decreases ops.len(),
{
    if ops.len() > 0 {
        lemma_labels_stay_tidy(s, ops.drop_last());
        lemma_step_labels_tidy(run(s, ops.drop_last()), ops.last());
    }
}

/// An empty store, as `init` writes it, is well-formed and tidy.
pub proof fn lemma_new_store_wf()
    ensures
        (StoreView { next_id: 1, issues: Seq::empty() }).wf(),
        labels_tidy(StoreView { next_id: 1, issues: Seq::empty() }),
{
}

/// Labels are matched as they are stored: an issue just created with a
/// label is listed by a `list` that filters on the same label text.
pub proof fn lemma_label_filter_finds_created(
    s: StoreView,
    title: Seq<char>,
    description: Option<Seq<char>>,
    priority: Priority,
    labels: Seq<Seq<char>>,
    now: Timestamp,
    filter: Seq<Seq<char>>,
    label: Seq<char>,
)
    requires
        s.create(title, description, priority, labels, now) is Ok,
        labels.contains(label),
        filter.contains(label),
    ensures
        ({
            let t = s.create(title, description, priority, labels, now).unwrap().0;
            shown(t.issues.last(), Seq::empty(), Seq::empty(), dedup(normalized_all(filter)))
        }),
{
    let t = s.create(title, description, priority, labels, now).unwrap().0;
    let k = choose|k: int| 0 <= k < labels.len() && labels[k] == label;
    let m = choose|m: int| 0 <= m < filter.len() && filter[m] == label;
    let x = normalized(label);
    assert(normalized_all(labels)[k] == x);
    assert(normalized_all(filter)[m] == x);
    lemma_dedup_same_labels(normalized_all(labels));
    lemma_dedup_same_labels(normalized_all(filter));
    assert(t.issues.last().labels.contains(x));
    assert(dedup(normalized_all(filter)).contains(x));
    assert(dedup(normalized_all(filter)).len() > 0);
}

/// A label is among the normalised labels exactly when some raw label
/// normalises to it.
proof fn lemma_normalized_all_contains(l: Seq<Seq<char>>, x: Seq<char>)
    ensures
        normalized_all(l).contains(x) <==> exists|k: int| 0 <= k < l.len() && normalized(#[trigger] l[k]) == x,
{
    if normalized_all(l).contains(x) {
        let k = choose|k: int| 0 <= k < normalized_all(l).len() && normalized_all(l)[k] == x;
        assert(normalized(l[k]) == x);
    }
    if exists|k: int| 0 <= k < l.len() && normalized(#[trigger] l[k]) == x {
        let k = choose|k: int| 0 <= k < l.len() && normalized(#[trigger] l[k]) == x;
        assert(normalized_all(l)[k] == x);
    }
}

/// A label `x` is one of the labels named (raw) in `l`.
pub open spec fn names_label(l: Seq<Seq<char>>, x: Seq<char>) -> bool {
    exists|k: int| 0 <= k < l.len() && normalized(#[trigger] l[k]) == x
}

/// What an accepted update does. It changes only the issue with that id (at
/// the same place), keeps its id and creation time and stamps it with `now`.
/// A requested status is one the status flow allows from the current one; a
/// requested title is stored trimmed and is not blank; a requested
/// description is stored as given, an empty one clearing it; a requested
/// priority is stored. Labels: replaced labels are the named ones; added
/// labels join the old ones; removed labels leave the others; cleared labels
/// are gone; and no label ever appears twice. Fields not requested stay.
pub proof fn lemma_update_effect(s: StoreView, id: u32, u: IssueUpdateView, now: Timestamp)
    requires
        s.update(id, u, now) is Ok,
    ensures
        ({
            let t = s.update(id, u, now).unwrap();
            let i = position_of(s.issues, id);
            let old = s.issues[i];
            let new = t.issues[i];
            &&& has_id(s.issues, id)
            &&& 0 <= i < s.issues.len()
            &&& old.id == id
            &&& t.next_id == s.next_id
            &&& t.issues.len() == s.issues.len()
            &&& forall|j: int| 0 <= j < s.issues.len() && j != i ==> t.issues[j] == s.issues[j]
            &&& new.id == id
            &&& new.created_at == old.created_at
            &&& new.updated_at == Some(now)
            &&& match u.status {
                Some(st) => flow_allows(old.status, st) && new.status == st,
                None => new.status == old.status,
            }
            &&& match u.priority {
                Some(p) => new.priority == p,
                None => new.priority == old.priority,
            }
            &&& match u.title {
                Some(tt) => trimmed(tt).len() > 0 && new.title == trimmed(tt),
                None => new.title == old.title,
            }
            &&& match u.description {
                Some(d) => new.description == if d.len() == 0 {
                    None
                } else {
                    Some(d)
                },
                None => new.description == old.description,
            }
            &&& match u.labels {
                LabelEditView::Keep => new.labels == old.labels,
                LabelEditView::Clear => new.labels.len() == 0,
                LabelEditView::Replace(l) => new.labels.no_duplicates() && forall|x: Seq<char>|
                    #[trigger] new.labels.contains(x) <==> names_label(l, x),
                LabelEditView::Add(l) => new.labels.no_duplicates() && forall|x: Seq<char>|
                    #[trigger] new.labels.contains(x) <==> (old.labels.contains(x) || names_label(l, x)),
                LabelEditView::Remove(l) => forall|x: Seq<char>|
                    #[trigger] new.labels.contains(x) <==> (old.labels.contains(x) && !names_label(l, x)),
            }
        }),
{
    let t = s.update(id, u, now).unwrap();
    lemma_position_of(s.issues, id);
    let i = position_of(s.issues, id);
    let old = s.issues[i];
    let new = t.issues[i];
    if let Some(st) = u.status {
        lemma_flow(old.status, st);
    }
    match u.labels {
        LabelEditView::Replace(l) => {
            lemma_dedup_distinct(normalized_all(l));
            lemma_dedup_same_labels(normalized_all(l));
            assert forall|x: Seq<char>| #[trigger] new.labels.contains(x) <==> names_label(l, x) by {
                lemma_normalized_all_contains(l, x);
            }
        },
        LabelEditView::Add(l) => {
            let a = dedup(normalized_all(l));
            lemma_dedup_distinct(old.labels + a);
            lemma_dedup_same_labels(old.labels + a);
            lemma_dedup_same_labels(normalized_all(l));
            assert forall|x: Seq<char>| #[trigger] new.labels.contains(x) <==> (old.labels.contains(x) || names_label(l, x)) by {
                lemma_normalized_all_contains(l, x);
                if (old.labels + a).contains(x) {
                    let k = choose|k: int| 0 <= k < (old.labels + a).len() && (old.labels + a)[k] == x;
                    if k < old.labels.len() {
                        assert(old.labels[k] == x);
                    } else {
                        assert(a[k - old.labels.len()] == x);
                    }
                }
                if old.labels.contains(x) {
                    let k = choose|k: int| 0 <= k < old.labels.len() && old.labels[k] == x;
                    assert((old.labels + a)[k] == x);
                }
                if a.contains(x) {
                    let k = choose|k: int| 0 <= k < a.len() && a[k] == x;
                    assert((old.labels + a)[k + old.labels.len()] == x);
                }
            }
        },
        LabelEditView::Remove(l) => {
            let r = dedup(normalized_all(l));
            lemma_without_labels(old.labels, r);
            lemma_dedup_same_labels(normalized_all(l));
            assert forall|x: Seq<char>| #[trigger] new.labels.contains(x) <==> (old.labels.contains(x) && !names_label(l, x)) by {
                lemma_normalized_all_contains(l, x);
            }
        },
        _ => {},
    }
}

/// A request that names an existing issue and no blank title or label is
/// accepted exactly when its status (if any) is a move the status flow
/// allows from the issue's current status; otherwise it is refused as an
/// invalid transition from the current to the requested status.
pub proof fn lemma_update_follows_flow(s: StoreView, id: u32, u: IssueUpdateView, now: Timestamp)
    requires
        has_id(s.issues, id),
        !u.is_empty(),
        u.title matches Some(t) ==> trimmed(t).len() > 0,
        match u.labels {
            LabelEditView::Replace(l) => forall|k: int| 0 <= k < l.len() ==> trimmed(#[trigger] l[k]).len() > 0,
            LabelEditView::Add(l) => forall|k: int| 0 <= k < l.len() ==> trimmed(#[trigger] l[k]).len() > 0,
            LabelEditView::Remove(l) => forall|k: int| 0 <= k < l.len() ==> trimmed(#[trigger] l[k]).len() > 0,
            _ => true,
        },
    ensures
        ({
            let old = s.issues[position_of(s.issues, id)];
            match u.status {
                Some(st) => if flow_allows(old.status, st) {
                    s.update(id, u, now) is Ok && s.update(id, u, now).unwrap().issues[position_of(
                        s.issues,
                        id,
                    )].status == st
                } else {
                    s.update(id, u, now) == Err::<StoreView, TrackerError>(
                        TrackerError::InvalidTransition { from: old.status, to: st },
                    )
                },
                None => s.update(id, u, now) is Ok,
            }
        }),
{
    lemma_position_of(s.issues, id);
    if let Some(st) = u.status {
        lemma_flow(s.issues[position_of(s.issues, id)].status, st);
    }
}

/// Closing works from any status: closing an issue that exists always
/// succeeds, leaves it closed, and touches no other issue; a missing id is
/// refused.
pub proof fn lemma_close_from_any_status(s: StoreView, id: u32, now: Timestamp)
    ensures
        has_id(s.issues, id) ==> ({
            let i = position_of(s.issues, id);
            &&& s.close(id, now) is Ok
            &&& s.close(id, now).unwrap().issues[i].status == Status::Closed
            &&& s.close(id, now).unwrap().issues[i].id == id
            &&& s.close(id, now).unwrap().issues.len() == s.issues.len()
            &&& forall|j: int|
                0 <= j < s.issues.len() && j != i ==> s.close(id, now).unwrap().issues[j] == s.issues[j]
        }),
        !has_id(s.issues, id) ==> s.close(id, now) == Err::<StoreView, TrackerError>(
            TrackerError::NotFound(id),
        ),
{
    if has_id(s.issues, id) {
        lemma_position_of(s.issues, id);
    }
}

/// Only a closed issue can be reopened: an accepted reopen found the issue
/// closed and leaves it open; an issue in any other status is refused with
/// its status named.
pub proof fn lemma_reopen_only_closed(s: StoreView, id: u32, now: Timestamp)
    ensures
        s.reopen(id, now) is Ok ==> ({
            let i = position_of(s.issues, id);
            &&& has_id(s.issues, id)
            &&& s.issues[i].status == Status::Closed
            &&& s.reopen(id, now).unwrap().issues[i].status == Status::Open
        }),
        has_id(s.issues, id) ==> ({
            let i = position_of(s.issues, id);
            if s.issues[i].status == Status::Closed {
                s.reopen(id, now) is Ok
            } else {
                s.reopen(id, now) == Err::<StoreView, TrackerError>(
                    TrackerError::NotClosed { id, status: s.issues[i].status },
                )
            }
        }),
{
    if has_id(s.issues, id) {
        lemma_position_of(s.issues, id);
    }
}

/// Editing replaces the description with the edited buffer, trimmed (a blank
/// buffer clears it), whatever the description was before; every other
/// field but the time of the last change stays, and no other issue changes.
pub proof fn lemma_describe_replaces(s: StoreView, id: u32, text: Seq<char>, now: Timestamp)
    ensures
        has_id(s.issues, id) <==> s.describe(id, text, now) is Ok,
        s.describe(id, text, now) is Ok ==> ({
            let i = position_of(s.issues, id);
            let old = s.issues[i];
            let new = s.describe(id, text, now).unwrap().issues[i];
            &&& new.description == if trimmed(text).len() == 0 {
                None
            } else {
                Some(trimmed(text))
            }
            &&& new.id == old.id
            &&& new.title == old.title
            &&& new.status == old.status
            &&& new.priority == old.priority
            &&& new.labels == old.labels
            &&& new.created_at == old.created_at
            &&& new.updated_at == Some(now)
            &&& s.describe(id, text, now).unwrap().issues.len() == s.issues.len()
            &&& forall|j: int|
                0 <= j < s.issues.len() && j != i ==> s.describe(id, text, now).unwrap().issues[j]
                    == s.issues[j]
        }),
{
    if has_id(s.issues, id) {
        lemma_position_of(s.issues, id);
    }
}

/// When `create` is refused and when it succeeds: a blank title is refused
/// first, then a blank label, then a full id counter; anything else is
/// accepted.
pub proof fn lemma_create_refusals(
    s: StoreView,
    title: Seq<char>,
    description: Option<Seq<char>>,
    priority: Priority,
    labels: Seq<Seq<char>>,
    now: Timestamp,
)
    ensures
        trimmed(title).len() == 0 ==> s.create(title, description, priority, labels, now)
            == Err::<(StoreView, u32), TrackerError>(TrackerError::EmptyTitle),
        trimmed(title).len() > 0 && (exists|k: int|
            0 <= k < labels.len() && trimmed(#[trigger] labels[k]).len() == 0) ==> s.create(
            title,
            description,
            priority,
            labels,
            now,
        ) == Err::<(StoreView, u32), TrackerError>(TrackerError::EmptyLabel),
        trimmed(title).len() > 0 && (forall|k: int|
            0 <= k < labels.len() ==> trimmed(#[trigger] labels[k]).len() > 0) ==> (s.create(
            title,
            description,
            priority,
            labels,
            now,
        ) is Ok <==> s.next_id < u32::MAX),
{
}

} // verus!

//! Which issues `list` shows, and in what order.
use vstd::prelude::*;
use crate::error::TrackerError;
use crate::issue::{Issue, IssueView};
use crate::labels::{texts, normalized_all, all_nonempty, dedup, normalize_labels, shares_label};
use crate::priority::{Priority, priority_rank};
use crate::status::Status;
use crate::store::Store;

verus! {

/// The filters of a `list` command. Each list is an either-or choice; the
/// three kinds combine with "and"; an empty list does not filter.
pub struct ListFilter {
    pub statuses: Vec<Status>,
    pub priorities: Vec<Priority>,
    /// Raw labels, normalised before they are matched.
    pub labels: Vec<String>,
}

/// Whether an issue with status `st` is shown. An explicit status filter
/// shows exactly those statuses; with only other filters everything but
/// closed is shown; with no filter only open and in-progress issues.
pub open spec fn status_shown(st: Status, statuses: Seq<Status>, other_filters: bool) -> bool {
    if statuses.len() > 0 {
        statuses.contains(st)
    } else if other_filters {
        st != Status::Closed
    } else {
        st == Status::Open || st == Status::InProgress
    }
}

/// Whether `list` shows an issue, given the filters (labels normalised).
pub open spec fn shown(
    issue: IssueView,
    statuses: Seq<Status>,
    priorities: Seq<Priority>,
    labels: Seq<Seq<char>>,
) -> bool {
    &&& status_shown(issue.status, statuses, priorities.len() > 0 || labels.len() > 0)
    &&& (priorities.len() == 0 || priorities.contains(issue.priority))
    &&& (labels.len() == 0 || exists|x: Seq<char>|
        issue.labels.contains(x) && #[trigger] labels.contains(x))
}

/// The sort bracket of an issue: more urgent priorities first, and within a
/// priority the done issues last.
pub open spec fn bracket(issue: IssueView) -> nat {
    ((3 - priority_rank(issue.priority)) * 2 + if issue.status == Status::Done {
        1nat
    } else {
        0nat
    }) as nat
}

/// The issue at position `a` is listed before the one at `b`: an earlier
/// bracket, or the same bracket and earlier in the file.
pub open spec fn listed_before(issues: Seq<IssueView>, a: int, b: int) -> bool {
    bracket(issues[a]) < bracket(issues[b]) || (bracket(issues[a]) == bracket(issues[b]) && a < b)
}

/// `order` lists exactly the positions of the shown issues, each once, sorted.
pub open spec fn is_listing(
    issues: Seq<IssueView>,
    order: Seq<usize>,
    statuses: Seq<Status>,
    priorities: Seq<Priority>,
    labels: Seq<Seq<char>>,
) -> bool {
    &&& forall|k: int|
        0 <= k < order.len() ==> (#[trigger] order[k]) < issues.len() && shown(
            issues[order[k] as int],
            statuses,
            priorities,
            labels,
        )
    &&& forall|i: int|
        0 <= i < issues.len() && shown(issues[i], statuses, priorities, labels) ==> exists|k: int|
            0 <= k < order.len() && #[trigger] order[k] == i
    &&& forall|a: int, b: int|
        0 <= a < b < order.len() ==> listed_before(
            issues,
            #[trigger] order[a] as int,
            #[trigger] order[b] as int,
        )
}

/// What each filter does to the listing. A status filter shows exactly the
/// named statuses; without one, closed issues never show, and with no filter
/// at all only open and in-progress issues show. A priority filter shows
/// exactly the named priorities (an either-or choice, not "at least as
/// urgent"). A label filter shows exactly the issues that carry one of its
/// labels. An issue that passes every filter is shown.
pub proof fn lemma_filters(
    issue: IssueView,
    statuses: Seq<Status>,
    priorities: Seq<Priority>,
    labels: Seq<Seq<char>>,
)
    ensures
        shown(issue, statuses, priorities, labels) && statuses.len() > 0 ==> statuses.contains(
            issue.status,
        ),
        shown(issue, statuses, priorities, labels) && statuses.len() == 0 ==> issue.status
            != Status::Closed,
        shown(issue, statuses, priorities, labels) && statuses.len() == 0 && priorities.len() == 0
            && labels.len() == 0 ==> issue.status == Status::Open || issue.status
            == Status::InProgress,
        shown(issue, statuses, priorities, labels) && priorities.len() > 0 ==> priorities.contains(
            issue.priority,
        ),
        priorities.len() > 0 && !priorities.contains(issue.priority) ==> !shown(
            issue,
            statuses,
            priorities,
            labels,
        ),
        shown(issue, statuses, priorities, labels) && labels.len() > 0 ==> exists|x: Seq<char>|
            issue.labels.contains(x) && #[trigger] labels.contains(x),
        ({
            &&& if statuses.len() > 0 {
                statuses.contains(issue.status)
            } else if priorities.len() > 0 || labels.len() > 0 {
                issue.status != Status::Closed
            } else {
                issue.status == Status::Open || issue.status == Status::InProgress
            }
            &&& priorities.len() == 0 || priorities.contains(issue.priority)
            &&& labels.len() == 0 || exists|x: Seq<char>|
                issue.labels.contains(x) && #[trigger] labels.contains(x)
        }) ==> shown(issue, statuses, priorities, labels),
{
}

/// Every issue that `list` shows under a priority filter has one of the
/// filter's priorities, and an issue of any other priority is never listed;
/// likewise for a status filter.
pub proof fn lemma_listing_respects_filters(
    issues: Seq<IssueView>,
    order: Seq<usize>,
    statuses: Seq<Status>,
    priorities: Seq<Priority>,
    labels: Seq<Seq<char>>,
)
    requires
        is_listing(issues, order, statuses, priorities, labels),
    ensures
        forall|k: int|
            0 <= k < order.len() && priorities.len() > 0 ==> priorities.contains(
                issues[#[trigger] order[k] as int].priority,
            ),
        forall|k: int|
            0 <= k < order.len() && statuses.len() > 0 ==> statuses.contains(
                issues[#[trigger] order[k] as int].status,
            ),
        forall|i: int, k: int|
            0 <= i < issues.len() && 0 <= k < order.len() && priorities.len() > 0
                && !priorities.contains(#[trigger] issues[i].priority) ==> #[trigger] order[k] as int
                != i,
{
    assert forall|k: int| 0 <= k < order.len() && priorities.len() > 0 implies priorities.contains(
        issues[#[trigger] order[k] as int].priority,
    ) by {
        lemma_filters(issues[order[k] as int], statuses, priorities, labels);
    }
    assert forall|k: int| 0 <= k < order.len() && statuses.len() > 0 implies statuses.contains(
        issues[#[trigger] order[k] as int].status,
    ) by {
        lemma_filters(issues[order[k] as int], statuses, priorities, labels);
    }
    assert forall|i: int, k: int|
        0 <= i < issues.len() && 0 <= k < order.len() && priorities.len() > 0
            && !priorities.contains(#[trigger] issues[i].priority) implies #[trigger] order[k] as int
        != i by {
        lemma_filters(issues[order[k] as int], statuses, priorities, labels);
    }
}

/// The order of a listing: more urgent priorities come first; within a
/// priority, done issues come after the others; otherwise issues keep the
/// order of the file.
pub proof fn lemma_listing_order(
    issues: Seq<IssueView>,
    order: Seq<usize>,
    statuses: Seq<Status>,
    priorities: Seq<Priority>,
    labels: Seq<Seq<char>>,
)
    requires
        is_listing(issues, order, statuses, priorities, labels),
    ensures
        forall|x: int, y: int|
            0 <= x < y < order.len() ==> {
                let a = issues[#[trigger] order[x] as int];
                let b = issues[#[trigger] order[y] as int];
                &&& priority_rank(a.priority) >= priority_rank(b.priority)
                &&& a.priority == b.priority && a.status == Status::Done ==> b.status == Status::Done
                &&& a.priority == b.priority && (a.status == Status::Done) == (b.status
                    == Status::Done) ==> order[x] < order[y]
            },
{
    assert forall|x: int, y: int| 0 <= x < y < order.len() implies {
        let a = issues[#[trigger] order[x] as int];
        let b = issues[#[trigger] order[y] as int];
        &&& priority_rank(a.priority) >= priority_rank(b.priority)
        &&& a.priority == b.priority && a.status == Status::Done ==> b.status == Status::Done
        &&& a.priority == b.priority && (a.status == Status::Done) == (b.status == Status::Done)
            ==> order[x] < order[y]
    } by {
        assert(listed_before(issues, order[x] as int, order[y] as int));
    }
}

/// Two sequences sorted strictly by `listed_before` that hold the same
/// positions are equal.
proof fn lemma_sorted_unique(issues: Seq<IssueView>, o1: Seq<usize>, o2: Seq<usize>)
    requires
        forall|a: int, b: int|
            0 <= a < b < o1.len() ==> listed_before(issues, #[trigger] o1[a] as int, #[trigger] o1[b] as int),
        forall|a: int, b: int|
            0 <= a < b < o2.len() ==> listed_before(issues, #[trigger] o2[a] as int, #[trigger] o2[b] as int),
        forall|x: usize| o1.contains(x) <==> o2.contains(x),
    ensures
        o1 == o2,
    decreases o1.len(),
{
    if o1.len() == 0 {
        if o2.len() > 0 {
            assert(o2.contains(o2[0]));
        }
        assert(o1 =~= o2);
    } else {
        assert(o1.contains(o1[0]));
        let p = choose|p: int| 0 <= p < o2.len() && o2[p] == o1[0];
        assert(o2.contains(o2[0]));
        let q = choose|q: int| 0 <= q < o1.len() && o1[q] == o2[0];
        if p > 0 {
            assert(listed_before(issues, o2[0] as int, o2[p] as int));
            if q > 0 {
                assert(listed_before(issues, o1[0] as int, o1[q] as int));
            }
        }
        assert(o1[0] == o2[0]);
        let r1 = o1.drop_first();
        let r2 = o2.drop_first();
        assert forall|x: usize| r1.contains(x) <==> r2.contains(x) by {
            if r1.contains(x) {
                let k = choose|k: int| 0 <= k < r1.len() && r1[k] == x;
                assert(o1[k + 1] == x);
                assert(listed_before(issues, o1[0] as int, o1[k + 1] as int));
                assert(o2.contains(x));
                let m = choose|m: int| 0 <= m < o2.len() && o2[m] == x;
                assert(m != 0);
                assert(r2[m - 1] == x);
            }
            if r2.contains(x) {
                let k = choose|k: int| 0 <= k < r2.len() && r2[k] == x;
                assert(o2[k + 1] == x);
                assert(listed_before(issues, o2[0] as int, o2[k + 1] as int));
                assert(o1.contains(x));
                let m = choose|m: int| 0 <= m < o1.len() && o1[m] == x;
                assert(m != 0);
                assert(r1[m - 1] == x);
            }
        }
        assert forall|a: int, b: int| 0 <= a < b < r1.len() implies listed_before(
            issues,
            #[trigger] r1[a] as int,
            #[trigger] r1[b] as int,
        ) by {
            assert(r1[a] == o1[a + 1] && r1[b] == o1[b + 1]);
        }
        assert forall|a: int, b: int| 0 <= a < b < r2.len() implies listed_before(
            issues,
            #[trigger] r2[a] as int,
            #[trigger] r2[b] as int,
        ) by {
            assert(r2[a] == o2[a + 1] && r2[b] == o2[b + 1]);
        }
        lemma_sorted_unique(issues, r1, r2);
        assert(o1.len() == o2.len());
        assert forall|i: int| 0 <= i < o1.len() implies o1[i] == o2[i] by {
            if i > 0 {
                assert(o1[i] == r1[i - 1]);
                assert(o2[i] == r2[i - 1]);
            }
        }
        assert(o1 =~= o2);
    }
}

/// The listing is determined: there is only one order that shows exactly
/// the issues the filters let through, most urgent first, done issues last
/// within a priority, and otherwise in file order.
pub proof fn lemma_listing_unique(
    issues: Seq<IssueView>,
    o1: Seq<usize>,
    o2: Seq<usize>,
    statuses: Seq<Status>,
    priorities: Seq<Priority>,
    labels: Seq<Seq<char>>,
)
    requires
        is_listing(issues, o1, statuses, priorities, labels),
        is_listing(issues, o2, statuses, priorities, labels),
    ensures
        o1 == o2,
{
    assert forall|x: usize| o1.contains(x) <==> o2.contains(x) by {
        if o1.contains(x) {
            let k = choose|k: int| 0 <= k < o1.len() && o1[k] == x;
            assert(o1[k] < issues.len());
            let m = choose|m: int| 0 <= m < o2.len() && #[trigger] o2[m] == x as int;
            assert(o2[m] == x);
        }
        if o2.contains(x) {
            let k = choose|k: int| 0 <= k < o2.len() && o2[k] == x;
            assert(o2[k] < issues.len());
            let m = choose|m: int| 0 <= m < o1.len() && #[trigger] o1[m] == x as int;
            assert(o1[m] == x);
        }
    }
    lemma_sorted_unique(issues, o1, o2);
}

fn contains_status(v: &Vec<Status>, s: Status) -> (r: bool)
    ensures
        r == v@.contains(s),
{
    let mut i: usize = 0;
    while i < v.len()
        invariant
            0 <= i <= v.len(),
            forall|j: int| 0 <= j < i ==> v@[j] != s,
        decreases v.len() - i,
    {
        if v[i] == s {
            assert(v@[i as int] == s);
            return true;
        }
        i = i + 1;
    }
    false
}

fn contains_priority(v: &Vec<Priority>, p: Priority) -> (r: bool)
    ensures
        r == v@.contains(p),
{
    let mut i: usize = 0;
    while i < v.len()
        invariant
            0 <= i <= v.len(),
            forall|j: int| 0 <= j < i ==> v@[j] != p,
        decreases v.len() - i,
    {
        if v[i] == p {
            assert(v@[i as int] == p);
            return true;
        }
        i = i + 1;
    }
    false
}

fn is_shown(issue: &Issue, f: &ListFilter, labels: &Vec<String>) -> (r: bool)
    ensures
        r == shown(issue@, f.statuses@, f.priorities@, texts(labels@)),
{
    let others = f.priorities.len() > 0 || labels.len() > 0;
    let status_ok = if f.statuses.len() > 0 {
        contains_status(&f.statuses, issue.status)
    } else if others {
        issue.status != Status::Closed
    } else {
        issue.status == Status::Open || issue.status == Status::InProgress
    };
    let priority_ok = f.priorities.len() == 0 || contains_priority(&f.priorities, issue.priority);
    let label_ok = labels.len() == 0 || shares_label(&issue.labels, labels);
    status_ok && priority_ok && label_ok
}

fn bracket_of(issue: &Issue) -> (r: u8)
    ensures
        r == bracket(issue@),
{
    let done: u8 = if issue.status == Status::Done {
        1
    } else {
        0
    };
    (3 - issue.priority.rank()) * 2 + done
}

impl Store {
    /// The positions of the issues that `list` shows, most urgent first and,
    /// within a priority, done issues last; otherwise in file order. Refused
    /// if a label filter is empty once trimmed.
    pub fn list(&self, f: &ListFilter) -> (r: Result<Vec<usize>, TrackerError>)
        ensures
            match r {
                Ok(order) => all_nonempty(texts(f.labels@)) && is_listing(
                    self@.issues,
                    order@,
                    f.statuses@,
                    f.priorities@,
                    dedup(normalized_all(texts(f.labels@))),
                ),
                Err(e) => e == TrackerError::EmptyLabel && !all_nonempty(texts(f.labels@)),
            },
    {
        let labels = match normalize_labels(&f.labels) {
            Ok(l) => l,
            Err(e) => return Err(e),
        };
        let ghost issues = self@.issues;
        let ghost ls = texts(labels@);
        let n = self.issues.len();
        let mut order: Vec<usize> = Vec::new();
        let mut b: u8 = 0;
        while b < 8
            invariant
                issues == self@.issues,
                ls == texts(labels@),
                n == issues.len(),
                0 <= b <= 8,
                forall|k: int|
                    0 <= k < order@.len() ==> (#[trigger] order@[k]) < n && shown(
                        issues[order@[k] as int],
                        f.statuses@,
                        f.priorities@,
                        ls,
                    ) && bracket(issues[order@[k] as int]) < b,
                forall|i: int|
                    0 <= i < n && shown(issues[i], f.statuses@, f.priorities@, ls) && bracket(
                        issues[i],
                    ) < b ==> exists|k: int| 0 <= k < order@.len() && #[trigger] order@[k] == i,
                forall|x: int, y: int|
                    0 <= x < y < order@.len() ==> listed_before(
                        issues,
                        #[trigger] order@[x] as int,
                        #[trigger] order@[y] as int,
                    ),
            decreases 8 - b,
        {
            let mut i: usize = 0;
            while i < n
                invariant
                    issues == self@.issues,
                    ls == texts(labels@),
                    n == issues.len(),
                    0 <= b < 8,
                    0 <= i <= n,
                    forall|k: int|
                        0 <= k < order@.len() ==> (#[trigger] order@[k]) < n && shown(
                            issues[order@[k] as int],
                            f.statuses@,
                            f.priorities@,
                            ls,
                        ) && (bracket(issues[order@[k] as int]) < b || (bracket(
                            issues[order@[k] as int],
                        ) == b && order@[k] < i)),
                    forall|j: int|
                        0 <= j < n && shown(issues[j], f.statuses@, f.priorities@, ls) && (bracket(
                            issues[j],
                        ) < b || (bracket(issues[j]) == b && j < i)) ==> exists|k: int|
                            0 <= k < order@.len() && #[trigger] order@[k] == j,
                    forall|x: int, y: int|
                        0 <= x < y < order@.len() ==> listed_before(
                            issues,
                            #[trigger] order@[x] as int,
                            #[trigger] order@[y] as int,
                        ),
                decreases n - i,
            {
                let issue = &self.issues[i];
                if bracket_of(issue) == b && is_shown(issue, f, &labels) {
                    let ghost before = order@;
                    order.push(i);
                    assert(order@[before.len() as int] == i);
                    assert forall|j: int|
                        0 <= j < n && shown(issues[j], f.statuses@, f.priorities@, ls) && (bracket(
                            issues[j],
                        ) < b || (bracket(issues[j]) == b && j < i + 1)) implies exists|k: int|
                        0 <= k < order@.len() && #[trigger] order@[k] == j by {
                        if j == i {
                            assert(order@[before.len() as int] == j);
                        } else {
                            let k = choose|k: int| 0 <= k < before.len() && before[k] == j;
                            assert(order@[k] == j);
                        }
                    }
                }
                i = i + 1;
            }
            b = b + 1;
        }
        Ok(order)
    }
}

} // verus!

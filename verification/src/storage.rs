//! Where the tracker keeps its data, and how a loaded file becomes a store.
use vstd::prelude::*;
use crate::error::TrackerError;
use crate::issue::{Issue, IssueView};
use crate::store::{Store, StoreView};
use crate::text::owned;

verus! {

/// `name` joined onto the directory `dir`, with one `/` between them (as
/// `Path::join` does for a relative name).
pub open spec fn path_join(dir: Seq<char>, name: Seq<char>) -> Seq<char> {
    if dir.len() == 0 {
        name
    } else if dir.last() == '/' {
        dir + name
    } else {
        dir + seq!['/'] + name
    }
}

/// `name` joined onto the directory `dir`.
pub fn join_path(dir: &str, name: &str) -> (r: String)
    ensures
        r@ == path_join(dir@, name@),
{
    let n = dir.unicode_len();
    let mut r = owned(dir);
    if n > 0 && dir.get_char(n - 1) != '/' {
        proof {
            reveal_strlit("/");
        }
        r.append("/");
    }
    r.append(name);
    r
}

/// The tracker directory, `.tracker`, inside `base`.
pub fn tracker_dir_in(base: &str) -> (r: String)
    ensures
        r@ == path_join(base@, ".tracker"@),
{
    join_path(base, ".tracker")
}

/// The issues file inside a tracker directory.
pub fn issues_path(tracker_dir: &str) -> (r: String)
    ensures
        r@ == path_join(tracker_dir@, "issues.json"@),
{
    join_path(tracker_dir, "issues.json")
}

/// The lock file that serialises writers, inside a tracker directory.
pub fn lock_path(tracker_dir: &str) -> (r: String)
    ensures
        r@ == path_join(tracker_dir@, "lock"@),
{
    join_path(tracker_dir, "lock")
}

/// The file a new version of `issues_path` is written to before it replaces
/// the old one.
pub fn temp_path(issues_path: &str) -> (r: String)
    ensures
        r@ == issues_path@ + ".tmp"@,
{
    let mut r = owned(issues_path);
    r.append(".tmp");
    r
}

/// The nearest directory that holds a tracker: `found[k]` tells whether the
/// `k`-th directory walking up from the current one (which is the 0-th) has
/// a `.tracker` directory.
pub fn nearest_tracker(found: &Vec<bool>) -> (r: Option<usize>)
    ensures
        match r {
            Some(k) => k < found@.len() && found@[k as int] && forall|j: int|
                0 <= j < k ==> !#[trigger] found@[j],
            None => forall|j: int| 0 <= j < found@.len() ==> !#[trigger] found@[j],
        },
{
    let mut k: usize = 0;
    while k < found.len()
        invariant
            0 <= k <= found.len(),
            forall|j: int| 0 <= j < k ==> !#[trigger] found@[j],
        decreases found.len() - k,
    {
        if found[k] {
            return Some(k);
        }
        k = k + 1;
    }
    None
}

/// The highest id among `issues`, or 0 when there are none.
pub open spec fn max_id(issues: Seq<IssueView>) -> nat
    decreases issues.len(),
{
    if issues.len() == 0 {
        0
    } else {
        let m = max_id(issues.drop_last());
        if issues.last().id > m {
            issues.last().id as nat
        } else {
            m
        }
    }
}

/// No issue's id exceeds `max_id`.
pub proof fn lemma_max_id_bounds(issues: Seq<IssueView>)
    ensures
        forall|i: int| 0 <= i < issues.len() ==> (#[trigger] issues[i]).id <= max_id(issues),
        max_id(issues) <= u32::MAX,
    decreases issues.len(),
{
    if issues.len() > 0 {
        let p = issues.drop_last();
        lemma_max_id_bounds(p);
        assert forall|i: int| 0 <= i < issues.len() implies (#[trigger] issues[i]).id <= max_id(
            issues,
        ) by {
            if i < p.len() {
                assert(p[i] == issues[i]);
            }
        }
    }
}

/// The highest id among `issues`, or 0.
fn highest_id(issues: &Vec<Issue>) -> (r: u32)
    ensures
        r == max_id(issues@.map_values(|i: Issue| i@)),
{
    let ghost views = issues@.map_values(|i: Issue| i@);
    let mut m: u32 = 0;
    let mut k: usize = 0;
    while k < issues.len()
        invariant
            views == issues@.map_values(|i: Issue| i@),
            0 <= k <= issues.len(),
            m == max_id(views.take(k as int)),
        decreases issues.len() - k,
    {
        assert(views.take(k + 1).drop_last() =~= views.take(k as int));
        if issues[k].id > m {
            m = issues[k].id;
        }
        k = k + 1;
    }
    assert(views.take(issues.len() as int) =~= views);
    m
}

impl Store {
    /// A store for a legacy file, which holds only the array of issues: the
    /// id counter continues after the highest id.
    pub fn from_legacy(issues: Vec<Issue>) -> (s: Store)
        requires
            max_id(issues@.map_values(|i: Issue| i@)) < u32::MAX,
        ensures
            s@ == (StoreView {
                next_id: (max_id(issues@.map_values(|i: Issue| i@)) + 1) as u32,
                issues: issues@.map_values(|i: Issue| i@),
            }),
    {
        let m = highest_id(&issues);
        Store { next_id: m + 1, issues }
    }
}

/// The store that a read of the issues file yields: the current format when
/// it parsed, else the legacy array when that parsed (refused if its highest
/// id leaves no next id), else the file is corrupt.
pub fn resolve_loaded(current: Option<Store>, legacy: Option<Vec<Issue>>) -> (r: Result<
    Store,
    TrackerError,
>)
    ensures
        match current {
            Some(s) => r matches Ok(t) && t@ == s@,
            None => match legacy {
                Some(v) => if max_id(v@.map_values(|i: Issue| i@)) < u32::MAX {
                    r matches Ok(t) && t@ == (StoreView {
                        next_id: (max_id(v@.map_values(|i: Issue| i@)) + 1) as u32,
                        issues: v@.map_values(|i: Issue| i@),
                    })
                } else {
                    r matches Err(e) && e == TrackerError::Corrupt
                },
                None => r matches Err(e) && e == TrackerError::Corrupt,
            },
        },
{
    match current {
        Some(s) => Ok(s),
        None => match legacy {
            Some(v) => {
                if highest_id(&v) < u32::MAX {
                    Ok(Store::from_legacy(v))
                } else {
                    Err(TrackerError::Corrupt)
                }
            },
            None => Err(TrackerError::Corrupt),
        },
    }
}

/// A legacy file whose ids are distinct becomes a well-formed store: its
/// counter lies above every id.
pub proof fn lemma_legacy_store_wf(issues: Seq<IssueView>)
    requires
        max_id(issues) < u32::MAX,
        forall|i: int, j: int|
            0 <= i < j < issues.len() ==> (#[trigger] issues[i]).id != (#[trigger] issues[j]).id,
    ensures
        (StoreView { next_id: (max_id(issues) + 1) as u32, issues }).wf(),
{
    lemma_max_id_bounds(issues);
}

} // verus!

//! Display width of text in terminal columns, through unicode-width, and
//! fitting a title into a number of columns.
use vstd::prelude::*;
use crate::text::owned;

verus! {

/// What unicode-width's `UnicodeWidthStr::width` returns for a text: its
/// width in terminal columns.
pub uninterp spec fn display_width(s: Seq<char>) -> nat;

/// Calls `unicode_width::UnicodeWidthStr::width`. Trusted: the result is
/// named `display_width(s@)`; the width tables are left unsaid.
#[verifier::external_body]
pub(crate) fn text_width(s: &str) -> (r: usize)
    ensures
        r == display_width(s@),
{
    unicode_width::UnicodeWidthStr::width(s)
}

/// `k` is how many leading characters of `t` are kept when it must fit in
/// `budget` columns: the most whose width fits, or none.
pub open spec fn is_fit_len(t: Seq<char>, budget: nat, k: int) -> bool {
    &&& 0 <= k <= t.len()
    &&& (k == 0 || display_width(t.take(k)) <= budget)
    &&& forall|j: int| k < j <= t.len() ==> display_width(#[trigger] t.take(j)) > budget
}

/// How many leading characters of `t` fit in `budget` columns.
pub open spec fn fit_len(t: Seq<char>, budget: nat) -> int {
    choose|k: int| is_fit_len(t, budget, k)
}

/// A title as shown in `budget` columns: whole when it fits; otherwise as
/// many leading characters as fit in one column less, and an ellipsis; and
/// nothing when there is no room at all.
pub open spec fn fitted_title(t: Seq<char>, budget: nat) -> Seq<char> {
    if display_width(t) <= budget {
        t
    } else if budget == 0 {
        Seq::empty()
    } else {
        t.take(fit_len(t, (budget - 1) as nat)) + "\u{2026}"@
    }
}

/// There is at most one fitting length.
pub proof fn lemma_fit_len_unique(t: Seq<char>, budget: nat, k: int)
    requires
        is_fit_len(t, budget, k),
    ensures
        fit_len(t, budget) == k,
{
    let c = fit_len(t, budget);
    assert(is_fit_len(t, budget, c));
    if c < k {
        assert(display_width(t.take(k)) > budget);
    }
    if k < c {
        assert(display_width(t.take(c)) > budget);
    }
}

/// The title fitted into `budget` columns.
pub fn fit_title(title: &str, budget: usize) -> (r: String)
    ensures
        r@ == fitted_title(title@, budget as nat),
{
    if text_width(title) <= budget {
        return owned(title);
    }
    if budget == 0 {
        return String::new();
    }
    let n = title.unicode_len();
    let room = budget - 1;
    let mut k: usize = n;
    while k > 0
        invariant
            n == title@.len(),
            0 <= k <= n,
            forall|j: int| k < j <= n ==> display_width(#[trigger] title@.take(j)) > room,
        ensures
            0 <= k <= n,
            k == 0 || display_width(title@.take(k as int)) <= room,
            forall|j: int| k < j <= n ==> display_width(#[trigger] title@.take(j)) > room,
        decreases k,
    {
        let head = title.substring_char(0, k);
        assert(head@ =~= title@.take(k as int));
        if text_width(head) <= room {
            break;
        }
        k = k - 1;
    }
    proof {
        lemma_fit_len_unique(title@, room as nat, k as int);
    }
    let mut r = owned(title.substring_char(0, k));
    r.append("\u{2026}");
    assert(title@.subrange(0, k as int) =~= title@.take(k as int));
    r
}

} // verus!

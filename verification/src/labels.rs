//! Labels: trimmed, lower-cased, never empty, and kept without duplicates.
use vstd::prelude::*;
use crate::error::TrackerError;
use crate::text::{trimmed, lowercased, trim_text, lowercase_text};

verus! {

/// The texts of a vector of strings.
pub open spec fn texts(v: Seq<String>) -> Seq<Seq<char>> {
    v.map_values(|s: String| s@)
}

/// A label as stored: trimmed, then lower-cased.
pub open spec fn normalized(raw: Seq<char>) -> Seq<char> {
    lowercased(trimmed(raw))
}

/// No raw label is blank: each keeps some character once trimmed.
pub open spec fn all_nonempty(raws: Seq<Seq<char>>) -> bool {
    forall|i: int| 0 <= i < raws.len() ==> trimmed(#[trigger] raws[i]).len() > 0
}

/// The raw labels, each normalised.
pub open spec fn normalized_all(raws: Seq<Seq<char>>) -> Seq<Seq<char>> {
    raws.map_values(|r: Seq<char>| normalized(r))
}

/// `s` with every element after its first occurrence dropped.
pub open spec fn dedup(s: Seq<Seq<char>>) -> Seq<Seq<char>>
    decreases s.len(),
{
    if s.len() == 0 {
        s
    } else {
        let d = dedup(s.drop_last());
        if d.contains(s.last()) {
            d
        } else {
            d.push(s.last())
        }
    }
}

/// `s` without the elements that occur in `gone`, in order.
pub open spec fn without(s: Seq<Seq<char>>, gone: Seq<Seq<char>>) -> Seq<Seq<char>>
    decreases s.len(),
{
    if s.len() == 0 {
        s
    } else {
        let w = without(s.drop_last(), gone);
        if gone.contains(s.last()) {
            w
        } else {
            w.push(s.last())
        }
    }
}

/// Removing duplicates leaves no two equal labels.
pub proof fn lemma_dedup_distinct(s: Seq<Seq<char>>)
    ensures
        dedup(s).no_duplicates(),
    decreases s.len(),
{
    if s.len() > 0 {
        lemma_dedup_distinct(s.drop_last());
    }
}

/// A sequence with one more element holds what it held before and that element.
pub proof fn lemma_push_contains(s: Seq<Seq<char>>, y: Seq<char>)
    ensures
        forall|x: Seq<char>| #[trigger] s.push(y).contains(x) <==> (s.contains(x) || x == y),
{
    assert forall|x: Seq<char>| #[trigger] s.push(y).contains(x) <==> (s.contains(x) || x == y) by {
        if s.contains(x) {
            let k = choose|k: int| 0 <= k < s.len() && s[k] == x;
            assert(s.push(y)[k] == x);
        }
        if x == y {
            assert(s.push(y)[s.len() as int] == x);
        }
        if s.push(y).contains(x) {
            let k = choose|k: int| 0 <= k < s.len() + 1 && s.push(y)[k] == x;
            if k < s.len() {
                assert(s[k] == x);
            }
        }
    }
}

/// Removing duplicates keeps exactly the labels that were there.
pub proof fn lemma_dedup_same_labels(s: Seq<Seq<char>>)
    ensures
        forall|x: Seq<char>| #[trigger] dedup(s).contains(x) <==> s.contains(x),
    decreases s.len(),
{
    if s.len() > 0 {
        let p = s.drop_last();
        lemma_dedup_same_labels(p);
        lemma_push_contains(p, s.last());
        lemma_push_contains(dedup(p), s.last());
        assert(p.push(s.last()) =~= s);
    }
}

/// Labels that hold no duplicates are left as they are.
pub proof fn lemma_dedup_of_distinct(s: Seq<Seq<char>>)
    requires
        s.no_duplicates(),
    ensures
        dedup(s) == s,
    decreases s.len(),
{
    if s.len() > 0 {
        let p = s.drop_last();
        assert(p.no_duplicates());
        lemma_dedup_of_distinct(p);
        lemma_dedup_same_labels(p);
        if p.contains(s.last()) {
            let k = choose|k: int| 0 <= k < p.len() && p[k] == s.last();
            assert(s[k] == s[s.len() - 1]);
        }
        assert(p.push(s.last()) =~= s);
    }
}

/// Removing labels keeps exactly those not removed, and adds no duplicate.
pub proof fn lemma_without_labels(s: Seq<Seq<char>>, gone: Seq<Seq<char>>)
    ensures
        forall|x: Seq<char>| #[trigger] without(s, gone).contains(x) <==> (s.contains(x) && !gone.contains(x)),
        s.no_duplicates() ==> without(s, gone).no_duplicates(),
    decreases s.len(),
{
    if s.len() > 0 {
        let p = s.drop_last();
        lemma_without_labels(p, gone);
        lemma_push_contains(p, s.last());
        lemma_push_contains(without(p, gone), s.last());
        assert(p.push(s.last()) =~= s);
        if s.no_duplicates() {
            assert(p.no_duplicates());
            if without(p, gone).contains(s.last()) {
                let k = choose|k: int| 0 <= k < p.len() && p[k] == s.last();
                assert(s[k] == s[s.len() - 1]);
            }
        }
    }
}

/// Normalising labels that are already in their stored form changes
/// nothing: when every label is its own normal form and none repeats,
/// `normalize_labels` gives them back as they are.
pub proof fn lemma_normalize_stored_labels(ls: Seq<Seq<char>>)
    requires
        forall|i: int| 0 <= i < ls.len() ==> normalized(#[trigger] ls[i]) == ls[i],
        ls.no_duplicates(),
    ensures
        dedup(normalized_all(ls)) == ls,
{
    assert(normalized_all(ls) =~= ls);
    lemma_dedup_of_distinct(ls);
}

/// Whether `v` holds the text `s`.
pub fn contains_text(v: &Vec<String>, s: &str) -> (r: bool)
    ensures
        r == texts(v@).contains(s@),
{
    let mut i: usize = 0;
    while i < v.len()
        invariant
            0 <= i <= v.len(),
            forall|j: int| 0 <= j < i ==> v@[j]@ != s@,
        decreases v.len() - i,
    {
        if crate::text::str_eq(v[i].as_str(), s) {
            assert(texts(v@)[i as int] == s@);
            return true;
        }
        i = i + 1;
    }
    assert(!texts(v@).contains(s@)) by {
        if texts(v@).contains(s@) {
            let k = choose|k: int| 0 <= k < texts(v@).len() && texts(v@)[k] == s@;
            assert(v@[k]@ == s@);
        }
    }
    false
}

/// Appends `s` to `v` unless `v` holds it already: one step of removing
/// duplicates.
fn push_new(v: &mut Vec<String>, s: String)
    ensures
        texts(final(v)@) == if texts(old(v)@).contains(s@) {
            texts(old(v)@)
        } else {
            texts(old(v)@).push(s@)
        },
{
    if !contains_text(v, s.as_str()) {
        v.push(s);
        assert(texts(v@) =~= texts(old(v)@).push(s@));
    }
}

/// A raw label as stored: trimmed and lower-cased. A blank label is refused.
pub fn normalize_label(raw: &str) -> (r: Result<String, TrackerError>)
    ensures
        match r {
            Ok(l) => l@ == normalized(raw@) && l@.len() > 0 && trimmed(raw@).len() > 0,
            Err(e) => e == TrackerError::EmptyLabel && trimmed(raw@).len() == 0,
        },
{
    let l = lowercase_text(trim_text(raw));
    if l.as_str().is_empty() {
        Err(TrackerError::EmptyLabel)
    } else {
        Ok(l)
    }
}

/// Raw labels normalised and without duplicates, in first-seen order; refused
/// if any of them is empty once trimmed.
pub fn normalize_labels(raws: &Vec<String>) -> (r: Result<Vec<String>, TrackerError>)
    ensures
        match r {
            Ok(v) => all_nonempty(texts(raws@)) && texts(v@) == dedup(normalized_all(texts(raws@))),
            Err(e) => e == TrackerError::EmptyLabel && !all_nonempty(texts(raws@)),
        },
{
    let ghost n = normalized_all(texts(raws@));
    let mut out: Vec<String> = Vec::new();
    let mut i: usize = 0;
    while i < raws.len()
        invariant
            n == normalized_all(texts(raws@)),
            0 <= i <= raws.len(),
            texts(out@) == dedup(n.take(i as int)),
            forall|j: int| 0 <= j < i ==> trimmed(#[trigger] texts(raws@)[j]).len() > 0,
        decreases raws.len() - i,
    {
        match normalize_label(raws[i].as_str()) {
            Ok(l) => {
                assert(n.take(i + 1).drop_last() =~= n.take(i as int));
                assert(n.take(i + 1).last() == l@);
                push_new(&mut out, l);
            },
            Err(e) => {
                assert(trimmed(texts(raws@)[i as int]).len() == 0);
                return Err(e);
            },
        }
        i = i + 1;
    }
    assert(n.take(raws.len() as int) =~= n);
    Ok(out)
}

/// The labels of `current` followed by those of `added`, without duplicates.
pub fn merge_labels(current: &Vec<String>, added: &Vec<String>) -> (r: Vec<String>)
    ensures
        texts(r@) == dedup(texts(current@) + texts(added@)),
{
    let ghost all = texts(current@) + texts(added@);
    let mut out: Vec<String> = Vec::new();
    let mut i: usize = 0;
    while i < current.len()
        invariant
            all == texts(current@) + texts(added@),
            0 <= i <= current.len(),
            texts(out@) == dedup(all.take(i as int)),
        decreases current.len() - i,
    {
        assert(all.take(i + 1).drop_last() =~= all.take(i as int));
        assert(all.take(i + 1).last() == current@[i as int]@);
        push_new(&mut out, current[i].clone());
        i = i + 1;
    }
    let mut k: usize = 0;
    while k < added.len()
        invariant
            all == texts(current@) + texts(added@),
            0 <= k <= added.len(),
            texts(out@) == dedup(all.take((current@.len() + k) as int)),
        decreases added.len() - k,
    {
        let ghost m: int = current@.len() + k;
        assert(all.take(m + 1).drop_last() =~= all.take(m));
        assert(all.take(m + 1).last() == added@[k as int]@);
        push_new(&mut out, added[k].clone());
        k = k + 1;
    }
    assert(all.take((current@.len() + added@.len()) as int) =~= all);
    out
}

/// The labels of `current` that are not in `gone`, in order.
pub fn remove_labels(current: &Vec<String>, gone: &Vec<String>) -> (r: Vec<String>)
    ensures
        texts(r@) == without(texts(current@), texts(gone@)),
{
    let ghost c = texts(current@);
    let mut out: Vec<String> = Vec::new();
    let mut i: usize = 0;
    while i < current.len()
        invariant
            c == texts(current@),
            0 <= i <= current.len(),
            texts(out@) == without(c.take(i as int), texts(gone@)),
        decreases current.len() - i,
    {
        assert(c.take(i + 1).drop_last() =~= c.take(i as int));
        assert(c.take(i + 1).last() == current@[i as int]@);
        if !contains_text(gone, current[i].as_str()) {
            out.push(current[i].clone());
            assert(texts(out@) =~= without(c.take(i as int), texts(gone@)).push(current@[i as int]@));
        }
        i = i + 1;
    }
    assert(c.take(current@.len() as int) =~= c);
    out
}

/// Whether any label of `labels` is one of `wanted`.
pub fn shares_label(labels: &Vec<String>, wanted: &Vec<String>) -> (r: bool)
    ensures
        r == exists|x: Seq<char>| texts(labels@).contains(x) && #[trigger] texts(wanted@).contains(x),
{
    let mut i: usize = 0;
    while i < wanted.len()
        invariant
            0 <= i <= wanted.len(),
            forall|j: int| 0 <= j < i ==> !texts(labels@).contains(#[trigger] texts(wanted@)[j]),
        decreases wanted.len() - i,
    {
        if contains_text(labels, wanted[i].as_str()) {
            assert(texts(wanted@).contains(texts(wanted@)[i as int]));
            return true;
        }
        i = i + 1;
    }
    assert forall|x: Seq<char>| texts(labels@).contains(x) implies !#[trigger] texts(wanted@).contains(x) by {
        if texts(wanted@).contains(x) {
            let k = choose|k: int| 0 <= k < texts(wanted@).len() && texts(wanted@)[k] == x;
        }
    }
    false
}

} // verus!

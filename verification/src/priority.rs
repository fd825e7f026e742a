use vstd::prelude::*;
use vstd::std_specs::cmp::PartialOrdSpecImpl;
use crate::text::str_eq;
use core::cmp::Ordering;

verus! {

/// How urgent an issue is.
#[derive(Clone, Copy, Debug, PartialEq, Eq, Structural, Ord)]
pub enum Priority {
    Low,
    Medium,
    High,
    Critical,
}

/// The sort rank of a priority: higher is more urgent.
pub open spec fn priority_rank(p: Priority) -> nat {
    match p {
        Priority::Low => 0,
        Priority::Medium => 1,
        Priority::High => 2,
        Priority::Critical => 3,
    }
}

/// How two priorities compare: by rank.
pub open spec fn priority_order(a: Priority, b: Priority) -> Ordering {
    if priority_rank(a) < priority_rank(b) {
        Ordering::Less
    } else if priority_rank(a) == priority_rank(b) {
        Ordering::Equal
    } else {
        Ordering::Greater
    }
}

/// The name under which a priority is written.
pub open spec fn priority_name(p: Priority) -> Seq<char> {
    match p {
        Priority::Low => "low"@,
        Priority::Medium => "medium"@,
        Priority::High => "high"@,
        Priority::Critical => "critical"@,
    }
}

/// The priority a command-line value names: the full name or its first
/// letter (`c`, `h`, `m`, `l`).
pub open spec fn parse_priority(text: Seq<char>) -> Option<Priority> {
    if text == "low"@ || text == "l"@ {
        Some(Priority::Low)
    } else if text == "medium"@ || text == "m"@ {
        Some(Priority::Medium)
    } else if text == "high"@ || text == "h"@ {
        Some(Priority::High)
    } else if text == "critical"@ || text == "c"@ {
        Some(Priority::Critical)
    } else {
        None
    }
}

impl Priority {
    /// Explicit sort rank: higher is more urgent. This, not the enum's
    /// declaration order, defines how priorities sort.
    pub fn rank(&self) -> (r: u8)
        ensures
            r == priority_rank(*self),
    {
        match self {
            Priority::Low => 0,
            Priority::Medium => 1,
            Priority::High => 2,
            Priority::Critical => 3,
        }
    }

    /// The priority's name (`low`, `medium`, `high`, `critical`).
    pub fn as_str(&self) -> (r: &'static str)
        ensures
            r@ == priority_name(*self),
    {
        match self {
            Priority::Low => "low",
            Priority::Medium => "medium",
            Priority::High => "high",
            Priority::Critical => "critical",
        }
    }

    /// The priority named by a command-line value or its one-letter alias.
    pub fn parse(text: &str) -> (r: Option<Priority>)
        ensures
            r == parse_priority(text@),
    {
        if str_eq(text, "low") || str_eq(text, "l") {
            Some(Priority::Low)
        } else if str_eq(text, "medium") || str_eq(text, "m") {
            Some(Priority::Medium)
        } else if str_eq(text, "high") || str_eq(text, "h") {
            Some(Priority::High)
        } else if str_eq(text, "critical") || str_eq(text, "c") {
            Some(Priority::Critical)
        } else {
            None
        }
    }
}

impl PartialOrd for Priority {
    fn partial_cmp(&self, other: &Priority) -> (r: Option<Ordering>) {
        let a = self.rank();
        let b = other.rank();
        if a < b {
            Some(Ordering::Less)
        } else if a == b {
            Some(Ordering::Equal)
        } else {
            Some(Ordering::Greater)
        }
    }
}

impl PartialOrdSpecImpl for Priority {
    open spec fn obeys_partial_cmp_spec() -> bool {
        true
    }

    open spec fn partial_cmp_spec(&self, other: &Priority) -> Option<Ordering> {
        Some(priority_order(*self, *other))
    }
}

/// Priorities are ordered by rank: equal only when they are the same
/// priority, and the order is antisymmetric and transitive.
pub proof fn lemma_priority_order(a: Priority, b: Priority, c: Priority)
    ensures
        priority_order(a, b) == Ordering::Equal <==> a == b,
        priority_order(a, b) == Ordering::Less <==> priority_order(b, a) == Ordering::Greater,
        priority_order(a, b) == Ordering::Less && priority_order(b, c) == Ordering::Less
            ==> priority_order(a, c) == Ordering::Less,
        priority_order(Priority::Low, Priority::Medium) == Ordering::Less,
        priority_order(Priority::Medium, Priority::High) == Ordering::Less,
        priority_order(Priority::High, Priority::Critical) == Ordering::Less,
{
}

/// A priority's name, and its first letter, read back as that priority.
pub proof fn lemma_priority_name_round_trip(p: Priority)
    ensures
        parse_priority(priority_name(p)) == Some(p),
        parse_priority(seq![priority_name(p)[0]]) == Some(p),
{
    reveal_strlit("low");
    reveal_strlit("medium");
    reveal_strlit("high");
    reveal_strlit("critical");
    reveal_strlit("l");
    reveal_strlit("m");
    reveal_strlit("h");
    reveal_strlit("c");
    assert("l"@ =~= seq!['l']);
    assert("m"@ =~= seq!['m']);
    assert("h"@ =~= seq!['h']);
    assert("c"@ =~= seq!['c']);
    assert("low"@.len() != "medium"@.len());
    assert("low"@.len() != "high"@.len());
    assert("low"@.len() != "critical"@.len());
    assert("medium"@.len() != "high"@.len());
    assert("medium"@.len() != "critical"@.len());
    assert("high"@.len() != "critical"@.len());
    let first = seq![priority_name(p)[0]];
    assert(first.len() == 1);
    match p {
        Priority::Low => assert(first =~= "l"@),
        Priority::Medium => {
            assert(first =~= "m"@);
            assert(first[0] != "l"@[0] && first.len() != "low"@.len());
        },
        Priority::High => {
            assert(first =~= "h"@);
            assert(first[0] != "l"@[0] && first[0] != "m"@[0]);
        },
        Priority::Critical => {
            assert(first =~= "c"@);
            assert(first[0] != "l"@[0] && first[0] != "m"@[0] && first[0] != "h"@[0]);
        },
    }
}

} // verus!

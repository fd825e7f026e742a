use vstd::prelude::*;
use crate::text::str_eq;

verus! {

/// Where an issue stands in its lifecycle.
#[derive(Clone, Copy, Debug, PartialEq, Eq, Structural)]
pub enum Status {
    Open,
    InProgress,
    Done,
    Closed,
}

/// The statuses that `from` may move to, in the order the tool lists them.
pub open spec fn next_statuses(from: Status) -> Seq<Status> {
    match from {
        Status::Open => seq![Status::InProgress, Status::Closed],
        Status::InProgress => seq![Status::Open, Status::Done, Status::Closed],
        Status::Done => seq![Status::InProgress, Status::Closed],
        Status::Closed => seq![Status::Open],
    }
}

/// A move from `from` to `to` is allowed.
pub open spec fn transition_allowed(from: Status, to: Status) -> bool {
    next_statuses(from).contains(to)
}

/// The name under which a status is written and accepted on the command line.
pub open spec fn status_name(s: Status) -> Seq<char> {
    match s {
        Status::Open => "open"@,
        Status::InProgress => "in-progress"@,
        Status::Done => "done"@,
        Status::Closed => "closed"@,
    }
}

/// The status a command-line value names, if any.
pub open spec fn parse_status(text: Seq<char>) -> Option<Status> {
    if text == "open"@ {
        Some(Status::Open)
    } else if text == "in-progress"@ {
        Some(Status::InProgress)
    } else if text == "done"@ {
        Some(Status::Done)
    } else if text == "closed"@ {
        Some(Status::Closed)
    } else {
        None
    }
}

impl Status {
    /// The status's name (`open`, `in-progress`, `done`, `closed`).
    pub fn as_str(&self) -> (r: &'static str)
        ensures
            r@ == status_name(*self),
    {
        match self {
            Status::Open => "open",
            Status::InProgress => "in-progress",
            Status::Done => "done",
            Status::Closed => "closed",
        }
    }

    /// The status named by a command-line value.
    pub fn parse(text: &str) -> (r: Option<Status>)
        ensures
            r == parse_status(text@),
    {
        if str_eq(text, "open") {
            Some(Status::Open)
        } else if str_eq(text, "in-progress") {
            Some(Status::InProgress)
        } else if str_eq(text, "done") {
            Some(Status::Done)
        } else if str_eq(text, "closed") {
            Some(Status::Closed)
        } else {
            None
        }
    }

    /// Statuses this one may transition to (adjacent-only flow).
    pub fn allowed_next(&self) -> (r: Vec<Status>)
        ensures
            r@ == next_statuses(*self),
    {
        let r = match self {
            Status::Open => vec![Status::InProgress, Status::Closed],
            Status::InProgress => vec![Status::Open, Status::Done, Status::Closed],
            Status::Done => vec![Status::InProgress, Status::Closed],
            Status::Closed => vec![Status::Open],
        };
        assert(r@ =~= next_statuses(*self));
        r
    }

    pub fn can_transition_to(&self, next: &Status) -> (r: bool)
        ensures
            r == transition_allowed(*self, *next),
    {
        let allowed = self.allowed_next();
        let mut i: usize = 0;
        while i < allowed.len()
            invariant
                allowed@ == next_statuses(*self),
                0 <= i <= allowed.len(),
                forall|j: int| 0 <= j < i ==> allowed@[j] != *next,
            decreases allowed.len() - i,
        {
            if allowed[i] == *next {
                return true;
            }
            i = i + 1;
        }
        false
    }
}

/// A status's place on the work chain open - in-progress - done.
pub open spec fn chain_place(s: Status) -> int {
    match s {
        Status::Open => 0,
        Status::InProgress => 1,
        Status::Done => 2,
        Status::Closed => -1,
    }
}

/// The status flow in words: a move along the chain goes one step at a time
/// in either direction; any status but closed may be closed; a closed issue
/// may only be reopened.
pub open spec fn flow_allows(from: Status, to: Status) -> bool {
    ||| from != Status::Closed && to == Status::Closed
    ||| from == Status::Closed && to == Status::Open
    ||| from != Status::Closed && to != Status::Closed && (chain_place(to) == chain_place(from) + 1
        || chain_place(from) == chain_place(to) + 1)
}

/// `allowed_next` is exactly the status flow.
pub proof fn lemma_flow(from: Status, to: Status)
    ensures
        transition_allowed(from, to) <==> flow_allows(from, to),
{
    let n = next_statuses(from);
    if flow_allows(from, to) {
        match from {
            Status::Open => {
                if to == Status::InProgress { assert(n[0] == to); } else { assert(n[1] == to); }
            },
            Status::InProgress => {
                if to == Status::Open { assert(n[0] == to); } else if to == Status::Done { assert(n[1] == to); } else { assert(n[2] == to); }
            },
            Status::Done => {
                if to == Status::InProgress { assert(n[0] == to); } else { assert(n[1] == to); }
            },
            Status::Closed => {
                assert(n[0] == to);
            },
        }
    }
}

/// No status may move to itself: an update to the current status is refused.
pub proof fn lemma_no_self_move(s: Status)
    ensures
        !transition_allowed(s, s),
{
    lemma_flow(s, s);
}

/// Along the work chain every allowed move can be taken back.
pub proof fn lemma_chain_moves_reverse(a: Status, b: Status)
    requires
        a != Status::Closed,
        b != Status::Closed,
    ensures
        transition_allowed(a, b) <==> transition_allowed(b, a),
{
    lemma_flow(a, b);
    lemma_flow(b, a);
}

/// Every status but closed can be closed, and a closed issue can be reopened.
pub proof fn lemma_close_and_reopen_moves(s: Status)
    ensures
        s != Status::Closed ==> transition_allowed(s, Status::Closed),
        transition_allowed(Status::Closed, Status::Open),
{
    lemma_flow(s, Status::Closed);
    lemma_flow(Status::Closed, Status::Open);
}

/// A status's name reads back as that status.
pub proof fn lemma_status_name_round_trip(s: Status)
    ensures
        parse_status(status_name(s)) == Some(s),
{
    reveal_strlit("open");
    reveal_strlit("in-progress");
    reveal_strlit("done");
    reveal_strlit("closed");
    assert("open"@.len() != "in-progress"@.len());
    assert("open"@[0] != "done"@[0]);
    assert("open"@.len() != "closed"@.len());
    assert("in-progress"@.len() != "done"@.len());
    assert("in-progress"@.len() != "closed"@.len());
    assert("done"@.len() != "closed"@.len());
}

} // verus!

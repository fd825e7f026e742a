//! The text the tracker prints, as lines of styled segments. Which colour a
//! style stands for is left to the terminal front end.
use vstd::prelude::*;
use crate::clock::{utc_minute_text, format_utc_minute};
use crate::issue::{Issue, IssueView, Timestamp, opt_text};
use crate::labels::texts;
use crate::priority::{Priority, priority_name};
use crate::status::{Status, status_name};
use crate::text::{padded, decimal, joined, owned, decimal_text, pad_right, join};
use crate::error::{TrackerError, error_message};
use crate::query::ListFilter;
use crate::width::{display_width, fitted_title, fit_title, text_width};

verus! {

/// How a segment of output is shown.
#[derive(Clone, Copy, Debug, PartialEq, Eq, Structural)]
pub enum Style {
    Plain,
    Bold,
    Dim,
    /// A confirmation that something was done.
    Success,
    /// A status name, coloured by status.
    StatusColor(Status),
    /// A priority name, coloured by priority.
    PriorityColor(Priority),
    /// The `error:` tag in front of an error message.
    ErrorTag,
}

/// A terminal colour.
#[derive(Clone, Copy, Debug, PartialEq, Eq, Structural)]
pub enum Color {
    Red,
    Green,
    Yellow,
    Cyan,
}

/// How a style is painted on a terminal.
#[derive(Clone, Copy, Debug, PartialEq, Eq, Structural)]
pub struct Look {
    pub color: Option<Color>,
    pub bold: bool,
    pub dim: bool,
    pub underline: bool,
}

/// The look of each style: in-progress cyan, done green, closed dimmed;
/// critical red, bold and underlined, high red and bold, medium yellow, low
/// dimmed; confirmations green; the error tag red and bold.
pub open spec fn look_of(style: Style) -> Look {
    let plain = Look { color: None, bold: false, dim: false, underline: false };
    match style {
        Style::Plain => plain,
        Style::Bold => Look { bold: true, ..plain },
        Style::Dim => Look { dim: true, ..plain },
        Style::Success => Look { color: Some(Color::Green), ..plain },
        Style::ErrorTag => Look { color: Some(Color::Red), bold: true, ..plain },
        Style::StatusColor(Status::Open) => plain,
        Style::StatusColor(Status::InProgress) => Look { color: Some(Color::Cyan), ..plain },
        Style::StatusColor(Status::Done) => Look { color: Some(Color::Green), ..plain },
        Style::StatusColor(Status::Closed) => Look { dim: true, ..plain },
        Style::PriorityColor(Priority::Critical) => Look {
            color: Some(Color::Red),
            bold: true,
            underline: true,
            ..plain
        },
        Style::PriorityColor(Priority::High) => Look { color: Some(Color::Red), bold: true, ..plain },
        Style::PriorityColor(Priority::Medium) => Look { color: Some(Color::Yellow), ..plain },
        Style::PriorityColor(Priority::Low) => Look { dim: true, ..plain },
    }
}

/// How a style is painted.
pub fn look(style: Style) -> (r: Look)
    ensures
        r == look_of(style),
{
    let plain = Look { color: None, bold: false, dim: false, underline: false };
    match style {
        Style::Plain => plain,
        Style::Bold => Look { bold: true, ..plain },
        Style::Dim => Look { dim: true, ..plain },
        Style::Success => Look { color: Some(Color::Green), ..plain },
        Style::ErrorTag => Look { color: Some(Color::Red), bold: true, ..plain },
        Style::StatusColor(Status::Open) => plain,
        Style::StatusColor(Status::InProgress) => Look { color: Some(Color::Cyan), ..plain },
        Style::StatusColor(Status::Done) => Look { color: Some(Color::Green), ..plain },
        Style::StatusColor(Status::Closed) => Look { dim: true, ..plain },
        Style::PriorityColor(Priority::Critical) => Look {
            color: Some(Color::Red),
            bold: true,
            underline: true,
            ..plain
        },
        Style::PriorityColor(Priority::High) => Look { color: Some(Color::Red), bold: true, ..plain },
        Style::PriorityColor(Priority::Medium) => Look { color: Some(Color::Yellow), ..plain },
        Style::PriorityColor(Priority::Low) => Look { dim: true, ..plain },
    }
}

/// A piece of a line with its style.
#[derive(Debug)]
pub struct Segment {
    pub text: String,
    pub style: Style,
}

/// The texts and styles of a line's segments.
pub open spec fn spans(line: Seq<Segment>) -> Seq<(Seq<char>, Style)> {
    line.map_values(|s: Segment| (s.text@, s.style))
}

/// The lines' spans.
pub open spec fn lines_spans(lines: Seq<Vec<Segment>>) -> Seq<Seq<(Seq<char>, Style)>> {
    lines.map_values(|l: Vec<Segment>| spans(l@))
}

/// The length of the longest text.
pub open spec fn widest(names: Seq<Seq<char>>) -> nat
    decreases names.len(),
{
    if names.len() == 0 {
        0
    } else {
        let w = widest(names.drop_last());
        if names.last().len() > w {
            names.last().len()
        } else {
            w
        }
    }
}

/// The width of the status column: the longest status name.
pub open spec fn status_width() -> nat {
    widest(
        seq![
            status_name(Status::Open),
            status_name(Status::InProgress),
            status_name(Status::Done),
            status_name(Status::Closed),
        ],
    )
}

/// The width of the priority column: the longest priority name.
pub open spec fn priority_width() -> nat {
    widest(
        seq![
            priority_name(Priority::Low),
            priority_name(Priority::Medium),
            priority_name(Priority::High),
            priority_name(Priority::Critical),
        ],
    )
}

/// The width of the id column: the longest id among the listed issues.
pub open spec fn id_width(issues: Seq<IssueView>, order: Seq<usize>) -> nat {
    widest(order.map_values(|k: usize| decimal(issues[k as int].id as nat)))
}

/// ` [a, b]` for labels `a`, `b`; nothing when there are none.
pub open spec fn labels_suffix(labels: Seq<Seq<char>>) -> Seq<char> {
    if labels.len() == 0 {
        Seq::empty()
    } else {
        " ["@ + joined(labels, ", "@) + "]"@
    }
}

/// The parts of a `list` row around the title (the id, status and priority
/// columns before it, the labels after it), joined, for measuring.
pub open spec fn row_frame(i: IssueView, id_w: nat) -> Seq<char> {
    "#"@ + padded(decimal(i.id as nat), id_w) + " "@ + padded(status_name(i.status), status_width())
        + " "@ + padded(priority_name(i.priority), priority_width()) + " "@ + labels_suffix(
        i.labels,
    )
}

/// The title as a row shows it: whole when the output is not a terminal
/// (`columns` is `None`), else fitted into the columns the rest of the row
/// leaves.
pub open spec fn row_title(i: IssueView, id_w: nat, columns: Option<nat>) -> Seq<char> {
    match columns {
        None => i.title,
        Some(c) => fitted_title(
            i.title,
            if c > display_width(row_frame(i, id_w)) {
                (c - display_width(row_frame(i, id_w))) as nat
            } else {
                0
            },
        ),
    }
}

/// One row of `list`.
pub open spec fn row_spans(i: IssueView, id_w: nat, columns: Option<nat>) -> Seq<(Seq<char>, Style)> {
    seq![
        ("#"@ + padded(decimal(i.id as nat), id_w) + " "@, Style::Plain),
        (padded(status_name(i.status), status_width()), Style::StatusColor(i.status)),
        (" "@, Style::Plain),
        (padded(priority_name(i.priority), priority_width()), Style::PriorityColor(i.priority)),
        (" "@ + row_title(i, id_w, columns), Style::Plain),
        (labels_suffix(i.labels), Style::Dim),
    ]
}

/// How an instant is shown: chrono's rendering, or `unknown` when chrono has
/// no such instant.
pub open spec fn time_text(t: Timestamp) -> Seq<char> {
    match utc_minute_text(t.secs, t.nanos) {
        Some(s) => s,
        None => "unknown"@,
    }
}

/// The lines of `show`.
pub open spec fn show_spans(i: IssueView) -> Seq<Seq<(Seq<char>, Style)>> {
    let head = seq![
        seq![("#"@ + decimal(i.id as nat) + " "@ + i.title, Style::Bold)],
        seq![("Status:   "@, Style::Plain), (status_name(i.status), Style::StatusColor(i.status))],
        seq![
            ("Priority: "@, Style::Plain),
            (priority_name(i.priority), Style::PriorityColor(i.priority)),
        ],
        if i.labels.len() == 0 {
            seq![("Labels:   "@, Style::Plain), ("none"@, Style::Dim)]
        } else {
            seq![("Labels:   "@, Style::Plain), (joined(i.labels, ", "@), Style::Plain)]
        },
    ];
    let desc = match i.description {
        Some(d) => seq![seq![("Description: "@ + d, Style::Plain)]],
        None => Seq::empty(),
    };
    let tail = seq![
        seq![("Created:  "@, Style::Plain), (time_text(i.created_at), Style::Dim)],
        seq![
            ("Updated:  "@, Style::Plain),
            (
                match i.updated_at {
                    Some(t) => time_text(t),
                    None => "never"@,
                },
                Style::Dim,
            ),
        ],
    ];
    head + desc + tail
}

fn seg(text: String, style: Style) -> (r: Segment)
    ensures
        r.text@ == text@,
        r.style == style,
{
    Segment { text, style }
}

/// The longest of the texts' lengths.
fn widest_of(names: &Vec<String>) -> (r: usize)
    ensures
        r == widest(texts(names@)),
{
    let ghost ns = texts(names@);
    let mut w: usize = 0;
    let mut k: usize = 0;
    while k < names.len()
        invariant
            ns == texts(names@),
            0 <= k <= names.len(),
            w == widest(ns.take(k as int)),
        decreases names.len() - k,
    {
        assert(ns.take(k + 1).drop_last() =~= ns.take(k as int));
        let l = names[k].as_str().unicode_len();
        if l > w {
            w = l;
        }
        k = k + 1;
    }
    assert(ns.take(names.len() as int) =~= ns);
    w
}

/// The width of the status column.
pub fn status_column_width() -> (r: usize)
    ensures
        r == status_width(),
{
    let names = vec![
        owned(Status::Open.as_str()),
        owned(Status::InProgress.as_str()),
        owned(Status::Done.as_str()),
        owned(Status::Closed.as_str()),
    ];
    assert(texts(names@) =~= seq![
        status_name(Status::Open),
        status_name(Status::InProgress),
        status_name(Status::Done),
        status_name(Status::Closed),
    ]);
    widest_of(&names)
}

/// The width of the priority column.
pub fn priority_column_width() -> (r: usize)
    ensures
        r == priority_width(),
{
    let names = vec![
        owned(Priority::Low.as_str()),
        owned(Priority::Medium.as_str()),
        owned(Priority::High.as_str()),
        owned(Priority::Critical.as_str()),
    ];
    assert(texts(names@) =~= seq![
        priority_name(Priority::Low),
        priority_name(Priority::Medium),
        priority_name(Priority::High),
        priority_name(Priority::Critical),
    ]);
    widest_of(&names)
}

/// The width of the id column for the listed positions `order`.
pub fn id_column_width(issues: &Vec<Issue>, order: &Vec<usize>) -> (r: usize)
    requires
        forall|k: int| 0 <= k < order@.len() ==> #[trigger] order@[k] < issues@.len(),
    ensures
        r == id_width(issues@.map_values(|i: Issue| i@), order@),
{
    let ghost views = issues@.map_values(|i: Issue| i@);
    let mut ids: Vec<String> = Vec::new();
    let mut k: usize = 0;
    while k < order.len()
        invariant
            views == issues@.map_values(|i: Issue| i@),
            forall|j: int| 0 <= j < order@.len() ==> #[trigger] order@[j] < issues@.len(),
            0 <= k <= order.len(),
            ids@.len() == k,
            forall|j: int| 0 <= j < k ==> #[trigger] ids@[j]@ == decimal(views[order@[j] as int].id as nat),
        decreases order.len() - k,
    {
        ids.push(decimal_text(issues[order[k]].id));
        k = k + 1;
    }
    assert(texts(ids@) =~= order@.map_values(|k: usize| decimal(views[k as int].id as nat)));
    widest_of(&ids)
}

/// The row that `list` prints for an issue, with the id column `id_w` wide;
/// on a terminal `columns` wide, the title is cut to fit.
pub fn list_row(issue: &Issue, id_w: usize, columns: Option<usize>) -> (r: Vec<Segment>)
    ensures
        spans(r@) == row_spans(
            issue@,
            id_w as nat,
            match columns {
                Some(c) => Some(c as nat),
                None => None,
            },
        ),
{
    let mut head = owned("#");
    head.append(pad_right(decimal_text(issue.id).as_str(), id_w).as_str());
    head.append(" ");
    let status = pad_right(issue.status.as_str(), status_column_width());
    let priority = pad_right(issue.priority.as_str(), priority_column_width());
    let suffix = if issue.labels.len() == 0 {
        String::new()
    } else {
        let mut s = owned(" [");
        s.append(join(&issue.labels, ", ").as_str());
        s.append("]");
        s
    };
    let mut title = owned(" ");
    match columns {
        None => title.append(issue.title.as_str()),
        Some(c) => {
            let mut frame = owned(head.as_str());
            frame.append(status.as_str());
            frame.append(" ");
            frame.append(priority.as_str());
            frame.append(" ");
            frame.append(suffix.as_str());
            assert(frame@ =~= row_frame(issue@, id_w as nat));
            let used = text_width(frame.as_str());
            let room = if c > used {
                c - used
            } else {
                0
            };
            title.append(fit_title(issue.title.as_str(), room).as_str());
        },
    }
    let r = vec![
        seg(head, Style::Plain),
        seg(status, Style::StatusColor(issue.status)),
        seg(owned(" "), Style::Plain),
        seg(priority, Style::PriorityColor(issue.priority)),
        seg(title, Style::Plain),
        seg(suffix, Style::Dim),
    ];
    assert(spans(r@) =~= row_spans(
        issue@,
        id_w as nat,
        match columns {
            Some(c) => Some(c as nat),
            None => None,
        },
    ));
    r
}

/// How an instant is shown.
pub fn time_line_text(t: Timestamp) -> (r: String)
    ensures
        r@ == time_text(t),
{
    match format_utc_minute(t) {
        Some(s) => s,
        None => owned("unknown"),
    }
}

/// The lines that `show` prints for an issue.
pub fn show_lines(issue: &Issue) -> (r: Vec<Vec<Segment>>)
    ensures
        lines_spans(r@) == show_spans(issue@),
{
    let mut head = owned("#");
    head.append(decimal_text(issue.id).as_str());
    head.append(" ");
    head.append(issue.title.as_str());
    let l1 = vec![seg(head, Style::Bold)];
    let l2 = vec![seg(owned("Status:   "), Style::Plain), seg(owned(issue.status.as_str()), Style::StatusColor(issue.status))];
    let l3 = vec![
        seg(owned("Priority: "), Style::Plain),
        seg(owned(issue.priority.as_str()), Style::PriorityColor(issue.priority)),
    ];
    let l4 = if issue.labels.len() == 0 {
        vec![seg(owned("Labels:   "), Style::Plain), seg(owned("none"), Style::Dim)]
    } else {
        vec![seg(owned("Labels:   "), Style::Plain), seg(join(&issue.labels, ", "), Style::Plain)]
    };
    let ghost v1 = spans(l1@);
    let ghost v2 = spans(l2@);
    let ghost v3 = spans(l3@);
    let ghost v4 = spans(l4@);
    let mut r: Vec<Vec<Segment>> = vec![l1, l2, l3, l4];
    let ghost head_spans = seq![v1, v2, v3, v4];
    assert(lines_spans(r@) =~= head_spans);
    match &issue.description {
        Some(d) => {
            let mut t = owned("Description: ");
            t.append(d.as_str());
            let l = vec![seg(t, Style::Plain)];
            let ghost vl = spans(l@);
            assert(vl =~= seq![("Description: "@ + d@, Style::Plain)]);
            r.push(l);
            assert(lines_spans(r@) =~= head_spans.push(vl));
        },
        None => {},
    }
    let ghost mid = lines_spans(r@);
    let ghost desc = match issue@.description {
        Some(d) => seq![seq![("Description: "@ + d, Style::Plain)]],
        None => Seq::empty(),
    };
    assert(mid =~= head_spans + desc);
    let l6 = vec![seg(owned("Created:  "), Style::Plain), seg(time_line_text(issue.created_at), Style::Dim)];
    let updated = match issue.updated_at {
        Some(t) => time_line_text(t),
        None => owned("never"),
    };
    let l7 = vec![seg(owned("Updated:  "), Style::Plain), seg(updated, Style::Dim)];
    let ghost v6 = spans(l6@);
    let ghost v7 = spans(l7@);
    r.push(l6);
    r.push(l7);
    assert(lines_spans(r@) =~= mid + seq![v6, v7]);
    let ghost i = issue@;
    assert(v1 =~= seq![("#"@ + decimal(i.id as nat) + " "@ + i.title, Style::Bold)]);
    assert(v2 =~= seq![("Status:   "@, Style::Plain), (status_name(i.status), Style::StatusColor(i.status))]);
    assert(v3 =~= seq![("Priority: "@, Style::Plain), (priority_name(i.priority), Style::PriorityColor(i.priority))]);
    assert(v4 =~= if i.labels.len() == 0 {
            seq![("Labels:   "@, Style::Plain), ("none"@, Style::Dim)]
        } else {
            seq![("Labels:   "@, Style::Plain), (joined(i.labels, ", "@), Style::Plain)]
        });
    assert(v6 =~= seq![("Created:  "@, Style::Plain), (time_text(i.created_at), Style::Dim)]);
    assert(v7 =~= seq![
            ("Updated:  "@, Style::Plain),
            (
                match i.updated_at {
                    Some(t) => time_text(t),
                    None => "never"@,
                },
                Style::Dim,
            ),
        ]);
    assert(head_spans =~= seq![
        seq![("#"@ + decimal(i.id as nat) + " "@ + i.title, Style::Bold)],
        seq![("Status:   "@, Style::Plain), (status_name(i.status), Style::StatusColor(i.status))],
        seq![
            ("Priority: "@, Style::Plain),
            (priority_name(i.priority), Style::PriorityColor(i.priority)),
        ],
        if i.labels.len() == 0 {
            seq![("Labels:   "@, Style::Plain), ("none"@, Style::Dim)]
        } else {
            seq![("Labels:   "@, Style::Plain), (joined(i.labels, ", "@), Style::Plain)]
        },
    ]);
    assert(lines_spans(r@) =~= show_spans(issue@));
    r
}

/// A one-segment line `prefix` followed by the id.
fn id_line(prefix: &str, id: u32, style: Style) -> (r: Vec<Segment>)
    ensures
        spans(r@) == seq![(prefix@ + decimal(id as nat), style)],
{
    let mut t = owned(prefix);
    t.append(decimal_text(id).as_str());
    let r = vec![seg(t, style)];
    assert(spans(r@) =~= seq![(prefix@ + decimal(id as nat), style)]);
    r
}

/// The line printed after `create`.
pub fn created_message(id: u32, title: &str) -> (r: Vec<Segment>)
    ensures
        spans(r@) == seq![("Created issue #"@ + decimal(id as nat) + ": "@ + title@, Style::Success)],
{
    let mut t = owned("Created issue #");
    t.append(decimal_text(id).as_str());
    t.append(": ");
    t.append(title);
    let r = vec![seg(t, Style::Success)];
    assert(spans(r@) =~= seq![("Created issue #"@ + decimal(id as nat) + ": "@ + title@, Style::Success)]);
    r
}

/// The line printed after `update`.
pub fn updated_message(id: u32) -> (r: Vec<Segment>)
    ensures
        spans(r@) == seq![("Updated issue #"@ + decimal(id as nat), Style::Success)],
{
    id_line("Updated issue #", id, Style::Success)
}

/// The line printed after `edit`.
pub fn described_message(id: u32) -> (r: Vec<Segment>)
    ensures
        spans(r@) == seq![("Updated description of issue #"@ + decimal(id as nat), Style::Success)],
{
    id_line("Updated description of issue #", id, Style::Success)
}

/// The line printed after `close`.
pub fn closed_message(id: u32) -> (r: Vec<Segment>)
    ensures
        spans(r@) == seq![("Closed issue #"@ + decimal(id as nat), Style::Success)],
{
    id_line("Closed issue #", id, Style::Success)
}

/// The line printed after `reopen`.
pub fn reopened_message(id: u32) -> (r: Vec<Segment>)
    ensures
        spans(r@) == seq![("Reopened issue #"@ + decimal(id as nat), Style::Success)],
{
    id_line("Reopened issue #", id, Style::Success)
}

/// The line printed after `delete`.
pub fn deleted_message(id: u32) -> (r: Vec<Segment>)
    ensures
        spans(r@) == seq![("Deleted issue #"@ + decimal(id as nat), Style::Success)],
{
    id_line("Deleted issue #", id, Style::Success)
}

/// The line printed when a delete is not confirmed.
pub fn aborted_message() -> (r: Vec<Segment>)
    ensures
        spans(r@) == seq![("Aborted"@, Style::Dim)],
{
    let r = vec![seg(owned("Aborted"), Style::Dim)];
    assert(spans(r@) =~= seq![("Aborted"@, Style::Dim)]);
    r
}

/// The question `delete` asks before it removes an issue.
pub fn delete_prompt(id: u32, title: &str) -> (r: Vec<Segment>)
    ensures
        spans(r@) == seq![("Delete issue #"@ + decimal(id as nat) + " \""@ + title@ + "\"? [y/N] "@, Style::Plain)],
{
    let mut t = owned("Delete issue #");
    t.append(decimal_text(id).as_str());
    t.append(" \"");
    t.append(title);
    t.append("\"? [y/N] ");
    let r = vec![seg(t, Style::Plain)];
    assert(spans(r@) =~= seq![("Delete issue #"@ + decimal(id as nat) + " \""@ + title@ + "\"? [y/N] "@, Style::Plain)]);
    r
}

/// The line printed after `init`.
pub fn initialized_message(dir: &str) -> (r: Vec<Segment>)
    ensures
        spans(r@) == seq![("Initialized tracker in "@ + dir@, Style::Success)],
{
    let mut t = owned("Initialized tracker in ");
    t.append(dir);
    let r = vec![seg(t, Style::Success)];
    assert(spans(r@) =~= seq![("Initialized tracker in "@ + dir@, Style::Success)]);
    r
}

/// Some filter was given.
pub open spec fn is_filtered(statuses: Seq<Status>, priorities: Seq<Priority>, labels: Seq<String>) -> bool {
    statuses.len() > 0 || priorities.len() > 0 || labels.len() > 0
}

/// The line `list` prints when no issue is shown.
pub fn empty_list_message(f: &ListFilter) -> (r: Vec<Segment>)
    ensures
        spans(r@) == if is_filtered(f.statuses@, f.priorities@, f.labels@) {
            seq![("No issues match your filters."@, Style::Dim)]
        } else {
            seq![("No open issues. Nice work!"@, Style::Success)]
        },
{
    let r = if f.statuses.len() > 0 || f.priorities.len() > 0 || f.labels.len() > 0 {
        vec![seg(owned("No issues match your filters."), Style::Dim)]
    } else {
        vec![seg(owned("No open issues. Nice work!"), Style::Success)]
    };
    assert(spans(r@) =~= if is_filtered(f.statuses@, f.priorities@, f.labels@) {
        seq![("No issues match your filters."@, Style::Dim)]
    } else {
        seq![("No open issues. Nice work!"@, Style::Success)]
    });
    r
}

/// The line printed for a refused command.
pub fn error_line(e: &TrackerError) -> (r: Vec<Segment>)
    ensures
        spans(r@) == seq![("error:"@, Style::ErrorTag), (" "@ + error_message(*e), Style::Plain)],
{
    let mut t = owned(" ");
    t.append(e.message().as_str());
    let r = vec![seg(owned("error:"), Style::ErrorTag), seg(t, Style::Plain)];
    assert(spans(r@) =~= seq![("error:"@, Style::ErrorTag), (" "@ + error_message(*e), Style::Plain)]);
    r
}

} // verus!

//! Checks of the library's functions on concrete values.

use issue_tracker::error::TrackerError;
use issue_tracker::issue::{Issue, IssueUpdate, LabelEdit, Timestamp};
use issue_tracker::labels::{merge_labels, normalize_label, normalize_labels, remove_labels, shares_label};
use issue_tracker::priority::Priority;
use issue_tracker::prompt::{choose_editor, is_confirmation};
use issue_tracker::query::ListFilter;
use issue_tracker::render::{self, look, Color, Look, Segment, Style};
use issue_tracker::status::Status;
use issue_tracker::storage::{
    issues_path, join_path, lock_path, nearest_tracker, resolve_loaded, temp_path, tracker_dir_in,
};
use issue_tracker::store::Store;
use issue_tracker::text::{decimal_text, eq_ignore_ascii_case, join, pad_right, str_eq};
use issue_tracker::width::fit_title;

const T0: Timestamp = Timestamp { secs: 1767225600, nanos: 0 };
const T1: Timestamp = Timestamp { secs: 1767229260, nanos: 5 };

fn s(v: &[&str]) -> Vec<String> {
    v.iter().map(|x| x.to_string()).collect()
}

fn text(line: &[Segment]) -> String {
    line.iter().map(|x| x.text.as_str()).collect()
}

fn keep() -> IssueUpdate {
    IssueUpdate { title: None, description: None, status: None, priority: None, labels: LabelEdit::Keep }
}

fn with_status(st: Status) -> IssueUpdate {
    IssueUpdate { status: Some(st), ..keep() }
}

fn issue(id: u32, title: &str, status: Status, priority: Priority) -> Issue {
    Issue {
        id,
        title: title.to_string(),
        description: None,
        status,
        priority,
        labels: vec![],
        created_at: T0,
        updated_at: None,
    }
}

const ALL: [Status; 4] = [Status::Open, Status::InProgress, Status::Done, Status::Closed];

#[test]
fn allowed_next_is_the_adjacent_flow() {
    assert_eq!(Status::Open.allowed_next(), vec![Status::InProgress, Status::Closed]);
    assert_eq!(Status::InProgress.allowed_next(), vec![Status::Open, Status::Done, Status::Closed]);
    assert_eq!(Status::Done.allowed_next(), vec![Status::InProgress, Status::Closed]);
    assert_eq!(Status::Closed.allowed_next(), vec![Status::Open]);
}

#[test]
fn no_status_moves_to_itself_and_all_but_closed_can_close() {
    for s in ALL {
        assert!(!s.can_transition_to(&s));
        if s != Status::Closed {
            assert!(s.can_transition_to(&Status::Closed));
        }
    }
    assert!(Status::Closed.can_transition_to(&Status::Open));
    assert!(!Status::Closed.can_transition_to(&Status::Done));
    assert!(!Status::Open.can_transition_to(&Status::Done));
    assert!(!Status::Done.can_transition_to(&Status::Open));
}

#[test]
fn chain_moves_can_be_reversed() {
    for a in [Status::Open, Status::InProgress, Status::Done] {
        for b in [Status::Open, Status::InProgress, Status::Done] {
            assert_eq!(a.can_transition_to(&b), b.can_transition_to(&a));
        }
    }
}

#[test]
fn status_names_round_trip() {
    for s in ALL {
        assert_eq!(Status::parse(s.as_str()), Some(s));
    }
    assert_eq!(Status::InProgress.as_str(), "in-progress");
    assert_eq!(Status::parse("in_progress"), None);
    assert_eq!(Status::parse("Open"), None);
}

#[test]
fn priority_names_and_aliases() {
    for (p, name, alias) in [
        (Priority::Low, "low", "l"),
        (Priority::Medium, "medium", "m"),
        (Priority::High, "high", "h"),
        (Priority::Critical, "critical", "c"),
    ] {
        assert_eq!(p.as_str(), name);
        assert_eq!(Priority::parse(name), Some(p));
        assert_eq!(Priority::parse(alias), Some(p));
    }
    assert_eq!(Priority::parse("x"), None);
    assert_eq!(Priority::parse(""), None);
}

#[test]
fn priorities_order_by_rank() {
    assert_eq!(Priority::Low.rank(), 0);
    assert_eq!(Priority::Critical.rank(), 3);
    assert!(Priority::Low < Priority::Medium);
    assert!(Priority::Medium < Priority::High);
    assert!(Priority::High < Priority::Critical);
    assert_eq!(Priority::High.partial_cmp(&Priority::High), Some(std::cmp::Ordering::Equal));
    assert_eq!(Priority::Critical.partial_cmp(&Priority::Low), Some(std::cmp::Ordering::Greater));
}

#[test]
fn std_text_wrappers() {
    // Through the label normaliser: std's trim and to_lowercase.
    assert_eq!(normalize_label("\t  a B \n").unwrap(), "a b");
    assert_eq!(normalize_label("ÄBC").unwrap(), "äbc");
    assert_eq!(normalize_label("\u{3000}x\u{3000}").unwrap(), "x");
    assert!(str_eq("abc", "abc"));
    assert!(!str_eq("abc", "abd"));
    assert!(eq_ignore_ascii_case("YeS", "yes"));
    assert!(!eq_ignore_ascii_case("yes", "ye"));
    assert!(!eq_ignore_ascii_case("É", "é"));
}

#[test]
fn decimal_padding_and_joining() {
    assert_eq!(decimal_text(0), "0");
    assert_eq!(decimal_text(4294967295), "4294967295");
    assert_eq!(pad_right("ab", 5), "ab   ");
    assert_eq!(pad_right("abcdef", 3), "abcdef");
    assert_eq!(join(&s(&["a", "b", "c"]), ", "), "a, b, c");
    assert_eq!(join(&s(&[]), ", "), "");
}

#[test]
fn labels_are_trimmed_lowercased_and_nonempty() {
    assert_eq!(normalize_label("  Bug ").unwrap(), "bug");
    assert_eq!(normalize_label("   ").unwrap_err(), TrackerError::EmptyLabel);
    assert_eq!(normalize_labels(&s(&["B", "a", "b", " A "])).unwrap(), s(&["b", "a"]));
    assert_eq!(normalize_labels(&s(&["ok", ""])).unwrap_err(), TrackerError::EmptyLabel);
    assert_eq!(normalize_labels(&s(&[])).unwrap(), s(&[]));
}

#[test]
fn merging_and_removing_labels() {
    assert_eq!(merge_labels(&s(&["bug"]), &s(&["bug", "urgent"])), s(&["bug", "urgent"]));
    assert_eq!(remove_labels(&s(&["bug", "urgent", "ui"]), &s(&["urgent", "nope"])), s(&["bug", "ui"]));
    assert!(shares_label(&s(&["a", "b"]), &s(&["c", "b"])));
    assert!(!shares_label(&s(&["a"]), &s(&[])));
}

#[test]
fn create_assigns_counter_ids_and_refuses_bad_input() {
    let mut store = Store::new();
    assert_eq!(store.next_id, 1);
    assert_eq!(store.create("  t  ", Some("  d ".to_string()), Priority::High, &s(&["X"]), T0), Ok(1));
    let i = store.get(1).unwrap();
    assert_eq!(i.title, "t");
    assert_eq!(i.description.as_deref(), Some("  d "));
    assert_eq!(i.labels, s(&["x"]));
    assert_eq!(i.status, Status::Open);
    assert_eq!(i.updated_at, None);
    assert_eq!(store.next_id, 2);
    assert_eq!(store.create(" ", None, Priority::Low, &s(&[]), T0), Err(TrackerError::EmptyTitle));
    assert_eq!(store.create("t", None, Priority::Low, &s(&["a", " "]), T0), Err(TrackerError::EmptyLabel));
    assert_eq!(store.create("t", Some("   ".to_string()), Priority::Low, &s(&[]), T0), Ok(2));
    assert_eq!(store.get(2).unwrap().description.as_deref(), Some("   "));
    assert_eq!(store.create("t", Some(String::new()), Priority::Low, &s(&[]), T0), Ok(3));
    assert_eq!(store.get(3).unwrap().description, None);
    assert_eq!(store.issues.len(), 3);
    let mut full = Store { next_id: u32::MAX, issues: vec![] };
    assert_eq!(full.create("t", None, Priority::Low, &s(&[]), T0), Err(TrackerError::IdsExhausted));
    assert!(full.issues.is_empty());
}

#[test]
fn update_checks_in_order_and_refusals_change_nothing() {
    let mut store = Store::new();
    store.create("a", None, Priority::Low, &s(&[]), T0).unwrap();
    assert_eq!(store.update(1, keep(), T1), Err(TrackerError::NothingToUpdate));
    assert_eq!(store.update(9, with_status(Status::Done), T1), Err(TrackerError::NotFound(9)));
    assert_eq!(
        store.update(1, with_status(Status::Open), T1),
        Err(TrackerError::InvalidTransition { from: Status::Open, to: Status::Open })
    );
    assert_eq!(
        store.update(9, IssueUpdate { title: Some(" ".to_string()), ..keep() }, T1),
        Err(TrackerError::EmptyTitle)
    );
    assert_eq!(
        store.update(1, IssueUpdate { labels: LabelEdit::Replace(s(&[""])), status: Some(Status::Done), ..keep() }, T1),
        Err(TrackerError::EmptyLabel)
    );
    assert_eq!(store.get(1).unwrap().updated_at, None);
    store
        .update(
            1,
            IssueUpdate { priority: Some(Priority::Critical), labels: LabelEdit::Replace(s(&["Z", "z"])), ..keep() },
            T1,
        )
        .unwrap();
    let i = store.get(1).unwrap();
    assert_eq!(i.priority, Priority::Critical);
    assert_eq!(i.labels, s(&["z"]));
    assert_eq!(i.updated_at, Some(T1));
}

#[test]
fn close_and_reopen() {
    let mut store = Store::new();
    store.create("a", None, Priority::Low, &s(&["x"]), T0).unwrap();
    store.update(1, with_status(Status::InProgress), T0).unwrap();
    assert_eq!(store.reopen(1, T1), Err(TrackerError::NotClosed { id: 1, status: Status::InProgress }));
    store.close(1, T1).unwrap();
    assert_eq!(store.get(1).unwrap().status, Status::Closed);
    // Closing a closed issue succeeds and changes nothing.
    assert_eq!(store.close(1, T1), Ok(()));
    assert_eq!(store.get(1).unwrap().status, Status::Closed);
    store.reopen(1, T1).unwrap();
    let i = store.get(1).unwrap();
    assert_eq!(i.status, Status::Open);
    assert_eq!(i.labels, s(&["x"]));
    assert_eq!(i.updated_at, Some(T1));
    assert_eq!(store.close(5, T1), Err(TrackerError::NotFound(5)));
}

#[test]
fn update_keeps_the_description_as_given() {
    let mut store = Store::new();
    store.create("a", Some("old".to_string()), Priority::Low, &s(&[]), T0).unwrap();
    store.update(1, IssueUpdate { description: Some("  new text ".to_string()), ..keep() }, T1).unwrap();
    assert_eq!(store.get(1).unwrap().description.as_deref(), Some("  new text "));
    store.update(1, IssueUpdate { description: Some(String::new()), ..keep() }, T1).unwrap();
    assert_eq!(store.get(1).unwrap().description, None);
}

#[test]
fn describe_trims_and_clears() {
    let mut store = Store::new();
    store.create("a", None, Priority::Low, &s(&[]), T0).unwrap();
    store.describe(1, "\n  body text \n", T1).unwrap();
    assert_eq!(store.get(1).unwrap().description.as_deref(), Some("body text"));
    store.describe(1, "\n", T1).unwrap();
    assert_eq!(store.get(1).unwrap().description, None);
    assert_eq!(store.describe(2, "x", T1), Err(TrackerError::NotFound(2)));
}

#[test]
fn ids_keep_increasing_across_deletes() {
    let mut store = Store::new();
    for t in ["a", "b", "c"] {
        store.create(t, None, Priority::Low, &s(&[]), T0).unwrap();
    }
    assert_eq!(store.delete(3).unwrap().title, "c");
    assert_eq!(store.delete(3).unwrap_err(), TrackerError::NotFound(3));
    assert_eq!(store.create("d", None, Priority::Low, &s(&[]), T0), Ok(4));
    assert_eq!(store.next_id, 5);
    let ids: Vec<u32> = store.issues.iter().map(|i| i.id).collect();
    assert_eq!(ids, vec![1, 2, 4]);
}

#[test]
fn list_sorts_by_priority_with_done_last_in_its_bracket() {
    let store = Store {
        next_id: 7,
        issues: vec![
            issue(1, "low open", Status::Open, Priority::Low),
            issue(2, "high done", Status::Done, Priority::High),
            issue(3, "high open", Status::Open, Priority::High),
            issue(4, "crit prog", Status::InProgress, Priority::Critical),
            issue(5, "high closed", Status::Closed, Priority::High),
            issue(6, "high prog", Status::InProgress, Priority::High),
        ],
    };
    let all = ListFilter { statuses: vec![], priorities: vec![Priority::Low, Priority::High, Priority::Critical], labels: vec![] };
    assert_eq!(store.list(&all).unwrap(), vec![3, 2, 5, 1, 0]);
    let none = ListFilter { statuses: vec![], priorities: vec![], labels: vec![] };
    assert_eq!(store.list(&none).unwrap(), vec![3, 2, 5, 0]);
    let closed = ListFilter { statuses: vec![Status::Closed], priorities: vec![], labels: vec![] };
    assert_eq!(store.list(&closed).unwrap(), vec![4]);
}

#[test]
fn label_filter_shows_done_but_not_closed() {
    let mut store = Store::new();
    store.create("a", None, Priority::Low, &s(&["bug"]), T0).unwrap();
    store.create("b", None, Priority::Low, &s(&["bug"]), T0).unwrap();
    store.create("c", None, Priority::Low, &s(&["ui"]), T0).unwrap();
    store.update(1, with_status(Status::InProgress), T0).unwrap();
    store.update(1, with_status(Status::Done), T0).unwrap();
    store.close(2, T0).unwrap();
    let f = ListFilter { statuses: vec![], priorities: vec![], labels: s(&[" BUG", "docs"]) };
    assert_eq!(store.list(&f).unwrap(), vec![0]);
}

#[test]
fn list_row_matches_the_readme() {
    let mut store = Store::new();
    store.create("Fix the login bug", None, Priority::High, &s(&["bug"]), T0).unwrap();
    store.create("Write the README", None, Priority::Medium, &s(&["docs"]), T0).unwrap();
    let order = store.list(&ListFilter { statuses: vec![], priorities: vec![], labels: vec![] }).unwrap();
    let w = render::id_column_width(&store.issues, &order);
    let rows: Vec<String> = order.iter().map(|&k| text(&render::list_row(&store.issues[k], w, None))).collect();
    assert_eq!(rows, vec![
        "#1 open        high     Fix the login bug [bug]".to_string(),
        "#2 open        medium   Write the README [docs]".to_string(),
    ]);
    let row = render::list_row(&store.issues[0], w, None);
    assert_eq!(row[1].style, Style::StatusColor(Status::Open));
    assert_eq!(row[3].style, Style::PriorityColor(Priority::High));
    assert_eq!(row[5].style, Style::Dim);
}

#[test]
fn id_column_is_as_wide_as_the_widest_listed_id() {
    let store = Store {
        next_id: 11,
        issues: vec![issue(9, "a", Status::Open, Priority::Low), issue(10, "b", Status::Open, Priority::Low)],
    };
    assert_eq!(render::id_column_width(&store.issues, &vec![0]), 1);
    assert_eq!(render::id_column_width(&store.issues, &vec![0, 1]), 2);
    assert_eq!(render::status_column_width(), 11);
    assert_eq!(render::priority_column_width(), 8);
    assert_eq!(text(&render::list_row(&store.issues[0], 2, None)), "#9  open        low      a");
}

#[test]
fn titles_fit_the_terminal() {
    assert_eq!(fit_title("abcdef", 10), "abcdef");
    assert_eq!(fit_title("abcdef", 4), "abc\u{2026}");
    assert_eq!(fit_title("日本語", 4), "日\u{2026}");
    assert_eq!(fit_title("日本語", 5), "日本\u{2026}");
    assert_eq!(fit_title("日本語", 6), "日本語");
    assert_eq!(fit_title("abcdef", 0), "");
    let i = issue(1, "a long title here", Status::Open, Priority::Low);
    // Frame: "#1 " + 11 + " " + 8 + " " = 24 columns, leaving 6 of 30.
    assert_eq!(text(&render::list_row(&i, 1, Some(30))), "#1 open        low      a lon\u{2026}");
    assert_eq!(text(&render::list_row(&i, 1, Some(10))), "#1 open        low      ");
}

#[test]
fn show_lists_every_field() {
    let mut store = Store::new();
    store.create("Title", Some("Some text".to_string()), Priority::Low, &s(&["b", "a"]), T0).unwrap();
    let lines: Vec<String> = render::show_lines(store.get(1).unwrap()).iter().map(|l| text(l)).collect();
    assert_eq!(lines, vec![
        "#1 Title",
        "Status:   open",
        "Priority: low",
        "Labels:   b, a",
        "Description: Some text",
        "Created:  2026-01-01 00:00 UTC",
        "Updated:  never",
    ]);
    store.update(1, with_status(Status::InProgress), T1).unwrap();
    let lines: Vec<String> = render::show_lines(store.get(1).unwrap()).iter().map(|l| text(l)).collect();
    assert_eq!(lines[6], "Updated:  2026-01-01 01:01 UTC");
}

#[test]
fn chrono_renders_instants() {
    assert_eq!(render::time_line_text(T0), "2026-01-01 00:00 UTC");
    assert_eq!(render::time_line_text(Timestamp { secs: 0, nanos: 0 }), "1970-01-01 00:00 UTC");
    assert_eq!(render::time_line_text(Timestamp { secs: -1, nanos: 0 }), "1969-12-31 23:59 UTC");
    assert_eq!(render::time_line_text(Timestamp { secs: 59, nanos: 1_500_000_000 }), "1970-01-01 00:00 UTC");
    assert_eq!(render::time_line_text(Timestamp { secs: 0, nanos: 2_000_000_000 }), "unknown");
    assert_eq!(render::time_line_text(Timestamp { secs: i64::MAX, nanos: 0 }), "unknown");
}

#[test]
fn messages() {
    assert_eq!(text(&render::created_message(12, "x")), "Created issue #12: x");
    assert_eq!(text(&render::updated_message(3)), "Updated issue #3");
    assert_eq!(text(&render::closed_message(3)), "Closed issue #3");
    assert_eq!(text(&render::reopened_message(3)), "Reopened issue #3");
    assert_eq!(text(&render::described_message(3)), "Updated description of issue #3");
    assert_eq!(text(&render::delete_prompt(2, "b")), "Delete issue #2 \"b\"? [y/N] ");
    assert_eq!(text(&render::initialized_message("/p/.tracker")), "Initialized tracker in /p/.tracker");
    let none = ListFilter { statuses: vec![], priorities: vec![], labels: vec![] };
    assert_eq!(text(&render::empty_list_message(&none)), "No open issues. Nice work!");
    let some = ListFilter { statuses: vec![Status::Done], priorities: vec![], labels: vec![] };
    assert_eq!(text(&render::empty_list_message(&some)), "No issues match your filters.");
    assert_eq!(text(&render::error_line(&TrackerError::EmptyTitle)), "error: title cannot be empty");
}

#[test]
fn error_messages() {
    assert_eq!(TrackerError::NotFound(7).message(), "no issue with id #7");
    assert_eq!(
        TrackerError::InvalidTransition { from: Status::Open, to: Status::Done }.message(),
        "cannot move open -> done (allowed from open: in-progress, closed)"
    );
    assert_eq!(
        TrackerError::NotClosed { id: 4, status: Status::Done }.message(),
        "only closed issues can be reopened (#4 is done)"
    );
    assert_eq!(TrackerError::EmptyLabel.message(), "label cannot be empty");
    assert!(TrackerError::NothingToUpdate.message().starts_with("at least one option required"));
    assert_eq!(TrackerError::IdsExhausted.message(), "no more issue ids are available");
    assert_eq!(TrackerError::AlreadyInitialized.message(), "tracker already initialized in this directory");
    assert!(TrackerError::Corrupt.message().starts_with("issues file is corrupt"));
    assert!(TrackerError::NoEditor.message().starts_with("no editor found"));
}

#[test]
fn confirmation_answers() {
    for yes in ["y", "Y\n", " yes ", "YES", "Yes\r\n"] {
        assert!(is_confirmation(yes), "{yes:?}");
    }
    for no in ["", "n", "no", "yes please", "ye"] {
        assert!(!is_confirmation(no), "{no:?}");
    }
}

#[test]
fn editor_choice() {
    assert_eq!(choose_editor(Some("vim".to_string()), Some("code".to_string())).unwrap(), "vim");
    assert_eq!(choose_editor(Some("  ".to_string()), Some("code -w".to_string())).unwrap(), "code -w");
    assert_eq!(choose_editor(None, Some(" nano ".to_string())).unwrap(), "nano");
    assert_eq!(choose_editor(None, Some(String::new())).unwrap_err(), TrackerError::NoEditor);
}

#[test]
fn paths() {
    assert_eq!(join_path("/a/b", "c"), "/a/b/c");
    assert_eq!(join_path("/a/b/", "c"), "/a/b/c");
    assert_eq!(join_path("", "c"), "c");
    assert_eq!(tracker_dir_in("/p"), "/p/.tracker");
    assert_eq!(tracker_dir_in("/"), "/.tracker");
    assert_eq!(issues_path("/p/.tracker"), "/p/.tracker/issues.json");
    assert_eq!(lock_path("/p/.tracker"), "/p/.tracker/lock");
    assert_eq!(temp_path("/p/.tracker/issues.json"), "/p/.tracker/issues.json.tmp");
    assert_eq!(nearest_tracker(&vec![true, true]), Some(0));
    assert_eq!(nearest_tracker(&vec![]), None);
}

#[test]
fn loading_prefers_the_current_format_then_the_legacy_array() {
    let current = Store { next_id: 40, issues: vec![issue(3, "a", Status::Open, Priority::Low)] };
    let s = resolve_loaded(Some(current), None).unwrap();
    assert_eq!(s.next_id, 40);
    let legacy = vec![issue(3, "a", Status::Open, Priority::Low), issue(7, "b", Status::Done, Priority::Low)];
    let s = resolve_loaded(None, Some(legacy)).unwrap();
    assert_eq!(s.next_id, 8);
    assert_eq!(s.issues.len(), 2);
    assert_eq!(resolve_loaded(None, Some(vec![])).unwrap().next_id, 1);
    assert_eq!(resolve_loaded(None, None).unwrap_err(), TrackerError::Corrupt);
    let full = vec![issue(u32::MAX, "a", Status::Open, Priority::Low)];
    assert_eq!(resolve_loaded(None, Some(full)).unwrap_err(), TrackerError::Corrupt);
    assert_eq!(Store::from_legacy(vec![issue(5, "a", Status::Open, Priority::Low)]).next_id, 6);
}

#[test]
fn styles_paint_as_the_original_coloured_them() {
    let plain = Look { color: None, bold: false, dim: false, underline: false };
    assert_eq!(look(Style::Plain), plain);
    assert_eq!(look(Style::StatusColor(Status::Open)), plain);
    assert_eq!(look(Style::StatusColor(Status::InProgress)), Look { color: Some(Color::Cyan), ..plain });
    assert_eq!(look(Style::StatusColor(Status::Closed)), Look { dim: true, ..plain });
    assert_eq!(
        look(Style::PriorityColor(Priority::Critical)),
        Look { color: Some(Color::Red), bold: true, underline: true, ..plain }
    );
    assert_eq!(look(Style::PriorityColor(Priority::Medium)), Look { color: Some(Color::Yellow), ..plain });
    assert_eq!(look(Style::ErrorTag), Look { color: Some(Color::Red), bold: true, ..plain });
    assert_eq!(look(Style::Success), Look { color: Some(Color::Green), ..plain });
}

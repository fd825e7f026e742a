//! The command-line scenarios, run against the library: each test does what
//! the same-named command sequence does, through the functions the commands
//! call.

use issue_tracker::error::TrackerError;
use issue_tracker::issue::{IssueUpdate, LabelEdit, Timestamp};
use issue_tracker::priority::Priority;
use issue_tracker::prompt::{choose_editor, is_confirmation};
use issue_tracker::query::ListFilter;
use issue_tracker::render::{self, Segment};
use issue_tracker::status::Status;
use issue_tracker::storage::nearest_tracker;
use issue_tracker::store::Store;

const T0: Timestamp = Timestamp { secs: 1767225600, nanos: 0 };

fn text(line: &[Segment]) -> String {
    line.iter().map(|s| s.text.as_str()).collect()
}

fn strings(v: &[&str]) -> Vec<String> {
    v.iter().map(|s| s.to_string()).collect()
}

fn create(store: &mut Store, title: &str, priority: Priority, labels: &[&str]) -> Result<u32, TrackerError> {
    store.create(title, None, priority, &strings(labels), T0)
}

fn show(store: &Store, id: u32) -> Result<String, TrackerError> {
    let issue = store.get(id).ok_or(TrackerError::NotFound(id))?;
    Ok(render::show_lines(issue).iter().map(|l| text(l)).collect::<Vec<_>>().join("\n"))
}

fn list(store: &Store, filter: &ListFilter) -> Result<String, TrackerError> {
    let order = store.list(filter)?;
    if order.is_empty() {
        return Ok(text(&render::empty_list_message(filter)));
    }
    let w = render::id_column_width(&store.issues, &order);
    Ok(order
        .iter()
        .map(|&k| text(&render::list_row(&store.issues[k], w, None)))
        .collect::<Vec<_>>()
        .join("\n"))
}

fn no_filter() -> ListFilter {
    ListFilter { statuses: vec![], priorities: vec![], labels: vec![] }
}

fn set_status(store: &mut Store, id: u32, s: Status) -> Result<(), TrackerError> {
    store.update(
        id,
        IssueUpdate { title: None, description: None, status: Some(s), priority: None, labels: LabelEdit::Keep },
        T0,
    )
}

fn labels_update(store: &mut Store, id: u32, edit: LabelEdit) -> Result<(), TrackerError> {
    store.update(id, IssueUpdate { title: None, description: None, status: None, priority: None, labels: edit }, T0)
}

#[test]
fn create_lists_and_shows() {
    let mut store = Store::new();
    let id = create(&mut store, "First issue", Priority::parse("high").unwrap(), &["bug"]).unwrap();
    assert!(text(&render::created_message(id, "First issue")).contains("#1"));
    let listed = list(&store, &no_filter()).unwrap();
    assert!(listed.contains("First issue") && listed.contains("high"));
    assert!(show(&store, 1).unwrap().contains("bug"));
}

#[test]
fn ids_are_not_reused_after_delete() {
    let mut store = Store::new();
    create(&mut store, "a", Priority::Medium, &[]).unwrap();
    let b = create(&mut store, "b", Priority::Medium, &[]).unwrap();
    assert_eq!(b, 2);
    assert!(is_confirmation("y\n"));
    store.delete(2).unwrap();
    let c = create(&mut store, "c", Priority::Medium, &[]).unwrap();
    assert!(text(&render::created_message(c, "c")).contains("#3"));
}

#[test]
fn delete_with_yes_skips_prompt() {
    let mut store = Store::new();
    create(&mut store, "a", Priority::Medium, &[]).unwrap();
    store.delete(1).unwrap();
    assert!(text(&render::deleted_message(1)).contains("Deleted issue #1"));
    assert!(show(&store, 1).is_err());
}

#[test]
fn delete_aborts_on_no() {
    let mut store = Store::new();
    create(&mut store, "a", Priority::Medium, &[]).unwrap();
    assert!(!is_confirmation("n\n"));
    assert!(text(&render::aborted_message()).contains("Aborted"));
    assert!(show(&store, 1).is_ok());
}

#[test]
fn priority_short_alias_accepted() {
    let mut store = Store::new();
    let p = Priority::parse("c").unwrap();
    create(&mut store, "x", p, &[]).unwrap();
    assert!(show(&store, 1).unwrap().contains("critical"));
}

#[test]
fn invalid_status_transition_is_rejected() {
    let mut store = Store::new();
    create(&mut store, "a", Priority::Medium, &[]).unwrap();
    let e = set_status(&mut store, 1, Status::parse("done").unwrap()).unwrap_err();
    assert!(e.message().contains("cannot move open -> done"));
    set_status(&mut store, 1, Status::parse("in-progress").unwrap()).unwrap();
    set_status(&mut store, 1, Status::Done).unwrap();
}

#[test]
fn default_list_shows_only_active() {
    let mut store = Store::new();
    create(&mut store, "keep open", Priority::Medium, &[]).unwrap();
    create(&mut store, "will finish", Priority::Medium, &[]).unwrap();
    set_status(&mut store, 2, Status::InProgress).unwrap();
    set_status(&mut store, 2, Status::Done).unwrap();
    create(&mut store, "will close", Priority::Medium, &[]).unwrap();
    store.close(3, T0).unwrap();
    let listed = list(&store, &no_filter()).unwrap();
    assert!(listed.contains("keep open"));
    assert!(!listed.contains("will finish"));
    assert!(!listed.contains("will close"));
}

#[test]
fn multi_value_status_filter_uses_or() {
    let mut store = Store::new();
    create(&mut store, "stays open", Priority::Medium, &[]).unwrap();
    create(&mut store, "in prog", Priority::Medium, &[]).unwrap();
    set_status(&mut store, 2, Status::InProgress).unwrap();
    create(&mut store, "finished", Priority::Medium, &[]).unwrap();
    set_status(&mut store, 3, Status::InProgress).unwrap();
    set_status(&mut store, 3, Status::Done).unwrap();
    let f = ListFilter { statuses: vec![Status::Open, Status::Done], priorities: vec![], labels: vec![] };
    let listed = list(&store, &f).unwrap();
    assert!(listed.contains("stays open"));
    assert!(listed.contains("finished"));
    assert!(!listed.contains("in prog"));
}

#[test]
fn labels_are_deduped_on_write() {
    let mut store = Store::new();
    create(&mut store, "x", Priority::Medium, &["bug", "Bug", "bug"]).unwrap();
    let shown = show(&store, 1).unwrap();
    assert!(shown.contains("Labels:"));
    assert!(!shown.contains("bug, bug"));
}

#[test]
fn list_filter_rejects_empty_label() {
    let mut store = Store::new();
    create(&mut store, "x", Priority::Medium, &["bug"]).unwrap();
    let f = ListFilter { statuses: vec![], priorities: vec![], labels: strings(&[""]) };
    let e = list(&store, &f).unwrap_err();
    assert!(e.message().contains("label cannot be empty"));
}

#[test]
fn list_filter_trims_label() {
    let mut store = Store::new();
    create(&mut store, "x", Priority::Medium, &["bug"]).unwrap();
    let f = ListFilter { statuses: vec![], priorities: vec![], labels: strings(&["  bug  "]) };
    assert!(list(&store, &f).unwrap().contains("x"));
}

#[test]
fn labels_are_normalized_and_filter_is_case_insensitive() {
    let mut store = Store::new();
    create(&mut store, "x", Priority::Medium, &["BUG"]).unwrap();
    let f = ListFilter { statuses: vec![], priorities: vec![], labels: strings(&["Bug"]) };
    let listed = list(&store, &f).unwrap();
    assert!(listed.contains("x"));
    assert!(!listed.contains("BUG"));
}

#[test]
fn label_append_and_clear() {
    let mut store = Store::new();
    create(&mut store, "x", Priority::Medium, &["bug"]).unwrap();
    labels_update(&mut store, 1, LabelEdit::Add(strings(&["bug", "Urgent"]))).unwrap();
    assert!(show(&store, 1).unwrap().contains("bug, urgent"));
    labels_update(&mut store, 1, LabelEdit::Clear).unwrap();
    let shown = show(&store, 1).unwrap();
    assert!(shown.contains("Labels:") && shown.contains("none"));
}

#[test]
fn label_remove_single() {
    let mut store = Store::new();
    create(&mut store, "x", Priority::Medium, &["bug", "urgent", "ui"]).unwrap();
    labels_update(&mut store, 1, LabelEdit::Remove(strings(&[" Urgent "]))).unwrap();
    let shown = show(&store, 1).unwrap();
    assert!(shown.contains("bug, ui") && !shown.contains("urgent"));
    labels_update(&mut store, 1, LabelEdit::Remove(strings(&["nope"]))).unwrap();
    assert!(show(&store, 1).unwrap().contains("bug, ui"));
}

#[test]
fn description_set_and_clear() {
    let mut store = Store::new();
    store.create("x", Some("hello".to_string()), Priority::Medium, &vec![], T0).unwrap();
    assert!(show(&store, 1).unwrap().contains("Description: hello"));
    store
        .update(
            1,
            IssueUpdate {
                title: None,
                description: Some(String::new()),
                status: None,
                priority: None,
                labels: LabelEdit::Keep,
            },
            T0,
        )
        .unwrap();
    assert!(!show(&store, 1).unwrap().contains("hello"));
}

#[test]
fn update_changes_title() {
    let mut store = Store::new();
    create(&mut store, "old title", Priority::Medium, &[]).unwrap();
    let retitle = |t: &str| IssueUpdate {
        title: Some(t.to_string()),
        description: None,
        status: None,
        priority: None,
        labels: LabelEdit::Keep,
    };
    store.update(1, retitle("new title"), T0).unwrap();
    let shown = show(&store, 1).unwrap();
    assert!(shown.contains("new title") && !shown.contains("old title"));
    let e = store.update(1, retitle("   "), T0).unwrap_err();
    assert!(e.message().contains("title cannot be empty"));
}

#[test]
fn edit_updates_description_via_editor() {
    let mut store = Store::new();
    create(&mut store, "x", Priority::Medium, &[]).unwrap();
    store.describe(1, "edited body\n", T0).unwrap();
    assert!(show(&store, 1).unwrap().contains("edited body"));
}

#[test]
fn edit_without_editor_errors() {
    let e = choose_editor(None, None).unwrap_err();
    assert!(e.message().contains("no editor found"));
}

#[test]
fn finds_tracker_from_subdirectory() {
    // Walking up from `a/b`: neither `a/b` nor `a` has a tracker, the root does.
    assert_eq!(nearest_tracker(&vec![false, false, true]), Some(2));
}

#[test]
fn updated_at_is_recorded_and_shown() {
    let mut store = Store::new();
    create(&mut store, "x", Priority::Medium, &[]).unwrap();
    assert!(show(&store, 1).unwrap().contains("Updated:"));
}

#[test]
fn commands_require_init() {
    assert_eq!(nearest_tracker(&vec![false, false]), None);
    assert!(TrackerError::NotInitialized.message().contains("no tracker found"));
}

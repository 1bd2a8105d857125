use buffer_panel::dispatch::{Action, Event, Notification, Row, SyncCore};
use buffer_panel::entry::BufferEntry;
use buffer_panel::error::SyncError;
use buffer_panel::pane::{Layout, PaneMode, PaneState};
use buffer_panel::reader::Snapshot;

fn entry(path: &str, id: u64) -> BufferEntry {
    BufferEntry { path: path.to_string(), id, modified: false }
}

fn snapshot(entries: Vec<BufferEntry>) -> Snapshot {
    Snapshot { entries, malformed: 0 }
}

fn row(label: &str, id: u64) -> Row {
    Row { label: label.to_string(), id }
}

fn layout(pane_height: usize, row_count: usize, first_row_height: Option<usize>) -> Layout {
    Layout { pane_height, row_count, first_row_height }
}

fn added(cwd: &str, entries: Vec<BufferEntry>) -> Event {
    Event::Notified(Notification::BufferAdded { cwd: cwd.to_string(), snapshot: snapshot(entries) })
}

fn deleted() -> Event {
    Event::Notified(Notification::BufferDeleted)
}

/// A core that shows `/w/a` (1) and `/w/b` (2) in a pane of height 50, with
/// rows of height 20 and 10 of chrome.
fn started() -> SyncCore {
    let pane = PaneState { min_height: 50, chrome_offset: 10, row_height: 20, manually_resized: false };
    let mut core = SyncCore::new(pane);
    let actions = core.init_list("/w".to_string(), snapshot(vec![entry("/w/a", 1), entry("/w/b", 2)]));
    assert_eq!(
        actions,
        vec![
            Action::ReplaceRows { rows: vec![row("a", 1), row("b", 2)] },
            Action::SetPaneHeight { height: 50 },
        ]
    );
    core
}

#[test]
fn new_core_is_empty_and_idle() {
    let core = SyncCore::new(PaneState::new(40, 4));
    assert_eq!(core.cache().len(), 0);
    assert!(!core.cache().is_stale());
    assert_eq!(core.pane(), PaneState::new(40, 4));
    assert_eq!(core.cwd(), "");
    assert!(!core.is_pending());
    assert_eq!(core.backlog_len(), 0);
    assert_eq!(core.sized_rows(), 0);
}

#[test]
fn start_renders_all_rows_and_sizes_the_pane() {
    let mut core = SyncCore::new(PaneState::new(50, 10));
    let listing = Snapshot {
        entries: vec![entry("/w/a", 1), entry("", 2), entry("/etc/hosts", 3)],
        malformed: 2,
    };
    let actions = core.init_list("/w".to_string(), listing);
    assert_eq!(
        actions,
        vec![
            Action::Report { error: SyncError::MalformedRecord },
            Action::ReplaceRows {
                rows: vec![row("a", 1), row("[No Name]", 2), row("/etc/hosts", 3)]
            },
            Action::SetPaneHeight { height: 50 },
        ]
    );
    assert_eq!(core.cache().entries(), &vec![entry("/w/a", 1), entry("", 2), entry("/etc/hosts", 3)]);
    assert_eq!(core.cwd(), "/w");
}

#[test]
fn added_buffer_gets_a_row_and_the_pane_grows() {
    let mut core = started();
    let actions = core.handle(
        added("/w", vec![entry("/w/a", 1), entry("/w/c", 3), entry("/w/b", 2)]),
        &layout(50, 2, Some(20)),
    );
    assert_eq!(
        actions,
        vec![
            Action::InsertRow { at_index: 1, row: row("c", 3) },
            Action::SetPaneHeight { height: 70 },
        ]
    );
    assert_eq!(core.cache().entries(), &vec![entry("/w/a", 1), entry("/w/c", 3), entry("/w/b", 2)]);
}

#[test]
fn pane_stays_at_minimum_then_grows() {
    let pane = PaneState { min_height: 50, chrome_offset: 10, row_height: 20, manually_resized: false };
    let mut core = SyncCore::new(pane);
    core.init_list("/".to_string(), snapshot(vec![]));
    let actions = core.handle(added("/", vec![entry("/a", 1)]), &layout(50, 0, None));
    assert_eq!(
        actions,
        vec![
            Action::InsertRow { at_index: 0, row: row("a", 1) },
            Action::SetPaneHeight { height: 50 },
        ]
    );
    let four = vec![entry("/a", 1), entry("/b", 2), entry("/c", 3), entry("/d", 4)];
    let actions = core.handle(added("/", four), &layout(50, 1, Some(20)));
    assert_eq!(
        actions,
        vec![
            Action::Report { error: SyncError::InconsistentState },
            Action::ReplaceRows { rows: vec![row("a", 1), row("b", 2), row("c", 3), row("d", 4)] },
            Action::SetPaneHeight { height: 90 },
        ]
    );
}

#[test]
fn deletion_is_read_one_tick_later_and_applied_once() {
    let mut core = started();
    // the notification comes while the host still lists the buffer
    let actions = core.handle(deleted(), &layout(50, 2, Some(20)));
    assert_eq!(actions, vec![Action::ScheduleRequery]);
    assert!(core.is_pending());
    assert_eq!(core.cache().entries(), &vec![entry("/w/a", 1), entry("/w/b", 2)]);
    // one tick later the listing shows the removal
    let actions = core.handle(
        Event::Requeried(Some(snapshot(vec![entry("/w/b", 2)]))),
        &layout(50, 2, Some(20)),
    );
    assert_eq!(
        actions,
        vec![Action::RemoveRow { at_index: 0 }, Action::SetPaneHeight { height: 50 }]
    );
    assert!(!core.is_pending());
    assert_eq!(core.cache().entries(), &vec![entry("/w/b", 2)]);
    // the same listing once more removes nothing
    let actions = core.handle(
        Event::Requeried(Some(snapshot(vec![entry("/w/b", 2)]))),
        &layout(50, 1, Some(20)),
    );
    assert_eq!(actions, vec![Action::Report { error: SyncError::EmptyResultAfterNotification }]);
    assert_eq!(core.cache().entries(), &vec![entry("/w/b", 2)]);
}

#[test]
fn every_listing_handed_in_ends_up_in_the_cache() {
    let mut core = started();
    // nobody waits for this listing; the cache takes it all the same
    let actions = core.on_buf_delete(Some(snapshot(vec![entry("/w/b", 2)])), &layout(50, 2, Some(20)));
    assert_eq!(
        actions,
        vec![Action::RemoveRow { at_index: 0 }, Action::SetPaneHeight { height: 50 }]
    );
    assert_eq!(core.cache().entries(), &vec![entry("/w/b", 2)]);
    let actions = core.handle(
        Event::Requeried(Some(snapshot(vec![entry("/w/x", 7), entry("/w/y", 8), entry("/w/z", 9)]))),
        &layout(50, 1, Some(20)),
    );
    assert_eq!(
        actions,
        vec![
            Action::Report { error: SyncError::InconsistentState },
            Action::ReplaceRows { rows: vec![row("x", 7), row("y", 8), row("z", 9)] },
            Action::SetPaneHeight { height: 70 },
        ]
    );
    assert_eq!(
        core.cache().entries(),
        &vec![entry("/w/x", 7), entry("/w/y", 8), entry("/w/z", 9)]
    );
    // a reading that failed changes nothing but is reported
    let actions = core.on_buf_delete(None, &layout(70, 3, Some(20)));
    assert_eq!(actions, vec![Action::Report { error: SyncError::QueryFailure }]);
    assert_eq!(core.cache().len(), 3);
}

#[test]
fn listing_without_change_is_reported_and_changes_nothing_on_screen() {
    let mut core = started();
    let actions = core.handle(
        added("/w", vec![entry("/w/a", 1), entry("/w/b", 2)]),
        &layout(50, 2, Some(20)),
    );
    assert_eq!(actions, vec![Action::Report { error: SyncError::EmptyResultAfterNotification }]);
    core.handle(deleted(), &layout(50, 2, Some(20)));
    let actions = core.handle(
        Event::Requeried(Some(snapshot(vec![entry("/w/a", 1), entry("/w/b", 2)]))),
        &layout(50, 2, Some(20)),
    );
    assert_eq!(actions, vec![Action::Report { error: SyncError::EmptyResultAfterNotification }]);
    assert_eq!(core.pane().mode(), PaneMode::Auto);
}

#[test]
fn failed_requery_keeps_everything() {
    let mut core = started();
    core.handle(deleted(), &layout(50, 2, Some(20)));
    let actions = core.handle(Event::Requeried(None), &layout(50, 2, Some(20)));
    assert_eq!(actions, vec![Action::Report { error: SyncError::QueryFailure }]);
    assert!(!core.is_pending());
    assert_eq!(core.cache().entries(), &vec![entry("/w/a", 1), entry("/w/b", 2)]);
    assert_eq!(
        core.pane(),
        PaneState { min_height: 50, chrome_offset: 10, row_height: 20, manually_resized: false }
    );
}

#[test]
fn notifications_wait_for_the_requery_and_keep_their_order() {
    let mut core = started();
    let at = layout(50, 2, Some(20));
    assert_eq!(core.handle(deleted(), &at), vec![Action::ScheduleRequery]);
    // three notifications arrive before the listing does
    let three = vec![entry("/w/b", 2), entry("/w/c", 3)];
    assert_eq!(core.handle(added("/w", three), &at), vec![]);
    assert_eq!(
        core.handle(Event::Notified(Notification::BufferFocused { id: 3 }), &at),
        vec![]
    );
    assert_eq!(core.handle(deleted(), &at), vec![]);
    assert_eq!(core.backlog_len(), 3);
    assert_eq!(core.cache().entries(), &vec![entry("/w/a", 1), entry("/w/b", 2)]);
    // the listing comes in: the deletion is applied, then the backlog is next
    let actions = core.handle(Event::Requeried(Some(snapshot(vec![entry("/w/b", 2)]))), &at);
    assert_eq!(
        actions,
        vec![
            Action::RemoveRow { at_index: 0 },
            Action::SetPaneHeight { height: 50 },
            Action::Resume,
        ]
    );
    let at = layout(50, 1, Some(20));
    let actions = core.handle(Event::Resume, &at);
    assert_eq!(
        actions,
        vec![
            Action::InsertRow { at_index: 1, row: row("c", 3) },
            Action::SetPaneHeight { height: 50 },
            Action::Resume,
        ]
    );
    let at = layout(50, 2, Some(20));
    assert_eq!(core.handle(Event::Resume, &at), vec![Action::SelectRow { at_index: 1 }, Action::Resume]);
    assert_eq!(core.handle(Event::Resume, &at), vec![Action::ScheduleRequery]);
    assert!(core.is_pending());
    assert_eq!(core.backlog_len(), 0);
    assert_eq!(core.handle(Event::Resume, &at), vec![]);
    let actions = core.handle(Event::Requeried(Some(snapshot(vec![entry("/w/c", 3)]))), &at);
    assert_eq!(
        actions,
        vec![Action::RemoveRow { at_index: 0 }, Action::SetPaneHeight { height: 50 }]
    );
    assert_eq!(core.cache().entries(), &vec![entry("/w/c", 3)]);
}

#[test]
fn resume_without_backlog_does_nothing() {
    let mut core = started();
    assert_eq!(core.handle(Event::Resume, &layout(50, 2, Some(20))), vec![]);
    assert_eq!(core.cache().len(), 2);
}

#[test]
fn cache_ends_at_the_last_listing_whatever_came_before() {
    let mut core = started();
    let at = layout(50, 2, Some(20));
    let noise = vec![
        added("/w", vec![entry("/w/x", 9)]),
        Event::Notified(Notification::DirectoryChanged { cwd: "/".to_string() }),
        added("/", vec![entry("/w/b", 2), entry("/w/a", 1), entry("", 5)]),
        Event::Notified(Notification::BufferFocused { id: 5 }),
        added("/", vec![]),
        Event::Notified(Notification::DirectoryChanged { cwd: "/w".to_string() }),
        added("/w", vec![entry("", 7), entry("", 8)]),
        Event::Notified(Notification::BufferFocused { id: 1 }),
    ];
    for event in noise {
        core.handle(event, &at);
    }
    assert_eq!(core.cache().entries(), &vec![entry("", 7), entry("", 8)]);
}

#[test]
fn focus_selects_the_row_of_the_buffer() {
    let mut core = started();
    let at = layout(50, 2, Some(20));
    assert_eq!(core.on_buf_enter(2, 2), vec![Action::SelectRow { at_index: 1 }]);
    assert_eq!(core.on_buf_enter(1, 2), vec![Action::SelectRow { at_index: 0 }]);
    assert_eq!(core.on_buf_enter(3, 2), vec![]);
    let actions = core.handle(Event::Notified(Notification::BufferFocused { id: 2 }), &at);
    assert_eq!(actions, vec![Action::SelectRow { at_index: 1 }]);
    assert_eq!(core.cache().entries(), &vec![entry("/w/a", 1), entry("/w/b", 2)]);
}

#[test]
fn directory_change_relabels_every_row_and_nothing_else() {
    let mut core = started();
    let before = core.pane();
    let actions = core.handle(
        Event::Notified(Notification::DirectoryChanged { cwd: "/".to_string() }),
        &layout(999, 2, Some(20)),
    );
    assert_eq!(
        actions,
        vec![
            Action::RelabelRow { at_index: 0, label: "w/a".to_string() },
            Action::RelabelRow { at_index: 1, label: "w/b".to_string() },
        ]
    );
    assert_eq!(core.cwd(), "/");
    assert_eq!(core.pane(), before);
    assert_eq!(core.cache().entries(), &vec![entry("/w/a", 1), entry("/w/b", 2)]);
    let actions = core.on_dir_changed("/elsewhere".to_string(), 2);
    assert_eq!(
        actions,
        vec![
            Action::RelabelRow { at_index: 0, label: "/w/a".to_string() },
            Action::RelabelRow { at_index: 1, label: "/w/b".to_string() },
        ]
    );
}

#[test]
fn dragged_pane_is_never_sized_again() {
    let mut core = started();
    // the pane is found at 64, not at the 50 that was set
    let actions = core.handle(
        added("/w", vec![entry("/w/a", 1), entry("/w/b", 2), entry("/w/c", 3)]),
        &layout(64, 2, Some(20)),
    );
    assert_eq!(actions, vec![Action::InsertRow { at_index: 2, row: row("c", 3) }]);
    assert_eq!(core.pane().mode(), PaneMode::Manual);
    let latched = core.pane();
    let mut entries = vec![entry("/w/a", 1), entry("/w/b", 2), entry("/w/c", 3)];
    for id in 4..40u64 {
        entries.push(entry("/w/more", id));
        let rows = entries.len() - 1;
        let actions = core.handle(added("/w", entries.clone()), &layout(50, rows, Some(20)));
        assert!(!actions.iter().any(|action| matches!(action, Action::SetPaneHeight { .. })));
        assert_eq!(core.pane(), latched);
    }
    while entries.len() > 1 {
        entries.remove(0);
        core.handle(deleted(), &layout(70, entries.len() + 1, Some(20)));
        let actions = core.handle(
            Event::Requeried(Some(snapshot(entries.clone()))),
            &layout(70, entries.len() + 1, Some(20)),
        );
        assert_eq!(actions, vec![Action::RemoveRow { at_index: 0 }]);
        assert_eq!(core.pane(), latched);
    }
    let actions = core.init_list("/w".to_string(), snapshot(vec![entry("/w/a", 1)]));
    assert_eq!(actions, vec![Action::ReplaceRows { rows: vec![row("a", 1)] }]);
}

#[test]
fn edit_outside_the_rows_is_refused_and_mended_by_the_next_listing() {
    let mut core = started();
    // the list shows no rows although two are cached: removing row 1 cannot be done
    let actions = core.handle(deleted(), &layout(50, 0, None));
    assert_eq!(actions, vec![Action::ScheduleRequery]);
    let actions = core.handle(
        Event::Requeried(Some(snapshot(vec![entry("/w/a", 1)]))),
        &layout(50, 0, None),
    );
    assert_eq!(actions, vec![Action::Report { error: SyncError::InconsistentState }]);
    assert!(core.cache().is_stale());
    assert_eq!(core.cache().entries(), &vec![entry("/w/a", 1)]);
    // the next listing replaces all rows, even though only one entry is new
    let actions = core.handle(
        added("/w", vec![entry("/w/a", 1), entry("/w/d", 4)]),
        &layout(50, 0, None),
    );
    assert_eq!(
        actions,
        vec![
            Action::ReplaceRows { rows: vec![row("a", 1), row("d", 4)] },
            Action::SetPaneHeight { height: 50 },
        ]
    );
    assert!(!core.cache().is_stale());
}

#[test]
fn skipped_records_are_reported_with_the_edit() {
    let mut core = started();
    let listing = Snapshot {
        entries: vec![entry("/w/a", 1), entry("/w/b", 2), entry("/w/c", 3)],
        malformed: 1,
    };
    let actions = core.on_buf_add("/w".to_string(), listing, &layout(50, 2, Some(20)));
    assert_eq!(
        actions,
        vec![
            Action::Report { error: SyncError::MalformedRecord },
            Action::InsertRow { at_index: 2, row: row("c", 3) },
            Action::SetPaneHeight { height: 70 },
        ]
    );
}

#[test]
fn unnamed_buffers_get_their_own_rows() {
    let mut core = SyncCore::new(PaneState::new(0, 0));
    core.init_list("/w".to_string(), snapshot(vec![entry("", 1)]));
    let actions = core.handle(added("/w", vec![entry("", 1), entry("", 2)]), &layout(0, 1, None));
    assert_eq!(
        actions,
        vec![
            Action::InsertRow { at_index: 1, row: row("[No Name]", 2) },
            Action::SetPaneHeight { height: 0 },
        ]
    );
    core.handle(deleted(), &layout(0, 2, None));
    let actions = core.handle(Event::Requeried(Some(snapshot(vec![entry("", 2)]))), &layout(0, 2, None));
    assert_eq!(
        actions,
        vec![Action::RemoveRow { at_index: 0 }, Action::SetPaneHeight { height: 0 }]
    );
    assert_eq!(core.on_buf_enter(2, 1), vec![Action::SelectRow { at_index: 0 }]);
}

#[test]
fn activated_row_switches_to_its_buffer() {
    let core = started();
    assert_eq!(core.on_row_activated(0), Some(":b 1".to_string()));
    assert_eq!(core.on_row_activated(1), Some(":b 2".to_string()));
    assert_eq!(core.on_row_activated(2), None);
}

#[test]
fn requery_handler_can_be_called_directly() {
    let mut core = started();
    core.handle(deleted(), &layout(50, 2, Some(20)));
    let actions = core.on_buf_delete(Some(snapshot(vec![entry("/w/a", 1)])), &layout(50, 2, Some(20)));
    assert_eq!(
        actions,
        vec![Action::RemoveRow { at_index: 1 }, Action::SetPaneHeight { height: 50 }]
    );
    assert_eq!(core.cache().entries(), &vec![entry("/w/a", 1)]);
    assert!(!core.is_pending());
}

#[test]
fn focus_on_a_buffer_whose_row_is_missing_selects_nothing() {
    let mut core = started();
    // the buffer is cached as row 1, but the list shows one row only
    assert_eq!(core.on_buf_enter(2, 1), vec![]);
    assert_eq!(core.on_buf_enter(2, 0), vec![]);
    assert_eq!(core.on_buf_enter(1, 1), vec![Action::SelectRow { at_index: 0 }]);
    assert_eq!(core.on_buf_enter(1, 0), vec![]);
    let actions = core.handle(
        Event::Notified(Notification::BufferFocused { id: 2 }),
        &layout(50, 1, Some(20)),
    );
    assert_eq!(actions, vec![]);
    assert_eq!(core.cache().len(), 2);
}

#[test]
fn directory_change_relabels_only_rows_that_are_there() {
    let mut core = started();
    let actions = core.handle(
        Event::Notified(Notification::DirectoryChanged { cwd: "/".to_string() }),
        &layout(50, 1, Some(20)),
    );
    assert_eq!(actions, vec![Action::RelabelRow { at_index: 0, label: "w/a".to_string() }]);
    assert_eq!(core.on_dir_changed("/w".to_string(), 0), vec![]);
    assert_eq!(
        core.on_dir_changed("/w".to_string(), 9),
        vec![
            Action::RelabelRow { at_index: 0, label: "a".to_string() },
            Action::RelabelRow { at_index: 1, label: "b".to_string() },
        ]
    );
    assert_eq!(core.cwd(), "/w");
}

#[test]
fn refused_edit_does_not_make_the_sizer_take_its_own_height_for_a_drag() {
    let pane = PaneState { min_height: 50, chrome_offset: 10, row_height: 20, manually_resized: false };
    let mut core = SyncCore::new(pane);
    let four = vec![entry("/a", 1), entry("/b", 2), entry("/c", 3), entry("/d", 4)];
    let actions = core.init_list("/".to_string(), snapshot(four.clone()));
    assert_eq!(actions[1], Action::SetPaneHeight { height: 90 });
    assert_eq!(core.sized_rows(), 4);
    // the list is one row short: row 4 cannot be put in
    let mut five = four.clone();
    five.push(entry("/e", 5));
    let actions = core.handle(added("/", five.clone()), &layout(90, 3, Some(20)));
    assert_eq!(actions, vec![Action::Report { error: SyncError::InconsistentState }]);
    assert!(core.cache().is_stale());
    assert_eq!(core.cache().len(), 5);
    assert_eq!(core.sized_rows(), 4);
    assert_eq!(core.pane().mode(), PaneMode::Auto);
    // the pane is still at the 90 that the sizer chose for four rows
    let mut six = five.clone();
    six.push(entry("/f", 6));
    let actions = core.handle(added("/", six), &layout(90, 3, Some(20)));
    assert_eq!(
        actions,
        vec![
            Action::ReplaceRows {
                rows: vec![row("a", 1), row("b", 2), row("c", 3), row("d", 4), row("e", 5), row("f", 6)]
            },
            Action::SetPaneHeight { height: 130 },
        ]
    );
    assert_eq!(core.pane().mode(), PaneMode::Auto);
    assert_eq!(core.sized_rows(), 6);
    assert!(!core.cache().is_stale());
}

/// Performs the actions on a list of rows as a renderer would.
fn perform(rows: &mut Vec<Row>, actions: Vec<Action>) {
    for action in actions {
        match action {
            Action::InsertRow { at_index, row } => rows.insert(at_index, row),
            Action::RemoveRow { at_index } => {
                rows.remove(at_index);
            }
            Action::RelabelRow { at_index, label } => rows[at_index].label = label,
            Action::ReplaceRows { rows: all } => *rows = all,
            _ => {}
        }
    }
}

#[test]
fn rows_stand_for_the_cache_after_every_step() {
    let mut core = SyncCore::new(PaneState::new(50, 10));
    let mut rows: Vec<Row> = Vec::new();
    let first = core.init_list("/w".to_string(), snapshot(vec![entry("/w/a", 1), entry("", 2)]));
    perform(&mut rows, first);
    assert_eq!(rows, vec![row("a", 1), row("[No Name]", 2)]);
    let listings = vec![
        vec![entry("/w/a", 1), entry("", 2), entry("/w/c", 3)],
        vec![entry("/w/a", 1), entry("/w/c", 3)],
        vec![entry("/w/z", 9), entry("/w/a", 1), entry("/w/c", 3)],
        vec![entry("/w/c", 3), entry("/w/a", 1)],
        vec![entry("/w/c", 3), entry("/w/a", 1)],
        vec![],
        vec![entry("", 4)],
        vec![entry("", 4), entry("", 5)],
    ];
    for listing in listings {
        let at = Layout {
            pane_height: 50,
            row_count: rows.len(),
            first_row_height: if rows.is_empty() { None } else { Some(20) },
        };
        let actions = core.handle(added("/w", listing.clone()), &at);
        perform(&mut rows, actions);
        assert_eq!(core.cache().entries(), &listing);
        let ids: Vec<u64> = rows.iter().map(|row| row.id).collect();
        let cached: Vec<u64> = listing.iter().map(|entry| entry.id).collect();
        assert_eq!(ids, cached);
    }
    assert_eq!(rows, vec![row("[No Name]", 4), row("[No Name]", 5)]);
    let at = layout(50, 2, Some(20));
    let actions = core.handle(
        Event::Notified(Notification::DirectoryChanged { cwd: "/".to_string() }),
        &at,
    );
    perform(&mut rows, actions);
    assert_eq!(rows, vec![row("[No Name]", 4), row("[No Name]", 5)]);
}

#[test]
fn renamed_buffer_keeps_its_label_until_labels_are_made_anew() {
    let mut core = started();
    let mut rows = vec![row("a", 1), row("b", 2)];
    let at = layout(50, 2, Some(20));
    let renamed = vec![entry("/w/renamed", 1), entry("/w/b", 2)];
    let actions = core.handle(added("/w", renamed.clone()), &at);
    perform(&mut rows, actions);
    assert_eq!(rows, vec![row("a", 1), row("b", 2)]);
    assert_eq!(core.cache().entries(), &renamed);
    let actions = core.handle(
        Event::Notified(Notification::DirectoryChanged { cwd: "/w".to_string() }),
        &at,
    );
    perform(&mut rows, actions);
    assert_eq!(rows, vec![row("renamed", 1), row("b", 2)]);
}

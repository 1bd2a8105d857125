//! The dispatcher: from the host's notifications to what the toolkit has
//! to do.
//!
//! The core owns the cache and the pane state. The application hands it
//! one event at a time, together with the layout as it is at that moment,
//! and performs the actions that come back, in order. The core never
//! waits: where a reading has to be put off, it says so in an action and
//! goes on when the reading comes in as an event.
//!
//! A buffer is announced as deleted before the host has taken it off its
//! listing. The listing is therefore read one tick later. While that
//! reading is outstanding, notifications are put into a backlog and
//! handled afterwards, one by one and in the order in which they came.

use vstd::prelude::*;

use crate::command::{switch_command, switch_command_text};
use crate::diff::{
    edit_between,
    edit_fits,
    lemma_lost_id_is_removed,
    lemma_new_id_is_inserted,
    lemma_unchanged_is_no_change,
    reconciled_edit,
    row_of,
    EditScript,
    EditView,
    ViewCache,
};
use crate::entry::{ids, BufferEntry, EntryView};
use crate::error::SyncError;
use crate::label::{buffer_label, get_buffer_name};
use crate::pane::{chosen_height, pane_step, Layout, LayoutView, PaneState, PaneView};
use crate::reader::{Snapshot, SnapshotView};

verus! {

/// A row of the list as it is rendered: the label shown and the buffer
/// that the row stands for.
#[derive(Debug, PartialEq, Eq)]
pub struct Row {
    pub label: String,
    pub id: u64,
}

/// The mathematical value of a [`Row`].
pub struct RowView {
    pub label: Seq<char>,
    pub id: u64,
}

impl View for Row {
    type V = RowView;

    open spec fn view(&self) -> RowView {
        RowView { label: self.label@, id: self.id }
    }
}

impl DeepView for Row {
    type V = RowView;

    open spec fn deep_view(&self) -> RowView {
        self@
    }
}

/// What the application is to do, in the order given.
#[derive(Debug, PartialEq, Eq)]
pub enum Action {
    /// Put a new row in as row `at_index`.
    InsertRow { at_index: usize, row: Row },
    /// Take row `at_index` out.
    RemoveRow { at_index: usize },
    /// Change the label of row `at_index`.
    RelabelRow { at_index: usize, label: String },
    /// Replace all rows.
    ReplaceRows { rows: Vec<Row> },
    /// Highlight row `at_index`.
    SelectRow { at_index: usize },
    /// Set the height of the pane.
    SetPaneHeight { height: u128 },
    /// Let the event loop run once, then read the listing again and hand
    /// it in as [`Event::Requeried`].
    ScheduleRequery,
    /// Hand in [`Event::Resume`]: the backlog holds a notification that
    /// can be handled now.
    Resume,
    /// Log `error`; nothing else needs doing about it.
    Report { error: SyncError },
}

/// The mathematical value of an [`Action`].
pub enum ActionView {
    InsertRow { at_index: int, row: RowView },
    RemoveRow { at_index: int },
    RelabelRow { at_index: int, label: Seq<char> },
    ReplaceRows { rows: Seq<RowView> },
    SelectRow { at_index: int },
    SetPaneHeight { height: nat },
    ScheduleRequery,
    Resume,
    Report { error: SyncError },
}

impl View for Action {
    type V = ActionView;

    open spec fn view(&self) -> ActionView {
        match *self {
            Action::InsertRow { at_index, row } => ActionView::InsertRow {
                at_index: at_index as int,
                row: row@,
            },
            Action::RemoveRow { at_index } => ActionView::RemoveRow { at_index: at_index as int },
            Action::RelabelRow { at_index, label } => ActionView::RelabelRow {
                at_index: at_index as int,
                label: label@,
            },
            Action::ReplaceRows { rows } => ActionView::ReplaceRows { rows: rows.deep_view() },
            Action::SelectRow { at_index } => ActionView::SelectRow { at_index: at_index as int },
            Action::SetPaneHeight { height } => ActionView::SetPaneHeight { height: height as nat },
            Action::ScheduleRequery => ActionView::ScheduleRequery,
            Action::Resume => ActionView::Resume,
            Action::Report { error } => ActionView::Report { error },
        }
    }
}

impl DeepView for Action {
    type V = ActionView;

    open spec fn deep_view(&self) -> ActionView {
        self@
    }
}

/// What the host announces.
#[derive(Debug, PartialEq, Eq)]
pub enum Notification {
    /// A buffer was added. With it come the working directory and the
    /// listing, both read after the buffer was added.
    BufferAdded { cwd: String, snapshot: Snapshot },
    /// A buffer is about to be deleted. The listing still holds it.
    BufferDeleted,
    /// The buffer `id` got the focus.
    BufferFocused { id: u64 },
    /// The working directory changed to `cwd`.
    DirectoryChanged { cwd: String },
}

/// The mathematical value of a [`Notification`].
pub enum NotificationView {
    BufferAdded { cwd: Seq<char>, snapshot: SnapshotView },
    BufferDeleted,
    BufferFocused { id: u64 },
    DirectoryChanged { cwd: Seq<char> },
}

impl View for Notification {
    type V = NotificationView;

    open spec fn view(&self) -> NotificationView {
        match *self {
            Notification::BufferAdded { cwd, snapshot } => NotificationView::BufferAdded {
                cwd: cwd@,
                snapshot: snapshot@,
            },
            Notification::BufferDeleted => NotificationView::BufferDeleted,
            Notification::BufferFocused { id } => NotificationView::BufferFocused { id },
            Notification::DirectoryChanged { cwd } => NotificationView::DirectoryChanged {
                cwd: cwd@,
            },
        }
    }
}

impl DeepView for Notification {
    type V = NotificationView;

    open spec fn deep_view(&self) -> NotificationView {
        self@
    }
}

/// What the application hands to the core.
#[derive(Debug, PartialEq, Eq)]
pub enum Event {
    /// The host announced something.
    Notified(Notification),
    /// The listing that was read one tick after a buffer was announced as
    /// deleted; `None` where the reading failed.
    Requeried(Option<Snapshot>),
    /// The application is ready for the next notification of the backlog.
    Resume,
}

/// The mathematical value of an [`Event`].
pub enum EventView {
    Notified(NotificationView),
    Requeried(Option<SnapshotView>),
    Resume,
}

impl View for Event {
    type V = EventView;

    open spec fn view(&self) -> EventView {
        match *self {
            Event::Notified(notification) => EventView::Notified(notification@),
            Event::Requeried(reply) => EventView::Requeried(
                match reply {
                    Some(snapshot) => Some(snapshot@),
                    None => None,
                },
            ),
            Event::Resume => EventView::Resume,
        }
    }
}

/// The mathematical value of the core.
pub struct CoreView {
    /// The entries of the rendered rows, row by row.
    pub cache: Seq<EntryView>,
    /// Whether the rows can no longer be trusted to show the cache.
    pub stale: bool,
    /// The state of the pane sizer.
    pub pane: PaneView,
    /// The number of rows that the sizer last chose a height for.
    pub sized_rows: nat,
    /// The working directory that the labels are relative to.
    pub cwd: Seq<char>,
    /// Whether a reading of the listing is outstanding.
    pub pending: bool,
    /// The notifications that wait for it, oldest first.
    pub backlog: Seq<NotificationView>,
}

/// The rows that show `entries` while the working directory is `cwd`.
pub open spec fn rows_of(entries: Seq<EntryView>, cwd: Seq<char>) -> Seq<RowView> {
    Seq::new(
        entries.len(),
        |i: int| RowView { label: buffer_label(entries[i].path, cwd), id: entries[i].id },
    )
}

/// What the renderer has to do for `edit`.
pub open spec fn render(edit: EditView, cwd: Seq<char>) -> Seq<ActionView> {
    match edit {
        EditView::NoChange => Seq::empty(),
        EditView::Inserted { at_index, entry } => seq![
            ActionView::InsertRow {
                at_index,
                row: RowView { label: buffer_label(entry.path, cwd), id: entry.id },
            },
        ],
        EditView::Removed { at_index } => seq![ActionView::RemoveRow { at_index }],
        EditView::Replaced { snapshot } => seq![
            ActionView::ReplaceRows { rows: rows_of(snapshot, cwd) },
        ],
    }
}

/// The new label of every row, for a change of the working directory:
/// one for each cached entry that has a row among the `rows` rows of the
/// list.
pub open spec fn relabel_all(entries: Seq<EntryView>, cwd: Seq<char>, rows: nat) -> Seq<
    ActionView,
> {
    Seq::new(
        if rows < entries.len() {
            rows
        } else {
            entries.len()
        },
        |i: int| ActionView::RelabelRow { at_index: i, label: buffer_label(entries[i].path, cwd) },
    )
}

/// The action that sets the pane height, where one is to be set.
pub open spec fn resize_actions(height: Option<nat>) -> Seq<ActionView> {
    match height {
        Some(height) => seq![ActionView::SetPaneHeight { height }],
        None => Seq::empty(),
    }
}

/// A single report.
pub open spec fn report(error: SyncError) -> Seq<ActionView> {
    seq![ActionView::Report { error }]
}

/// The report on records that had to be skipped, where there were any.
pub open spec fn malformed_report(snapshot: SnapshotView) -> Seq<ActionView> {
    if snapshot.malformed > 0 {
        report(SyncError::MalformedRecord)
    } else {
        Seq::empty()
    }
}

/// The report on a difference of more than one entry between the rows
/// and the listing, which should not come about and is mended by
/// replacing all rows.
pub open spec fn resync_report(core: CoreView, snapshot: SnapshotView) -> Seq<ActionView> {
    if !core.stale && edit_between(core.cache, snapshot.entries) is Replaced {
        report(SyncError::InconsistentState)
    } else {
        Seq::empty()
    }
}

/// The number of rows that the sizer last chose a height for, after a
/// step in which it chose `height` for `rows` rows, or chose none.
pub open spec fn sized_for(before: nat, height: Option<nat>, rows: nat) -> nat {
    if height is Some {
        rows
    } else {
        before
    }
}

/// The list at start: all rows rendered from the first listing, and the
/// pane sized for them.
pub open spec fn started(core: CoreView, cwd: Seq<char>, snapshot: SnapshotView) -> (
    CoreView,
    Seq<ActionView>,
) {
    let height = chosen_height(core.pane, snapshot.entries.len());
    (
        CoreView {
            cache: snapshot.entries,
            stale: false,
            sized_rows: sized_for(core.sized_rows, height, snapshot.entries.len()),
            cwd,
            ..core
        },
        malformed_report(snapshot) + seq![
            ActionView::ReplaceRows { rows: rows_of(snapshot.entries, cwd) },
        ] + resize_actions(height),
    )
}

/// Bringing rows, cache and pane in line with a listing.
///
/// The cache takes the listing in every case. An edit that names a row
/// which the list does not have is not handed out: it is reported, and
/// the cache is marked stale, so that the next listing replaces all rows.
/// Where the listing shows no change, that is reported and nothing else
/// happens. Otherwise the edit is rendered and the pane sized, in that
/// order; the sizer looks at the pane as it is before anything is set,
/// and holds it against the height that it last chose itself: the one
/// for `sized_rows` rows, which is not the number of cached entries after
/// an edit was refused.
pub open spec fn synced(core: CoreView, snapshot: SnapshotView, layout: LayoutView) -> (
    CoreView,
    Seq<ActionView>,
) {
    let edit = reconciled_edit(core.stale, core.cache, snapshot.entries);
    if !edit_fits(edit, layout.row_count as int) {
        (
            CoreView { cache: snapshot.entries, stale: true, ..core },
            malformed_report(snapshot) + report(SyncError::InconsistentState),
        )
    } else if edit is NoChange {
        (
            CoreView { cache: snapshot.entries, stale: false, ..core },
            malformed_report(snapshot) + report(SyncError::EmptyResultAfterNotification),
        )
    } else {
        let (pane, height) = pane_step(
            core.pane,
            layout,
            core.sized_rows,
            snapshot.entries.len(),
        );
        (
            CoreView {
                cache: snapshot.entries,
                stale: false,
                pane,
                sized_rows: sized_for(core.sized_rows, height, snapshot.entries.len()),
                ..core
            },
            malformed_report(snapshot) + resync_report(core, snapshot) + render(edit, core.cwd)
                + resize_actions(height),
        )
    }
}

/// The row to highlight for the buffer that got the focus: the first
/// row that stands for it, where that row is among the `rows` rows of the
/// list. Nothing is selected for a buffer without a row.
pub open spec fn focused(core: CoreView, id: u64, rows: nat) -> Seq<ActionView> {
    match row_of(core.cache, id) {
        Some(at_index) if at_index < rows => seq![ActionView::SelectRow { at_index }],
        _ => Seq::empty(),
    }
}

/// Handling one notification.
pub open spec fn processed(core: CoreView, notification: NotificationView, layout: LayoutView) -> (
    CoreView,
    Seq<ActionView>,
) {
    match notification {
        NotificationView::BufferAdded { cwd, snapshot } => synced(
            CoreView { cwd, ..core },
            snapshot,
            layout,
        ),
        NotificationView::BufferDeleted => (
            CoreView { pending: true, ..core },
            seq![ActionView::ScheduleRequery],
        ),
        NotificationView::BufferFocused { id } => (core, focused(core, id, layout.row_count)),
        NotificationView::DirectoryChanged { cwd } => (
            CoreView { cwd, ..core },
            relabel_all(core.cache, cwd, layout.row_count),
        ),
    }
}

/// Handling the listing that was read after a deletion was announced.
/// Every listing handed in is reconciled with, awaited or not; a reading
/// that failed is reported and leaves rows, cache and pane as they are.
/// Either way nothing is awaited afterwards.
pub open spec fn requeried(core: CoreView, reply: Option<SnapshotView>, layout: LayoutView) -> (
    CoreView,
    Seq<ActionView>,
) {
    match reply {
        Some(snapshot) => synced(CoreView { pending: false, ..core }, snapshot, layout),
        None => (CoreView { pending: false, ..core }, report(SyncError::QueryFailure)),
    }
}

/// Whether the core can handle a notification at once: no reading is
/// outstanding and none waits in the backlog.
pub open spec fn idle(core: CoreView) -> bool {
    !core.pending && core.backlog.len() == 0
}

/// Whether the first notification of the backlog can be handled.
pub open spec fn resumable(core: CoreView) -> bool {
    !core.pending && core.backlog.len() > 0
}

/// One step of the core without the closing request to resume.
pub open spec fn dispatched(core: CoreView, event: EventView, layout: LayoutView) -> (
    CoreView,
    Seq<ActionView>,
) {
    match event {
        EventView::Notified(notification) => if idle(core) {
            processed(core, notification, layout)
        } else {
            (CoreView { backlog: core.backlog.push(notification), ..core }, Seq::empty())
        },
        EventView::Requeried(reply) => requeried(core, reply, layout),
        EventView::Resume => if resumable(core) {
            processed(
                CoreView { backlog: core.backlog.remove(0), ..core },
                core.backlog[0],
                layout,
            )
        } else {
            (core, Seq::empty())
        },
    }
}

/// One step of the core: the state it ends in and the actions it asks
/// for. The last action asks to be resumed where a notification of the
/// backlog can be handled next.
pub open spec fn step(core: CoreView, event: EventView, layout: LayoutView) -> (
    CoreView,
    Seq<ActionView>,
) {
    let (next, actions) = dispatched(core, event, layout);
    (
        next,
        if resumable(next) {
            actions.push(ActionView::Resume)
        } else {
            actions
        },
    )
}

/// The state after a run of events, each with the layout found then.
pub open spec fn run(core: CoreView, inputs: Seq<(EventView, LayoutView)>) -> CoreView
    decreases inputs.len(),
{
    if inputs.len() == 0 {
        core
    } else {
        step(run(core, inputs.drop_last()), inputs.last().0, inputs.last().1).0
    }
}

/// All actions of a run of events, in order.
pub open spec fn actions_of(core: CoreView, inputs: Seq<(EventView, LayoutView)>) -> Seq<
    ActionView,
>
    decreases inputs.len(),
{
    if inputs.len() == 0 {
        Seq::empty()
    } else {
        actions_of(core, inputs.drop_last()) + step(
            run(core, inputs.drop_last()),
            inputs.last().0,
            inputs.last().1,
        ).1
    }
}

/// The listing that a step reconciles with, if it reconciles at all.
pub open spec fn listing_taken(core: CoreView, event: EventView) -> Option<Seq<EntryView>> {
    match event {
        EventView::Notified(NotificationView::BufferAdded { snapshot, .. }) if idle(core) => Some(
            snapshot.entries,
        ),
        EventView::Requeried(Some(snapshot)) => Some(snapshot.entries),
        EventView::Resume if resumable(core) => match core.backlog[0] {
            NotificationView::BufferAdded { snapshot, .. } => Some(snapshot.entries),
            _ => None,
        },
        _ => None,
    }
}

/// The listing that a run of events reconciled with last, if it
/// reconciled at all.
pub open spec fn last_listing(core: CoreView, inputs: Seq<(EventView, LayoutView)>) -> Option<
    Seq<EntryView>,
>
    decreases inputs.len(),
{
    if inputs.len() == 0 {
        None
    } else {
        match listing_taken(run(core, inputs.drop_last()), inputs.last().0) {
            Some(listing) => Some(listing),
            None => last_listing(core, inputs.drop_last()),
        }
    }
}

/// A step leaves the cache as it is or makes it the listing it
/// reconciles with: whatever edit comes of it, also where the edit is
/// refused or the listing shows no change.
pub proof fn lemma_step_cache(core: CoreView, event: EventView, layout: LayoutView)
    ensures
        step(core, event, layout).0.cache == match listing_taken(core, event) {
            Some(listing) => listing,
            None => core.cache,
        },
{
}

/// After any run of additions, deletions, focus and directory changes,
/// in any order and with whatever came before, the cache holds the
/// listing that was reconciled last; it is untouched where none was.
pub proof fn lemma_cache_is_last_listing(core: CoreView, inputs: Seq<(EventView, LayoutView)>)
    ensures
        run(core, inputs).cache == match last_listing(core, inputs) {
            Some(listing) => listing,
            None => core.cache,
        },
    decreases inputs.len(),
{
    if inputs.len() > 0 {
        lemma_cache_is_last_listing(core, inputs.drop_last());
        lemma_step_cache(run(core, inputs.drop_last()), inputs.last().0, inputs.last().1);
    }
}

/// A change of the working directory or of the focus touches neither the
/// cache nor the pane.
pub proof fn lemma_labels_leave_state(core: CoreView, notification: NotificationView, layout: LayoutView)
    requires
        notification is BufferFocused || notification is DirectoryChanged,
    ensures
        processed(core, notification, layout).0.cache == core.cache,
        processed(core, notification, layout).0.stale == core.stale,
        processed(core, notification, layout).0.pane == core.pane,
{
}

/// Whether none of `actions` sets the pane height.
pub open spec fn sets_no_height(actions: Seq<ActionView>) -> bool {
    forall|k: int| 0 <= k < actions.len() ==> !(#[trigger] actions[k] is SetPaneHeight)
}

/// Actions that set no height, put one after the other, set no height.
proof fn lemma_no_height_concat(first: Seq<ActionView>, second: Seq<ActionView>)
    requires
        sets_no_height(first),
        sets_no_height(second),
    ensures
        sets_no_height(first + second),
{
}

/// Reports and rendering set no height.
proof fn lemma_rendering_sets_no_height(core: CoreView, snapshot: SnapshotView)
    ensures
        sets_no_height(malformed_report(snapshot)),
        sets_no_height(resync_report(core, snapshot)),
        forall|error: SyncError| sets_no_height(#[trigger] report(error)),
        forall|edit: EditView| sets_no_height(#[trigger] render(edit, core.cwd)),
        sets_no_height(resize_actions(None)),
{
}

/// Once the user has resized the pane, reconciling with a listing
/// neither sets its height nor changes the state of the sizer.
proof fn lemma_manual_synced(core: CoreView, snapshot: SnapshotView, layout: LayoutView)
    requires
        core.pane.manually_resized,
    ensures
        synced(core, snapshot, layout).0.pane == core.pane,
        sets_no_height(synced(core, snapshot, layout).1),
{
    lemma_rendering_sets_no_height(core, snapshot);
    let edit = reconciled_edit(core.stale, core.cache, snapshot.entries);
    let reports = malformed_report(snapshot);
    if !edit_fits(edit, layout.row_count as int) {
        lemma_no_height_concat(reports, report(SyncError::InconsistentState));
    } else if edit is NoChange {
        lemma_no_height_concat(reports, report(SyncError::EmptyResultAfterNotification));
    } else {
        let first = reports + resync_report(core, snapshot);
        lemma_no_height_concat(reports, resync_report(core, snapshot));
        lemma_no_height_concat(first, render(edit, core.cwd));
        lemma_no_height_concat(first + render(edit, core.cwd), resize_actions(None));
    }
}

/// Once the user has resized the pane, handling a notification neither
/// sets its height nor changes the state of the sizer.
proof fn lemma_manual_processed(
    core: CoreView,
    notification: NotificationView,
    layout: LayoutView,
)
    requires
        core.pane.manually_resized,
    ensures
        processed(core, notification, layout).0.pane == core.pane,
        sets_no_height(processed(core, notification, layout).1),
{
    match notification {
        NotificationView::BufferAdded { cwd, snapshot } => {
            lemma_manual_synced(CoreView { cwd, ..core }, snapshot, layout);
        },
        _ => {},
    }
}

/// The same for the listing read after a deletion.
proof fn lemma_manual_requeried(core: CoreView, reply: Option<SnapshotView>, layout: LayoutView)
    requires
        core.pane.manually_resized,
    ensures
        requeried(core, reply, layout).0.pane == core.pane,
        sets_no_height(requeried(core, reply, layout).1),
{
    match reply {
        Some(snapshot) => {
            lemma_manual_synced(CoreView { pending: false, ..core }, snapshot, layout);
        },
        None => {},
    }
}

/// Once the user has resized the pane, a step neither sets its height
/// nor changes the state of the sizer.
pub proof fn lemma_manual_step(core: CoreView, event: EventView, layout: LayoutView)
    requires
        core.pane.manually_resized,
    ensures
        step(core, event, layout).0.pane == core.pane,
        sets_no_height(step(core, event, layout).1),
{
    match event {
        EventView::Notified(notification) => {
            if idle(core) {
                lemma_manual_processed(core, notification, layout);
            }
        },
        EventView::Requeried(reply) => {
            lemma_manual_requeried(core, reply, layout);
        },
        EventView::Resume => {
            if resumable(core) {
                lemma_manual_processed(
                    CoreView { backlog: core.backlog.remove(0), ..core },
                    core.backlog[0],
                    layout,
                );
            }
        },
    }
}

/// Once the user has resized the pane, no run of events sets its height
/// or changes the state of the sizer.
pub proof fn lemma_manual_run(core: CoreView, inputs: Seq<(EventView, LayoutView)>)
    requires
        core.pane.manually_resized,
    ensures
        run(core, inputs).pane == core.pane,
        sets_no_height(actions_of(core, inputs)),
    decreases inputs.len(),
{
    if inputs.len() > 0 {
        lemma_manual_run(core, inputs.drop_last());
        lemma_manual_step(run(core, inputs.drop_last()), inputs.last().0, inputs.last().1);
        lemma_no_height_concat(
            actions_of(core, inputs.drop_last()),
            step(run(core, inputs.drop_last()), inputs.last().0, inputs.last().1).1,
        );
    }
}

/// Notifications keep their order: one that cannot be handled at once
/// goes to the end of the backlog, and the one handled next is the
/// oldest.
pub proof fn lemma_backlog_is_fifo(core: CoreView, event: EventView, layout: LayoutView)
    ensures
        event is Notified && !idle(core) ==> step(core, event, layout).0.backlog
            == core.backlog.push(event->Notified_0),
        event is Resume && resumable(core) ==> step(core, event, layout).0.backlog
            == core.backlog.remove(0),
        event is Requeried ==> step(core, event, layout).0.backlog == core.backlog,
{
}

/// A buffer that is new to the rows gets its row, and only that: where
/// the core is idle and the rows show the cache, a listing with one more
/// entry, of an identifier that no row has, leads to exactly one
/// insertion, at the place of the entry, followed by what the sizer
/// chooses.
pub proof fn lemma_added_buffer_is_inserted(
    core: CoreView,
    cwd: Seq<char>,
    at: int,
    entry: EntryView,
    layout: LayoutView,
)
    requires
        idle(core),
        !core.stale,
        0 <= at <= core.cache.len(),
        !ids(core.cache).contains(entry.id),
        layout.row_count == core.cache.len(),
    ensures
        ({
            let listing = SnapshotView { entries: core.cache.insert(at, entry), malformed: 0 };
            let event = EventView::Notified(NotificationView::BufferAdded { cwd, snapshot: listing });
            let (next, actions) = step(core, event, layout);
            &&& next.cache == listing.entries
            &&& idle(next)
            &&& actions == seq![
                ActionView::InsertRow {
                    at_index: at,
                    row: RowView { label: buffer_label(entry.path, cwd), id: entry.id },
                },
            ] + resize_actions(
                pane_step(core.pane, layout, core.sized_rows, core.cache.len() + 1).1,
            )
        }),
{
    lemma_new_id_is_inserted(core.cache, at, entry);
    let listing = SnapshotView { entries: core.cache.insert(at, entry), malformed: 0 };
    let with_cwd = CoreView { cwd, ..core };
    let edit = reconciled_edit(with_cwd.stale, with_cwd.cache, listing.entries);
    assert(edit == (EditView::Inserted { at_index: at, entry }));
    assert(edit_fits(edit, layout.row_count as int));
    assert(listing.entries.len() == core.cache.len() + 1);
    let height = pane_step(core.pane, layout, core.sized_rows, listing.entries.len()).1;
    let row = RowView { label: buffer_label(entry.path, cwd), id: entry.id };
    assert(synced(with_cwd, listing, layout).1 =~= seq![
        ActionView::InsertRow { at_index: at, row },
    ] + resize_actions(height));
}

/// A deletion is read one tick later and applied once: the notification
/// changes nothing but asks for the listing to be read again; the
/// listing, where it lacks one entry of an identifier that no other row
/// has, leads to exactly one removal, at the row of that entry, followed
/// by what the sizer chooses; and the same listing, should it come in
/// once more, removes nothing.
pub proof fn lemma_deleted_buffer_is_removed_once(
    core: CoreView,
    at: int,
    layout: LayoutView,
    later: LayoutView,
)
    requires
        idle(core),
        !core.stale,
        0 <= at < core.cache.len(),
        !ids(core.cache.remove(at)).contains(core.cache[at].id),
        layout.row_count == core.cache.len(),
    ensures
        ({
            let announced = step(
                core,
                EventView::Notified(NotificationView::BufferDeleted),
                layout,
            );
            let listing = SnapshotView { entries: core.cache.remove(at), malformed: 0 };
            let read = step(announced.0, EventView::Requeried(Some(listing)), layout);
            let again = step(read.0, EventView::Requeried(Some(listing)), later);
            &&& announced.0 == (CoreView { pending: true, ..core })
            &&& announced.1 == seq![ActionView::ScheduleRequery]
            &&& read.0.cache == listing.entries
            &&& idle(read.0)
            &&& read.1 == seq![ActionView::RemoveRow { at_index: at }] + resize_actions(
                pane_step(core.pane, layout, core.sized_rows, (core.cache.len() - 1) as nat).1,
            )
            &&& again.0 == read.0
            &&& again.1 == report(SyncError::EmptyResultAfterNotification)
        }),
{
    lemma_lost_id_is_removed(core.cache, at);
    let waiting = CoreView { pending: true, ..core };
    let listing = SnapshotView { entries: core.cache.remove(at), malformed: 0 };
    let ready = CoreView { pending: false, ..waiting };
    let edit = reconciled_edit(ready.stale, ready.cache, listing.entries);
    assert(edit == (EditView::Removed { at_index: at }));
    assert(edit_fits(edit, layout.row_count as int));
    assert(listing.entries.len() == core.cache.len() - 1);
    let height = pane_step(core.pane, layout, core.sized_rows, listing.entries.len()).1;
    assert(synced(ready, listing, layout).1 =~= seq![ActionView::RemoveRow { at_index: at }]
        + resize_actions(height));
    assert(step(core, EventView::Notified(NotificationView::BufferDeleted), layout).1 =~= seq![
        ActionView::ScheduleRequery,
    ]);
    let done = synced(ready, listing, layout).0;
    lemma_unchanged_is_no_change(done.cache, listing.entries);
    assert(synced(CoreView { pending: false, ..done }, listing, later).1 =~= report(
        SyncError::EmptyResultAfterNotification,
    ));
}

/// Adds one action to the end of `actions`.
fn emit(actions: &mut Vec<Action>, action: Action)
    ensures
        final(actions)@ == old(actions)@.push(action),
        final(actions).deep_view() == old(actions).deep_view().push(action@),
        final(actions).deep_view() == old(actions).deep_view() + seq![action@],
{
    actions.push(action);
    assert(actions.deep_view() =~= old(actions).deep_view().push(action@));
    assert(actions.deep_view() =~= old(actions).deep_view() + seq![action@]);
}

/// Adds a report to the end of `actions`.
fn emit_report(actions: &mut Vec<Action>, error: SyncError)
    ensures
        final(actions).deep_view() == old(actions).deep_view() + report(error),
{
    emit(actions, Action::Report { error });
}

/// The row that shows `entry`.
fn make_row(entry: &BufferEntry, cwd: &str) -> (row: Row)
    ensures
        row@ == (RowView { label: buffer_label(entry@.path, cwd@), id: entry@.id }),
{
    Row { label: get_buffer_name(entry.path.as_str(), cwd), id: entry.id }
}

/// The rows that show `entries`.
fn make_rows(entries: &Vec<BufferEntry>, cwd: &str) -> (rows: Vec<Row>)
    ensures
        rows.deep_view() == rows_of(entries.deep_view(), cwd@),
{
    let mut rows: Vec<Row> = Vec::new();
    let mut i: usize = 0;
    while i < entries.len()
        invariant
            i <= entries.len(),
            rows.len() == i,
            forall|k: int|
                0 <= k < i ==> (#[trigger] rows[k])@ == rows_of(entries.deep_view(), cwd@)[k],
        decreases entries.len() - i,
    {
        rows.push(make_row(&entries[i], cwd));
        i += 1;
    }
    assert(rows.deep_view() =~= rows_of(entries.deep_view(), cwd@));
    rows
}

/// Adds to `actions` what the renderer has to do for `edit`.
fn render_edit(actions: &mut Vec<Action>, edit: EditScript, cwd: &str)
    ensures
        final(actions).deep_view() == old(actions).deep_view() + render(edit@, cwd@),
{
    match edit {
        EditScript::NoChange => {
            assert(actions.deep_view() =~= actions.deep_view() + render(edit@, cwd@));
        },
        EditScript::Inserted { at_index, entry } => {
            let row = make_row(&entry, cwd);
            emit(actions, Action::InsertRow { at_index, row });
        },
        EditScript::Removed { at_index } => {
            emit(actions, Action::RemoveRow { at_index });
        },
        EditScript::Replaced { snapshot } => {
            let rows = make_rows(&snapshot, cwd);
            emit(actions, Action::ReplaceRows { rows });
        },
    }
}

/// Adds to `actions` the one that sets the pane height, where a height
/// was chosen.
fn emit_height(actions: &mut Vec<Action>, height: Option<u128>)
    ensures
        final(actions).deep_view() == old(actions).deep_view() + resize_actions(
            match height {
                Some(h) => Some(h as nat),
                None => None,
            },
        ),
{
    match height {
        Some(height) => {
            emit(actions, Action::SetPaneHeight { height });
        },
        None => {
            assert(actions.deep_view() =~= actions.deep_view() + Seq::<ActionView>::empty());
        },
    }
}

/// Adds to `actions` the report on skipped records, where there were any.
fn emit_malformed(actions: &mut Vec<Action>, malformed: usize)
    ensures
        final(actions).deep_view() == old(actions).deep_view() + (if malformed > 0 {
            report(SyncError::MalformedRecord)
        } else {
            Seq::empty()
        }),
{
    if malformed > 0 {
        emit_report(actions, SyncError::MalformedRecord);
    } else {
        assert(actions.deep_view() =~= actions.deep_view() + Seq::<ActionView>::empty());
    }
}

/// The synchronization core: the cache of what is rendered, the state of
/// the pane sizer, and what is needed to keep notifications in order.
#[derive(Debug)]
pub struct SyncCore {
    cache: ViewCache,
    pane: PaneState,
    sized_rows: usize,
    cwd: String,
    pending: bool,
    backlog: Vec<Notification>,
}

impl View for SyncCore {
    type V = CoreView;

    closed spec fn view(&self) -> CoreView {
        CoreView {
            cache: self.cache@,
            stale: self.cache.stale(),
            pane: self.pane@,
            sized_rows: self.sized_rows as nat,
            cwd: self.cwd@,
            pending: self.pending,
            backlog: self.backlog.deep_view(),
        }
    }
}

impl SyncCore {
    /// The core of a panel that shows nothing yet.
    pub fn new(pane: PaneState) -> (core: Self)
        ensures
            core@ == (CoreView {
                cache: Seq::empty(),
                stale: false,
                pane: pane@,
                sized_rows: 0,
                cwd: Seq::empty(),
                pending: false,
                backlog: Seq::empty(),
            }),
    {
        let core = SyncCore {
            cache: ViewCache::new(),
            pane,
            sized_rows: 0,
            cwd: String::new(),
            pending: false,
            backlog: Vec::new(),
        };
        assert(core.backlog.deep_view() =~= Seq::<NotificationView>::empty());
        core
    }

    /// The entries of the rendered rows.
    pub fn cache(&self) -> (cache: &ViewCache)
        ensures
            cache@ == self@.cache,
            cache.stale() == self@.stale,
    {
        &self.cache
    }

    /// The state of the pane sizer.
    pub fn pane(&self) -> (pane: PaneState)
        ensures
            pane@ == self@.pane,
    {
        self.pane
    }

    /// The number of rows that the sizer last chose a height for.
    pub fn sized_rows(&self) -> (rows: usize)
        ensures
            rows == self@.sized_rows,
    {
        self.sized_rows
    }

    /// The working directory that the labels are relative to.
    pub fn cwd(&self) -> (cwd: &str)
        ensures
            cwd@ == self@.cwd,
    {
        self.cwd.as_str()
    }

    /// Whether a reading of the listing is outstanding.
    pub fn is_pending(&self) -> (pending: bool)
        ensures
            pending == self@.pending,
    {
        self.pending
    }

    /// The number of notifications that wait in the backlog.
    pub fn backlog_len(&self) -> (len: usize)
        ensures
            len == self@.backlog.len(),
    {
        self.backlog.len()
    }

    /// Renders the list at start from the first listing and sizes the
    /// pane for it.
    pub fn init_list(&mut self, cwd: String, snapshot: Snapshot) -> (actions: Vec<Action>)
        ensures
            final(self)@ == started(old(self)@, cwd@, snapshot@).0,
            actions.deep_view() == started(old(self)@, cwd@, snapshot@).1,
            final(self)@.cache == snapshot@.entries,
    {
        let Snapshot { entries, malformed } = snapshot;
        let mut actions: Vec<Action> = Vec::new();
        assert(actions.deep_view() =~= Seq::<ActionView>::empty());
        emit_malformed(&mut actions, malformed);
        let rows = make_rows(&entries, cwd.as_str());
        emit(&mut actions, Action::ReplaceRows { rows });
        let height = self.pane.update_pane_position(entries.len());
        if height.is_some() {
            self.sized_rows = entries.len();
        }
        emit_height(&mut actions, height);
        let _ = self.cache.reconcile(entries);
        self.cwd = cwd;
        assert(actions.deep_view() =~= started(old(self)@, cwd@, snapshot@).1);
        actions
    }

    /// Brings rows, cache and pane in line with a listing.
    fn sync(&mut self, snapshot: Snapshot, layout: &Layout) -> (actions: Vec<Action>)
        ensures
            final(self)@ == synced(old(self)@, snapshot@, layout@).0,
            actions.deep_view() == synced(old(self)@, snapshot@, layout@).1,
            final(self)@.cache == snapshot@.entries,
    {
        let Snapshot { entries, malformed } = snapshot;
        let mut actions: Vec<Action> = Vec::new();
        assert(actions.deep_view() =~= Seq::<ActionView>::empty());
        emit_malformed(&mut actions, malformed);
        assert(actions.deep_view() =~= malformed_report(snapshot@));
        let prev_rows = self.sized_rows;
        let new_rows = entries.len();
        let was_stale = self.cache.is_stale();
        let edit = self.cache.reconcile(entries);
        match edit.check_bounds(layout.row_count) {
            Err(error) => {
                self.cache.mark_stale();
                emit_report(&mut actions, error);
                return actions;
            },
            Ok(_) => {},
        }
        let replaced = match &edit {
            EditScript::Replaced { .. } => true,
            _ => false,
        };
        let unchanged = match &edit {
            EditScript::NoChange => true,
            _ => false,
        };
        if unchanged {
            emit_report(&mut actions, SyncError::EmptyResultAfterNotification);
            return actions;
        }
        if replaced && !was_stale {
            emit_report(&mut actions, SyncError::InconsistentState);
        } else {
            assert(actions.deep_view() =~= actions.deep_view() + Seq::<ActionView>::empty());
        }
        render_edit(&mut actions, edit, self.cwd.as_str());
        let height = self.pane.resize(layout, prev_rows, new_rows);
        if height.is_some() {
            self.sized_rows = new_rows;
        }
        emit_height(&mut actions, height);
        actions
    }

    /// A buffer was added: reconciles with the listing that came with the
    /// notification, using the working directory that came with it.
    pub fn on_buf_add(&mut self, cwd: String, snapshot: Snapshot, layout: &Layout) -> (actions:
        Vec<Action>)
        ensures
            final(self)@ == synced(
                CoreView { cwd: cwd@, ..old(self)@ },
                snapshot@,
                layout@,
            ).0,
            actions.deep_view() == synced(
                CoreView { cwd: cwd@, ..old(self)@ },
                snapshot@,
                layout@,
            ).1,
            final(self)@.cache == snapshot@.entries,
    {
        self.cwd = cwd;
        self.sync(snapshot, layout)
    }

    /// The listing read one tick after a deletion was announced has come
    /// in: reconciles with it, so that the cache holds that listing
    /// afterwards. A reading that failed is reported and leaves rows,
    /// cache and pane as they are.
    pub fn on_buf_delete(&mut self, reply: Option<Snapshot>, layout: &Layout) -> (actions: Vec<
        Action,
    >)
        ensures
            final(self)@ == requeried(
                old(self)@,
                match reply {
                    Some(snapshot) => Some(snapshot@),
                    None => None,
                },
                layout@,
            ).0,
            actions.deep_view() == requeried(
                old(self)@,
                match reply {
                    Some(snapshot) => Some(snapshot@),
                    None => None,
                },
                layout@,
            ).1,
            match reply {
                Some(snapshot) => final(self)@.cache == snapshot@.entries,
                None => final(self)@ == (CoreView { pending: false, ..old(self)@ }),
            },
    {
        self.pending = false;
        match reply {
            Some(snapshot) => self.sync(snapshot, layout),
            None => {
                let mut actions: Vec<Action> = Vec::new();
                assert(actions.deep_view() =~= Seq::<ActionView>::empty());
                emit_report(&mut actions, SyncError::QueryFailure);
                assert(actions.deep_view() =~= report(SyncError::QueryFailure));
                actions
            },
        }
    }

    /// The buffer `id` got the focus: selects its row, if it has one
    /// among the `row_count` rows of the list.
    pub fn on_buf_enter(&self, id: u64, row_count: usize) -> (actions: Vec<Action>)
        ensures
            actions.deep_view() == focused(self@, id, row_count as nat),
            forall|k: int|
                0 <= k < actions.len() ==> (#[trigger] actions[k] matches Action::SelectRow {
                    at_index,
                } && at_index < row_count),
    {
        let mut actions: Vec<Action> = Vec::new();
        assert(actions.deep_view() =~= Seq::<ActionView>::empty());
        match self.cache.position_of(id) {
            Some(at_index) => {
                if at_index < row_count {
                    emit(&mut actions, Action::SelectRow { at_index });
                    assert(actions.deep_view() =~= focused(self@, id, row_count as nat));
                }
            },
            None => {},
        }
        actions
    }

    /// The working directory changed: gives every row its label anew,
    /// as far as there are rows among the `row_count` rows of the list.
    /// Cache and pane stay as they are.
    pub fn on_dir_changed(&mut self, cwd: String, row_count: usize) -> (actions: Vec<Action>)
        ensures
            final(self)@ == (CoreView { cwd: cwd@, ..old(self)@ }),
            actions.deep_view() == relabel_all(old(self)@.cache, cwd@, row_count as nat),
    {
        let mut actions: Vec<Action> = Vec::new();
        let entries = self.cache.entries();
        let count = if row_count < entries.len() {
            row_count
        } else {
            entries.len()
        };
        let mut i: usize = 0;
        while i < count
            invariant
                i <= count <= entries.len(),
                actions.len() == i,
                entries.deep_view() == self@.cache,
                count == relabel_all(self@.cache, cwd@, row_count as nat).len(),
                forall|k: int|
                    0 <= k < i ==> (#[trigger] actions[k])@ == relabel_all(
                        self@.cache,
                        cwd@,
                        row_count as nat,
                    )[k],
            decreases count - i,
        {
            let label = get_buffer_name(entries[i].path.as_str(), cwd.as_str());
            actions.push(Action::RelabelRow { at_index: i, label });
            i += 1;
        }
        assert(actions.deep_view() =~= relabel_all(self@.cache, cwd@, row_count as nat));
        self.cwd = cwd;
        actions
    }

    /// Handles one notification.
    fn process(&mut self, notification: Notification, layout: &Layout) -> (actions: Vec<Action>)
        ensures
            final(self)@ == processed(old(self)@, notification@, layout@).0,
            actions.deep_view() == processed(old(self)@, notification@, layout@).1,
    {
        match notification {
            Notification::BufferAdded { cwd, snapshot } => self.on_buf_add(cwd, snapshot, layout),
            Notification::BufferDeleted => {
                self.pending = true;
                let mut actions: Vec<Action> = Vec::new();
                assert(actions.deep_view() =~= Seq::<ActionView>::empty());
                emit(&mut actions, Action::ScheduleRequery);
                assert(actions.deep_view() =~= seq![ActionView::ScheduleRequery]);
                actions
            },
            Notification::BufferFocused { id } => self.on_buf_enter(id, layout.row_count),
            Notification::DirectoryChanged { cwd } => self.on_dir_changed(cwd, layout.row_count),
        }
    }

    /// Handles one event, given the layout as it is now, and returns what
    /// the application is to do, in order.
    ///
    /// A notification is handled at once where nothing is outstanding;
    /// otherwise it goes to the end of the backlog. The listing read after
    /// a deletion is reconciled with when it comes in. `Resume` handles
    /// the oldest notification of the backlog.
    pub fn handle(&mut self, event: Event, layout: &Layout) -> (actions: Vec<Action>)
        ensures
            final(self)@ == step(old(self)@, event@, layout@).0,
            actions.deep_view() == step(old(self)@, event@, layout@).1,
    {
        let mut actions = match event {
            Event::Notified(notification) => {
                if !self.pending && self.backlog.len() == 0 {
                    self.process(notification, layout)
                } else {
                    self.backlog.push(notification);
                    assert(self.backlog.deep_view() =~= old(self).backlog.deep_view().push(
                        notification@,
                    ));
                    let actions: Vec<Action> = Vec::new();
                    assert(actions.deep_view() =~= Seq::<ActionView>::empty());
                    actions
                }
            },
            Event::Requeried(reply) => self.on_buf_delete(reply, layout),
            Event::Resume => {
                if !self.pending && self.backlog.len() > 0 {
                    let notification = self.backlog.remove(0);
                    assert(self.backlog.deep_view() =~= old(self).backlog.deep_view().remove(0));
                    self.process(notification, layout)
                } else {
                    let actions: Vec<Action> = Vec::new();
                    assert(actions.deep_view() =~= Seq::<ActionView>::empty());
                    actions
                }
            },
        };
        if !self.pending && self.backlog.len() > 0 {
            emit(&mut actions, Action::Resume);
        }
        actions
    }

    /// The user activated row `index`: the command that makes its buffer
    /// the host's active one, if the row exists.
    pub fn on_row_activated(&self, index: usize) -> (command: Option<String>)
        ensures
            index < self@.cache.len() ==> (command matches Some(text) && text@
                == switch_command_text(self@.cache[index as int].id)),
            index >= self@.cache.len() ==> command is None,
    {
        match self.cache.get(index) {
            Some(entry) => Some(switch_command(entry.id)),
            None => None,
        }
    }
}

} // verus!

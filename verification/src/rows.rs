//! The rows of the list as the actions of the core leave them.
//!
//! The core never sees the list itself; it is told the number of rows and
//! hands out actions. This module says what those actions do to the rows
//! when they are performed in order, and proves what the rows then show:
//! after every reconciliation they stand for the cached entries, row by
//! row. Their labels are those of the cached entries as long as paths and
//! working directory change only through the actions meant for that. A
//! listing in which a buffer has a new path but its old identifier is no
//! change to the rows, so the row keeps its old label until the labels
//! are next made anew.

use vstd::prelude::*;

use crate::diff::{
    edit_between,
    edit_fits,
    lemma_edit_aligns_rows,
    reconciled_edit,
    EditView,
};
use crate::dispatch::{
    malformed_report,
    processed,
    relabel_all,
    render,
    report,
    resize_actions,
    resync_report,
    rows_of,
    started,
    synced,
    ActionView,
    CoreView,
    NotificationView,
    RowView,
};
use crate::entry::{ids, EntryView};
use crate::error::SyncError;
use crate::label::buffer_label;
use crate::pane::LayoutView;
use crate::reader::SnapshotView;

verus! {

/// The identifiers of the buffers that the rows stand for, row by row.
pub open spec fn row_ids(rows: Seq<RowView>) -> Seq<u64> {
    rows.map_values(|row: RowView| row.id)
}

/// The rows after one action has been performed. An action that names a
/// row which is not there does nothing.
pub open spec fn performed_one(rows: Seq<RowView>, action: ActionView) -> Seq<RowView> {
    match action {
        ActionView::InsertRow { at_index, row } => if 0 <= at_index <= rows.len() {
            rows.insert(at_index, row)
        } else {
            rows
        },
        ActionView::RemoveRow { at_index } => if 0 <= at_index < rows.len() {
            rows.remove(at_index)
        } else {
            rows
        },
        ActionView::RelabelRow { at_index, label } => if 0 <= at_index < rows.len() {
            rows.update(at_index, RowView { label, id: rows[at_index].id })
        } else {
            rows
        },
        ActionView::ReplaceRows { rows: all } => all,
        _ => rows,
    }
}

/// The rows after `actions` have been performed, in order.
pub open spec fn performed(rows: Seq<RowView>, actions: Seq<ActionView>) -> Seq<RowView>
    decreases actions.len(),
{
    if actions.len() == 0 {
        rows
    } else {
        performed_one(performed(rows, actions.drop_last()), actions.last())
    }
}

/// Performing one run of actions after another is performing both in
/// one go.
pub proof fn lemma_performed_concat(
    rows: Seq<RowView>,
    first: Seq<ActionView>,
    second: Seq<ActionView>,
)
    ensures
        performed(rows, first + second) == performed(performed(rows, first), second),
    decreases second.len(),
{
    if second.len() == 0 {
        assert(first + second =~= first);
    } else {
        lemma_performed_concat(rows, first, second.drop_last());
        assert((first + second).drop_last() =~= first + second.drop_last());
        assert((first + second).last() == second.last());
    }
}

/// A single action performed on its own.
proof fn lemma_performed_single(rows: Seq<RowView>, action: ActionView)
    ensures
        performed(rows, seq![action]) == performed_one(rows, action),
{
    assert(seq![action].drop_last() =~= Seq::<ActionView>::empty());
    assert(seq![action].last() == action);
    assert(performed(rows, seq![action].drop_last()) == rows);
}

/// Reports and the setting of the pane height leave the rows alone.
proof fn lemma_rows_untouched(rows: Seq<RowView>, core: CoreView, snapshot: SnapshotView)
    ensures
        performed(rows, malformed_report(snapshot)) == rows,
        performed(rows, resync_report(core, snapshot)) == rows,
        forall|error: SyncError| performed(rows, #[trigger] report(error)) == rows,
        forall|height: Option<nat>| performed(rows, #[trigger] resize_actions(height)) == rows,
{
    assert forall|error: SyncError| performed(rows, #[trigger] report(error)) == rows by {
        lemma_performed_single(rows, ActionView::Report { error });
    }
    assert forall|height: Option<nat>| performed(rows, #[trigger] resize_actions(height))
        == rows by {
        if height is Some {
            lemma_performed_single(rows, ActionView::SetPaneHeight { height: height->Some_0 });
        }
    }
}

/// The row that shows `entry` while the working directory is `cwd`.
pub open spec fn row_for(entry: EntryView, cwd: Seq<char>) -> RowView {
    RowView { label: buffer_label(entry.path, cwd), id: entry.id }
}

/// What rendering an edit does to rows that the edit fits.
proof fn lemma_rendered(rows: Seq<RowView>, edit: EditView, cwd: Seq<char>)
    requires
        edit_fits(edit, rows.len() as int),
    ensures
        performed(rows, render(edit, cwd)) == match edit {
            EditView::NoChange => rows,
            EditView::Inserted { at_index, entry } => rows.insert(at_index, row_for(entry, cwd)),
            EditView::Removed { at_index } => rows.remove(at_index),
            EditView::Replaced { snapshot } => rows_of(snapshot, cwd),
        },
{
    match edit {
        EditView::NoChange => {},
        EditView::Inserted { at_index, entry } => {
            lemma_performed_single(
                rows,
                ActionView::InsertRow { at_index, row: row_for(entry, cwd) },
            );
        },
        EditView::Removed { at_index } => {
            lemma_performed_single(rows, ActionView::RemoveRow { at_index });
        },
        EditView::Replaced { snapshot } => {
            lemma_performed_single(rows, ActionView::ReplaceRows { rows: rows_of(snapshot, cwd) });
        },
    }
}

/// The rows after the actions of a reconciliation that renders `edit`.
proof fn lemma_synced_rows(
    rows: Seq<RowView>,
    core: CoreView,
    snapshot: SnapshotView,
    layout: LayoutView,
)
    requires
        layout.row_count == rows.len(),
    ensures
        ({
            let edit = reconciled_edit(core.stale, core.cache, snapshot.entries);
            performed(rows, synced(core, snapshot, layout).1) == if edit_fits(
                edit,
                rows.len() as int,
            ) {
                performed(rows, render(edit, core.cwd))
            } else {
                rows
            }
        }),
{
    let edit = reconciled_edit(core.stale, core.cache, snapshot.entries);
    let reports = malformed_report(snapshot);
    lemma_rows_untouched(rows, core, snapshot);
    if !edit_fits(edit, layout.row_count as int) {
        lemma_performed_concat(rows, reports, report(SyncError::InconsistentState));
    } else if edit is NoChange {
        lemma_performed_concat(rows, reports, report(SyncError::EmptyResultAfterNotification));
    } else {
        let resync = resync_report(core, snapshot);
        let drawn = render(edit, core.cwd);
        let after = performed(rows, drawn);
        lemma_rows_untouched(after, core, snapshot);
        lemma_performed_concat(rows, reports, resync);
        lemma_performed_concat(rows, reports + resync, drawn);
        assert(performed(rows, reports + resync + drawn) == after);
        assert forall|sized: Option<nat>|
            performed(rows, reports + resync + drawn + #[trigger] resize_actions(sized))
                == after by {
            lemma_performed_concat(rows, reports + resync + drawn, resize_actions(sized));
        }
    }
}

/// Rows and cache stay aligned: where the rows stand for the cached
/// entries, row by row, or the cache is known to be stale, the rows stand
/// for the new listing after the actions of a reconciliation have been
/// performed, and the cache is not stale. The labels play no part in
/// this.
pub proof fn lemma_rows_follow_cache(
    rows: Seq<RowView>,
    core: CoreView,
    snapshot: SnapshotView,
    layout: LayoutView,
)
    requires
        layout.row_count == rows.len(),
        core.stale || row_ids(rows) == ids(core.cache),
    ensures
        !synced(core, snapshot, layout).0.stale,
        synced(core, snapshot, layout).0.cache == snapshot.entries,
        row_ids(performed(rows, synced(core, snapshot, layout).1)) == ids(snapshot.entries),
{
    let edit = reconciled_edit(core.stale, core.cache, snapshot.entries);
    lemma_synced_rows(rows, core, snapshot, layout);
    if core.stale {
        lemma_rendered(rows, edit, core.cwd);
        assert(row_ids(rows_of(snapshot.entries, core.cwd)) =~= ids(snapshot.entries));
    } else {
        lemma_edit_aligns_rows(core.cache, snapshot.entries);
        assert(rows.len() == core.cache.len()) by {
            assert(row_ids(rows).len() == ids(core.cache).len());
        }
        lemma_rendered(rows, edit, core.cwd);
        match edit {
            EditView::NoChange => {},
            EditView::Inserted { at_index, entry } => {
                assert(row_ids(rows.insert(at_index, row_for(entry, core.cwd))) =~= row_ids(
                    rows,
                ).insert(at_index, entry.id));
            },
            EditView::Removed { at_index } => {
                assert(row_ids(rows.remove(at_index)) =~= row_ids(rows).remove(at_index));
            },
            EditView::Replaced { snapshot: all } => {
                assert(row_ids(rows_of(all, core.cwd)) =~= ids(all));
            },
        }
    }
}

/// Whether the listing `new` is the cache `old` but for the one entry
/// that the edit between them names: no other entry came, went, or has
/// another path.
pub open spec fn only_edit_differs(old: Seq<EntryView>, new: Seq<EntryView>) -> bool {
    match edit_between(old, new) {
        EditView::NoChange => forall|i: int|
            0 <= i < old.len() ==> (#[trigger] new[i]).path == old[i].path,
        EditView::Inserted { at_index, .. } => forall|i: int|
            0 <= i < old.len() ==> (#[trigger] old[i]).path == new[if i < at_index {
                i
            } else {
                i + 1
            }].path,
        EditView::Removed { at_index } => forall|i: int|
            0 <= i < new.len() ==> (#[trigger] new[i]).path == old[if i < at_index {
                i
            } else {
                i + 1
            }].path,
        EditView::Replaced { .. } => true,
    }
}

/// The rows show the labels of the cache after a reconciliation, where
/// they did so before and nothing changed but what the edit names: where
/// the rows are the ones for the cached entries in the working
/// directory, and the listing gives no kept entry another path, the rows
/// are the ones for the new listing once the actions have been
/// performed.
pub proof fn lemma_rows_show_labels(
    core: CoreView,
    snapshot: SnapshotView,
    layout: LayoutView,
)
    requires
        !core.stale,
        layout.row_count == core.cache.len(),
        only_edit_differs(core.cache, snapshot.entries),
    ensures
        performed(rows_of(core.cache, core.cwd), synced(core, snapshot, layout).1) == rows_of(
            snapshot.entries,
            core.cwd,
        ),
{
    let rows = rows_of(core.cache, core.cwd);
    let old = core.cache;
    let new = snapshot.entries;
    let edit = edit_between(old, new);
    assert(row_ids(rows) =~= ids(old));
    lemma_rows_follow_cache(rows, core, snapshot, layout);
    lemma_synced_rows(rows, core, snapshot, layout);
    lemma_edit_aligns_rows(old, new);
    lemma_rendered(rows, edit, core.cwd);
    let after = performed(rows, synced(core, snapshot, layout).1);
    assert(row_ids(after) == ids(new));
    assert(after.len() == new.len()) by {
        assert(row_ids(after).len() == ids(new).len());
    }
    assert forall|i: int| 0 <= i < new.len() implies after[i] == rows_of(new, core.cwd)[i] by {
        assert(row_ids(after)[i] == ids(new)[i]);
        match edit {
            EditView::NoChange => {},
            EditView::Inserted { at_index, entry } => {
                if i < at_index {
                    assert(old[i].path == new[i].path);
                } else if i > at_index {
                    assert(old[i - 1].path == new[i].path);
                }
            },
            EditView::Removed { at_index } => {},
            EditView::Replaced { .. } => {},
        }
    }
    assert(after =~= rows_of(new, core.cwd));
}

/// At start, and whenever the whole list is rendered anew, the rows are
/// the ones for the listing, whatever was there before.
pub proof fn lemma_started_rows(
    rows: Seq<RowView>,
    core: CoreView,
    cwd: Seq<char>,
    snapshot: SnapshotView,
)
    ensures
        performed(rows, started(core, cwd, snapshot).1) == rows_of(snapshot.entries, cwd),
{
    let reports = malformed_report(snapshot);
    let drawn = seq![ActionView::ReplaceRows { rows: rows_of(snapshot.entries, cwd) }];
    lemma_rows_untouched(rows, core, snapshot);
    lemma_performed_concat(rows, reports, drawn);
    lemma_performed_single(rows, ActionView::ReplaceRows { rows: rows_of(snapshot.entries, cwd) });
    let after = performed(rows, reports + drawn);
    lemma_rows_untouched(after, core, snapshot);
    assert forall|sized: Option<nat>|
        performed(rows, reports + drawn + #[trigger] resize_actions(sized)) == after by {
        lemma_performed_concat(rows, reports + drawn, resize_actions(sized));
    }
}

/// The rows after the first `upto` relabelling actions for a change of
/// the working directory.
proof fn lemma_relabelled(rows: Seq<RowView>, entries: Seq<EntryView>, cwd: Seq<char>, upto: int)
    requires
        row_ids(rows) == ids(entries),
        0 <= upto <= entries.len(),
    ensures
        ({
            let after = performed(rows, relabel_all(entries, cwd, rows.len()).take(upto));
            &&& after.len() == rows.len()
            &&& forall|i: int| 0 <= i < upto ==> after[i] == row_for(entries[i], cwd)
            &&& forall|i: int| upto <= i < rows.len() ==> after[i] == rows[i]
        }),
    decreases upto,
{
    let all = relabel_all(entries, cwd, rows.len());
    assert(rows.len() == entries.len()) by {
        assert(row_ids(rows).len() == rows.len());
        assert(ids(entries).len() == entries.len());
    }
    assert(all.len() == entries.len());
    if upto == 0 {
        assert(all.take(0).len() == 0);
    } else {
        lemma_relabelled(rows, entries, cwd, upto - 1);
        let before = performed(rows, all.take(upto - 1));
        let after = performed(rows, all.take(upto));
        assert(all.take(upto).drop_last() =~= all.take(upto - 1));
        assert(all.take(upto).last() == all[upto - 1]);
        assert(after == performed_one(before, all[upto - 1]));
        assert(before[upto - 1] == rows[upto - 1]);
        assert(row_ids(rows)[upto - 1] == rows[upto - 1].id);
        assert(ids(entries)[upto - 1] == entries[upto - 1].id);
        assert(rows[upto - 1].id == entries[upto - 1].id);
        assert(after == before.update(upto - 1, row_for(entries[upto - 1], cwd)));
    }
}

/// After a change of the working directory, every row shows the label of
/// its cached entry in the new directory, provided the rows stood for
/// the cached entries before.
pub proof fn lemma_directory_change_relabels(
    rows: Seq<RowView>,
    core: CoreView,
    cwd: Seq<char>,
    layout: LayoutView,
)
    requires
        layout.row_count == rows.len(),
        row_ids(rows) == ids(core.cache),
    ensures
        ({
            let (next, actions) = processed(
                core,
                NotificationView::DirectoryChanged { cwd },
                layout,
            );
            performed(rows, actions) == rows_of(next.cache, next.cwd)
        }),
{
    let all = relabel_all(core.cache, cwd, rows.len());
    lemma_relabelled(rows, core.cache, cwd, core.cache.len() as int);
    assert(rows.len() == core.cache.len()) by {
        assert(row_ids(rows).len() == rows.len());
        assert(ids(core.cache).len() == core.cache.len());
    }
    assert(all.take(core.cache.len() as int) =~= all);
    assert(performed(rows, all) =~= rows_of(core.cache, cwd));
}

} // verus!

//! The diff engine: what has to change on screen for the rendered list to
//! show a new listing.
//!
//! Entries are told apart by their identifier and by nothing else. Where
//! exactly one entry came or went, the edit names that one row; where
//! nothing came or went, there is nothing to do; in every other case the
//! whole list is replaced.

use vstd::prelude::*;

use crate::entry::{ids, BufferEntry, EntryView};
use crate::error::SyncError;

verus! {

/// The change that brings the rendered list in line with a new listing.
#[derive(Debug, PartialEq, Eq)]
pub enum EditScript {
    /// The rows already show the listing.
    NoChange,
    /// One entry is new: it goes in as row `at_index`.
    Inserted { at_index: usize, entry: BufferEntry },
    /// One entry is gone: row `at_index` goes out.
    Removed { at_index: usize },
    /// More than that differs: all rows are replaced by `snapshot`.
    Replaced { snapshot: Vec<BufferEntry> },
}

/// The mathematical value of an [`EditScript`].
pub enum EditView {
    NoChange,
    Inserted { at_index: int, entry: EntryView },
    Removed { at_index: int },
    Replaced { snapshot: Seq<EntryView> },
}

impl View for EditScript {
    type V = EditView;

    open spec fn view(&self) -> EditView {
        match *self {
            EditScript::NoChange => EditView::NoChange,
            EditScript::Inserted { at_index, entry } => EditView::Inserted {
                at_index: at_index as int,
                entry: entry@,
            },
            EditScript::Removed { at_index } => EditView::Removed { at_index: at_index as int },
            EditScript::Replaced { snapshot } => EditView::Replaced {
                snapshot: snapshot.deep_view(),
            },
        }
    }
}

impl DeepView for EditScript {
    type V = EditView;

    open spec fn deep_view(&self) -> EditView {
        self@
    }
}

/// Whether `longer` is `shorter` with one identifier put in at `at`, an
/// identifier that `shorter` does not hold.
pub open spec fn inserts_at(shorter: Seq<u64>, longer: Seq<u64>, at: int) -> bool {
    &&& 0 <= at < longer.len()
    &&& !shorter.contains(longer[at])
    &&& longer.remove(at) =~= shorter
}

/// Whether `longer` is `shorter` with one new identifier put in somewhere.
pub open spec fn is_insertion(shorter: Seq<u64>, longer: Seq<u64>) -> bool {
    exists|at: int| inserts_at(shorter, longer, at)
}

/// Where the new identifier was put in. There is only one such place
/// ([`lemma_insertion_unique`]).
pub open spec fn insertion_index(shorter: Seq<u64>, longer: Seq<u64>) -> int {
    choose|at: int| inserts_at(shorter, longer, at)
}

/// The edit that leads from the rows `old` to the listing `new`.
///
/// Only the identifiers decide. The same identifiers in the same order
/// need no change, whatever the paths say. One identifier more, which
/// `old` does not hold, is an insertion at its place in `new`; one
/// identifier less, which `new` does not hold, is a removal at its place
/// in `old`. Everything else replaces the list.
pub open spec fn edit_between(old: Seq<EntryView>, new: Seq<EntryView>) -> EditView {
    if ids(old) =~= ids(new) {
        EditView::NoChange
    } else if is_insertion(ids(old), ids(new)) {
        let at = insertion_index(ids(old), ids(new));
        EditView::Inserted { at_index: at, entry: new[at] }
    } else if is_insertion(ids(new), ids(old)) {
        EditView::Removed { at_index: insertion_index(ids(new), ids(old)) }
    } else {
        EditView::Replaced { snapshot: new }
    }
}

/// Whether `edit` can be applied to a list of `rows` rows: the row it
/// names exists, or is the next one to come.
pub open spec fn edit_fits(edit: EditView, rows: int) -> bool {
    match edit {
        EditView::Inserted { at_index, .. } => 0 <= at_index <= rows,
        EditView::Removed { at_index } => 0 <= at_index < rows,
        _ => true,
    }
}

/// The identifiers of the rows after `edit` has been applied to `rows`.
pub open spec fn apply_edit(rows: Seq<u64>, edit: EditView) -> Seq<u64> {
    match edit {
        EditView::NoChange => rows,
        EditView::Inserted { at_index, entry } => rows.insert(at_index, entry.id),
        EditView::Removed { at_index } => rows.remove(at_index),
        EditView::Replaced { snapshot } => ids(snapshot),
    }
}

/// Whether `at` is the first row that shows the buffer `id`.
pub open spec fn is_first_row_of(entries: Seq<EntryView>, id: u64, at: int) -> bool {
    &&& 0 <= at < entries.len()
    &&& entries[at].id == id
    &&& forall|k: int| 0 <= k < at ==> entries[k].id != id
}

/// The first row that shows the buffer `id`, if there is one.
pub open spec fn row_of(entries: Seq<EntryView>, id: u64) -> Option<int> {
    if exists|at: int| is_first_row_of(entries, id, at) {
        Some(choose|at: int| is_first_row_of(entries, id, at))
    } else {
        None
    }
}

/// Once the first row of a buffer is known, so is what [`row_of`] stands
/// for.
pub proof fn lemma_first_row(entries: Seq<EntryView>, id: u64, at: int)
    requires
        is_first_row_of(entries, id, at),
    ensures
        row_of(entries, id) == Some(at),
{
    let chosen = choose|k: int| is_first_row_of(entries, id, k);
    assert(is_first_row_of(entries, id, chosen));
    if chosen < at {
        assert(entries[chosen].id != id);
    } else if at < chosen {
        assert(entries[at].id != id);
    }
}

/// An insertion has one place only.
pub proof fn lemma_insertion_unique(shorter: Seq<u64>, longer: Seq<u64>, a: int, b: int)
    requires
        inserts_at(shorter, longer, a),
        inserts_at(shorter, longer, b),
    ensures
        a == b,
{
    if a < b {
        assert(longer.remove(b)[a] == longer[a]);
        assert(shorter[a] == longer[a]);
    } else if b < a {
        assert(longer.remove(a)[b] == longer[b]);
        assert(shorter[b] == longer[b]);
    }
}

/// Once the place of an insertion is known, so is the index that
/// [`insertion_index`] stands for.
pub proof fn lemma_insertion_index(shorter: Seq<u64>, longer: Seq<u64>, at: int)
    requires
        inserts_at(shorter, longer, at),
    ensures
        is_insertion(shorter, longer),
        insertion_index(shorter, longer) == at,
{
    lemma_insertion_unique(shorter, longer, at, insertion_index(shorter, longer));
}

/// Reconciling with a listing that holds the same identifiers in the same
/// order yields no change; in particular, reconciling twice with the same
/// listing yields no change the second time.
pub proof fn lemma_unchanged_is_no_change(old: Seq<EntryView>, new: Seq<EntryView>)
    requires
        ids(old) == ids(new),
    ensures
        edit_between(old, new) == EditView::NoChange,
        edit_between(new, new) == EditView::NoChange,
{
}

/// The edit depends on the identifiers alone: listings that agree on
/// them, whatever their paths, lead to the same kind of edit at the same
/// row.
pub proof fn lemma_edit_ignores_paths(
    old_a: Seq<EntryView>,
    new_a: Seq<EntryView>,
    old_b: Seq<EntryView>,
    new_b: Seq<EntryView>,
)
    requires
        ids(old_a) == ids(old_b),
        ids(new_a) == ids(new_b),
    ensures
        match edit_between(old_a, new_a) {
            EditView::NoChange => edit_between(old_b, new_b) == EditView::NoChange,
            EditView::Inserted { at_index, entry } => edit_between(old_b, new_b)
                == (EditView::Inserted { at_index, entry: new_b[at_index] }),
            EditView::Removed { at_index } => edit_between(old_b, new_b) == (EditView::Removed {
                at_index,
            }),
            EditView::Replaced { snapshot } => edit_between(old_b, new_b) == (EditView::Replaced {
                snapshot: new_b,
            }),
        },
{
}

/// An entry whose identifier the rows do not hold is always reported as
/// inserted, at the place where it stands, and never taken for one of the
/// rows: also where its path is that of another row, or empty as theirs.
pub proof fn lemma_new_id_is_inserted(old: Seq<EntryView>, at: int, entry: EntryView)
    requires
        0 <= at <= old.len(),
        !ids(old).contains(entry.id),
    ensures
        edit_between(old, old.insert(at, entry)) == (EditView::Inserted { at_index: at, entry }),
{
    let new = old.insert(at, entry);
    assert(ids(new).remove(at) =~= ids(old));
    assert(ids(new)[at] == entry.id);
    lemma_insertion_index(ids(old), ids(new), at);
    assert(ids(old).len() != ids(new).len());
}

/// An entry whose identifier no other row holds is reported as removed,
/// at its row, when it alone is gone: also where its path is that of
/// another row.
pub proof fn lemma_lost_id_is_removed(old: Seq<EntryView>, at: int)
    requires
        0 <= at < old.len(),
        !ids(old.remove(at)).contains(old[at].id),
    ensures
        edit_between(old, old.remove(at)) == (EditView::Removed { at_index: at }),
{
    let new = old.remove(at);
    assert(ids(old).remove(at) =~= ids(new));
    lemma_insertion_index(ids(new), ids(old), at);
    assert(ids(old).len() != ids(new).len());
    assert(!is_insertion(ids(old), ids(new))) by {
        if is_insertion(ids(old), ids(new)) {
            let k = insertion_index(ids(old), ids(new));
            assert(ids(new).remove(k).len() == ids(new).len() - 1);
        }
    }
}

/// Applying the edit to the rows that show `old` yields rows that show
/// `new`, identifier by identifier: rows and cache stay aligned. The edit
/// itself always fits those rows.
pub proof fn lemma_edit_aligns_rows(old: Seq<EntryView>, new: Seq<EntryView>)
    ensures
        apply_edit(ids(old), edit_between(old, new)) == ids(new),
        edit_fits(edit_between(old, new), old.len() as int),
{
    let o = ids(old);
    let n = ids(new);
    if o =~= n {
    } else if is_insertion(o, n) {
        let at = insertion_index(o, n);
        assert(n.remove(at).len() == n.len() - 1);
        assert(o.insert(at, new[at].id) =~= n);
    } else if is_insertion(n, o) {
        let at = insertion_index(n, o);
        assert(o.remove(at).len() == o.len() - 1);
    } else {
    }
}

/// Whether `longer` and `shorter` agree on the identifiers of their first
/// `upto` entries.
spec fn heads_agree(longer: Seq<u64>, shorter: Seq<u64>, upto: int) -> bool {
    forall|k: int| 0 <= k < upto ==> longer[k] == shorter[k]
}

/// Whether `longer`, behind its entry `at`, goes on as `shorter` does from
/// `at`, up to the entry `upto` of `shorter`.
spec fn tails_agree(longer: Seq<u64>, shorter: Seq<u64>, at: int, upto: int) -> bool {
    forall|k: int| at <= k < upto ==> longer[k + 1] == shorter[k]
}

/// An insertion stands where the two listings first differ.
proof fn lemma_insertion_at_first_difference(
    shorter: Seq<u64>,
    longer: Seq<u64>,
    at: int,
    first: int,
)
    requires
        inserts_at(shorter, longer, at),
        0 <= first <= shorter.len(),
        heads_agree(longer, shorter, first),
        first < shorter.len() ==> longer[first] != shorter[first],
    ensures
        at == first,
        tails_agree(longer, shorter, first, shorter.len() as int),
{
    assert(longer.remove(at).len() == longer.len() - 1);
    if at < first {
        assert(shorter[at] == longer[at]);
    } else if first < at {
        assert(longer.remove(at)[first] == longer[first]);
    }
    assert forall|k: int| at <= k < shorter.len() implies longer[k + 1] == shorter[k] by {
        assert(longer.remove(at)[k] == longer[k + 1]);
    }
}

/// The identifier of each entry, as [`ids`] lists them.
proof fn lemma_ids_of(entries: &Vec<BufferEntry>)
    ensures
        ids(entries.deep_view()).len() == entries.len(),
        forall|k: int|
            0 <= k < entries.len() ==> #[trigger] ids(entries.deep_view())[k] == entries[k].id,
{
}

/// The first index at which two listings differ in their identifiers,
/// or the length of the shorter one where it is a head of the other.
fn first_difference(a: &Vec<BufferEntry>, b: &Vec<BufferEntry>) -> (first: usize)
    ensures
        first <= a.len(),
        first <= b.len(),
        heads_agree(ids(a.deep_view()), ids(b.deep_view()), first as int),
        first < a.len() && first < b.len() ==> a[first as int].id != b[first as int].id,
{
    proof {
        lemma_ids_of(a);
        lemma_ids_of(b);
    }
    let mut i: usize = 0;
    while i < a.len() && i < b.len() && a[i].id == b[i].id
        invariant
            i <= a.len(),
            i <= b.len(),
            forall|k: int| 0 <= k < i ==> a[k].id == b[k].id,
        decreases a.len() - i,
    {
        i += 1;
    }
    i
}

/// Whether `longer`, without its entry `at`, goes on as `shorter` does.
fn rest_agrees(longer: &Vec<BufferEntry>, shorter: &Vec<BufferEntry>, at: usize) -> (agrees: bool)
    requires
        longer.len() == shorter.len() + 1,
        at <= shorter.len(),
    ensures
        agrees == tails_agree(
            ids(longer.deep_view()),
            ids(shorter.deep_view()),
            at as int,
            shorter.len() as int,
        ),
{
    proof {
        lemma_ids_of(longer);
        lemma_ids_of(shorter);
    }
    let mut k: usize = at;
    while k < shorter.len()
        invariant
            at <= k <= shorter.len(),
            longer.len() == shorter.len() + 1,
            forall|j: int| at <= j < k ==> longer[j + 1].id == shorter[j].id,
        decreases shorter.len() - k,
    {
        if longer[k + 1].id != shorter[k].id {
            assert(ids(longer.deep_view())[k + 1] != ids(shorter.deep_view())[k as int]);
            return false;
        }
        k += 1;
    }
    true
}

/// Whether one of `entries` has the identifier `id`.
fn holds_id(entries: &Vec<BufferEntry>, id: u64) -> (held: bool)
    ensures
        held == ids(entries.deep_view()).contains(id),
{
    proof {
        lemma_ids_of(entries);
    }
    let mut k: usize = 0;
    while k < entries.len()
        invariant
            k <= entries.len(),
            forall|j: int| 0 <= j < k ==> entries[j].id != id,
        decreases entries.len() - k,
    {
        if entries[k].id == id {
            assert(ids(entries.deep_view())[k as int] == id);
            return true;
        }
        k += 1;
    }
    false
}

/// The place at which `longer` has one new entry more than `shorter`, if
/// that is all in which the two differ.
fn find_insertion(shorter: &Vec<BufferEntry>, longer: &Vec<BufferEntry>) -> (place: Option<usize>)
    ensures
        match place {
            Some(at) => inserts_at(
                ids(shorter.deep_view()),
                ids(longer.deep_view()),
                at as int,
            ),
            None => !is_insertion(ids(shorter.deep_view()), ids(longer.deep_view())),
        },
{
    let ghost s = ids(shorter.deep_view());
    let ghost l = ids(longer.deep_view());
    proof {
        lemma_ids_of(shorter);
        lemma_ids_of(longer);
    }
    if shorter.len() == usize::MAX || longer.len() != shorter.len() + 1 {
        assert(!is_insertion(s, l)) by {
            if is_insertion(s, l) {
                let at = insertion_index(s, l);
                assert(l.remove(at).len() == l.len() - 1);
            }
        }
        return None;
    }
    let first = first_difference(longer, shorter);
    if rest_agrees(longer, shorter, first) && !holds_id(shorter, longer[first].id) {
        assert(l.remove(first as int) =~= s);
        Some(first)
    } else {
        assert(!is_insertion(s, l)) by {
            if is_insertion(s, l) {
                let at = insertion_index(s, l);
                lemma_insertion_at_first_difference(s, l, at, first as int);
            }
        }
        None
    }
}

/// Whether two listings hold the same identifiers in the same order.
fn same_ids(a: &Vec<BufferEntry>, b: &Vec<BufferEntry>) -> (same: bool)
    ensures
        same == (ids(a.deep_view()) =~= ids(b.deep_view())),
{
    proof {
        lemma_ids_of(a);
        lemma_ids_of(b);
    }
    if a.len() != b.len() {
        assert(ids(a.deep_view()).len() != ids(b.deep_view()).len());
        return false;
    }
    let first = first_difference(a, b);
    if first < a.len() {
        assert(ids(a.deep_view())[first as int] != ids(b.deep_view())[first as int]);
    }
    first == a.len()
}

/// A copy of a listing.
fn copy_entries(entries: &Vec<BufferEntry>) -> (copy: Vec<BufferEntry>)
    ensures
        copy.deep_view() == entries.deep_view(),
{
    let mut copy: Vec<BufferEntry> = Vec::new();
    let mut k: usize = 0;
    while k < entries.len()
        invariant
            k <= entries.len(),
            copy.len() == k,
            forall|j: int| 0 <= j < k ==> copy[j]@ == entries[j]@,
        decreases entries.len() - k,
    {
        copy.push(entries[k].clone());
        k += 1;
    }
    assert(copy.deep_view() =~= entries.deep_view());
    copy
}

/// Computes the edit that leads from the rows `old` to the listing `new`.
pub fn diff(old: &Vec<BufferEntry>, new: &Vec<BufferEntry>) -> (edit: EditScript)
    ensures
        edit@ == edit_between(old.deep_view(), new.deep_view()),
{
    proof {
        lemma_ids_of(old);
        lemma_ids_of(new);
    }
    if same_ids(old, new) {
        return EditScript::NoChange;
    }
    match find_insertion(old, new) {
        Some(at) => {
            proof {
                lemma_insertion_index(ids(old.deep_view()), ids(new.deep_view()), at as int);
            }
            return EditScript::Inserted { at_index: at, entry: new[at].clone() };
        },
        None => {},
    }
    match find_insertion(new, old) {
        Some(at) => {
            proof {
                lemma_insertion_index(ids(new.deep_view()), ids(old.deep_view()), at as int);
            }
            EditScript::Removed { at_index: at }
        },
        None => EditScript::Replaced { snapshot: copy_entries(new) },
    }
}

impl EditScript {
    /// Checks the edit against the number of rows it is to be applied to.
    /// An edit that names a row outside of them would corrupt the view:
    /// it is refused as `InconsistentState`.
    pub fn check_bounds(&self, row_count: usize) -> (checked: Result<(), SyncError>)
        ensures
            edit_fits(self@, row_count as int) ==> checked is Ok,
            !edit_fits(self@, row_count as int) ==> checked == Err::<(), SyncError>(
                SyncError::InconsistentState,
            ),
    {
        let fits = match self {
            EditScript::Inserted { at_index, .. } => *at_index <= row_count,
            EditScript::Removed { at_index } => *at_index < row_count,
            _ => true,
        };
        if fits {
            Ok(())
        } else {
            Err(SyncError::InconsistentState)
        }
    }
}

/// What is on screen, as the diff engine remembers it: the entries of the
/// rendered rows, row by row.
///
/// The cache changes through [`ViewCache::reconcile`] only, which leaves
/// it equal to the listing it was given. It can be marked stale, which
/// says that the rows can no longer be trusted to show it; the next
/// reconciliation then replaces them all.
#[derive(Debug)]
pub struct ViewCache {
    entries: Vec<BufferEntry>,
    stale: bool,
}

impl View for ViewCache {
    type V = Seq<EntryView>;

    closed spec fn view(&self) -> Seq<EntryView> {
        self.entries.deep_view()
    }
}

/// The edit that a reconciliation yields: the difference between the
/// cache and the listing, or a replacement of all rows where the cache
/// is stale.
pub open spec fn reconciled_edit(stale: bool, old: Seq<EntryView>, new: Seq<EntryView>) -> EditView {
    if stale {
        EditView::Replaced { snapshot: new }
    } else {
        edit_between(old, new)
    }
}

impl ViewCache {
    /// Whether the rows can no longer be trusted to show the cache.
    pub closed spec fn stale(&self) -> bool {
        self.stale
    }

    /// The cache of an empty list.
    pub fn new() -> (cache: Self)
        ensures
            cache@ == Seq::<EntryView>::empty(),
            !cache.stale(),
    {
        let cache = ViewCache { entries: Vec::new(), stale: false };
        assert(cache@ =~= Seq::<EntryView>::empty());
        cache
    }

    /// The number of cached entries, which is the number of rows.
    pub fn len(&self) -> (len: usize)
        ensures
            len == self@.len(),
    {
        self.entries.len()
    }

    /// The entry of row `index`.
    pub fn get(&self, index: usize) -> (entry: Option<&BufferEntry>)
        ensures
            index < self@.len() ==> (entry matches Some(e) && e@ == self@[index as int]),
            index >= self@.len() ==> entry is None,
    {
        if index < self.entries.len() {
            Some(&self.entries[index])
        } else {
            None
        }
    }

    /// The cached entries, row by row.
    pub fn entries(&self) -> (entries: &Vec<BufferEntry>)
        ensures
            entries.deep_view() == self@,
    {
        &self.entries
    }

    /// Whether the rows can no longer be trusted to show the cache.
    pub fn is_stale(&self) -> (stale: bool)
        ensures
            stale == self.stale(),
    {
        self.stale
    }

    /// Marks the cache as stale: the next reconciliation replaces all
    /// rows, whatever the difference is.
    pub fn mark_stale(&mut self)
        ensures
            final(self)@ == old(self)@,
            final(self).stale(),
    {
        self.stale = true;
    }

    /// The first row that shows the buffer `id`.
    pub fn position_of(&self, id: u64) -> (row: Option<usize>)
        ensures
            match row {
                Some(at) => row_of(self@, id) == Some(at as int),
                None => row_of(self@, id) is None,
            },
    {
        let mut k: usize = 0;
        while k < self.entries.len()
            invariant
                k <= self.entries.len(),
                forall|j: int| 0 <= j < k ==> self@[j].id != id,
            decreases self.entries.len() - k,
        {
            if self.entries[k].id == id {
                proof {
                    assert(self@[k as int].id == id);
                    lemma_first_row(self@, id, k as int);
                }
                return Some(k);
            }
            k += 1;
        }
        None
    }

    /// Brings the cache in line with `new_snapshot` and returns the edit
    /// that does the same to the rows.
    ///
    /// Whatever the edit, the cache equals the new listing afterwards and
    /// is no longer stale.
    pub fn reconcile(&mut self, new_snapshot: Vec<BufferEntry>) -> (edit: EditScript)
        ensures
            final(self)@ == new_snapshot.deep_view(),
            !final(self).stale(),
            edit@ == reconciled_edit(old(self).stale(), old(self)@, new_snapshot.deep_view()),
    {
        let edit = if self.stale {
            EditScript::Replaced { snapshot: copy_entries(&new_snapshot) }
        } else {
            diff(&self.entries, &new_snapshot)
        };
        self.entries = new_snapshot;
        self.stale = false;
        edit
    }
}

} // verus!

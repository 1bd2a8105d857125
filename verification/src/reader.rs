//! Reading a buffer listing: from the host's raw report to an ordered
//! sequence of entries.
//!
//! The report is a list of records, each a table of fields. A record
//! becomes an entry when it is well formed and marked as listed. A record
//! that cannot be read is skipped and counted; it never blanks the list.

use vstd::prelude::*;

use crate::entry::{BufferEntry, EntryView};
use crate::error::SyncError;
use crate::raw::{truth, RawValue};

verus! {

/// Field that holds the buffer's path (text).
pub open spec fn name_key() -> Seq<char> {
    "name"@
}

/// Field that holds the buffer's identifier (a number).
pub open spec fn id_key() -> Seq<char> {
    "bufnr"@
}

/// Field that marks the buffer as listed (a flag).
pub open spec fn listed_key() -> Seq<char> {
    "listed"@
}

/// Field that tells whether the buffer has unsaved changes (a flag). It
/// may be absent.
pub open spec fn changed_key() -> Seq<char> {
    "changed"@
}

/// Whether `value` is the text `key`.
pub open spec fn is_key(value: RawValue, key: Seq<char>) -> bool {
    value matches RawValue::Text(text) && text@ == key
}

/// The value stored under `key`. Where the key occurs more than once, the
/// last occurrence counts.
pub open spec fn field(fields: Seq<(RawValue, RawValue)>, key: Seq<char>) -> Option<RawValue>
    decreases fields.len(),
{
    if fields.len() == 0 {
        None
    } else if is_key(fields.last().0, key) {
        Some(fields.last().1)
    } else {
        field(fields.drop_last(), key)
    }
}

/// Whether every key of the table is text.
pub open spec fn keys_are_text(fields: Seq<(RawValue, RawValue)>) -> bool {
    forall|j: int| 0 <= j < fields.len() ==> (#[trigger] fields[j]).0 is Text
}

/// Whether an optional flag is there and says yes.
pub open spec fn says_yes(flag: Option<RawValue>) -> bool {
    flag matches Some(value) && truth(value) == Some(true)
}

/// What a record amounts to.
pub enum RecordStatus {
    /// Well formed and listed: it is shown.
    Listed(EntryView),
    /// Well formed, but not marked as listed: it is left out.
    Unlisted,
    /// Not a table, a key that is not text, a required field missing, or
    /// a field of the wrong type.
    Malformed,
}

/// Reads one table of fields.
///
/// The path and the identifier are required. The listed mark and the
/// changed flag may be absent, which means no; where they are there, they
/// must be flags.
pub open spec fn classify_fields(fields: Seq<(RawValue, RawValue)>) -> RecordStatus {
    let name = field(fields, name_key());
    let id = field(fields, id_key());
    let listed = field(fields, listed_key());
    let changed = field(fields, changed_key());
    if !keys_are_text(fields) {
        RecordStatus::Malformed
    } else if !(name matches Some(RawValue::Text(_))) {
        RecordStatus::Malformed
    } else if !(id matches Some(RawValue::Number(_))) {
        RecordStatus::Malformed
    } else if listed matches Some(mark) && truth(mark) is None {
        RecordStatus::Malformed
    } else if changed matches Some(flag) && truth(flag) is None {
        RecordStatus::Malformed
    } else if !says_yes(listed) {
        RecordStatus::Unlisted
    } else {
        RecordStatus::Listed(
            EntryView {
                path: name->Some_0->Text_0@,
                id: id->Some_0->Number_0,
                modified: says_yes(changed),
            },
        )
    }
}

/// Reads one record of a listing.
pub open spec fn classify(record: RawValue) -> RecordStatus {
    match record {
        RawValue::Table(fields) => classify_fields(fields@),
        _ => RecordStatus::Malformed,
    }
}

/// The entry that `record` contributes to the list, if any.
pub open spec fn listed_entry(record: RawValue) -> Option<EntryView> {
    match classify(record) {
        RecordStatus::Listed(entry) => Some(entry),
        _ => None,
    }
}

/// The entries of a listing: one for each well-formed, listed record, in
/// the order of the records.
pub open spec fn listed_entries(records: Seq<RawValue>) -> Seq<EntryView> {
    records.filter_map(|record: RawValue| listed_entry(record))
}

/// How many records of a listing are malformed.
pub open spec fn malformed_count(records: Seq<RawValue>) -> nat {
    records.filter(|record: RawValue| classify(record) is Malformed).len()
}

/// What [`parse_record`] returns for a record of the given status.
pub open spec fn parsed_as(
    outcome: Result<Option<BufferEntry>, SyncError>,
    status: RecordStatus,
) -> bool {
    match status {
        RecordStatus::Listed(entry) => outcome matches Ok(Some(parsed)) && parsed@ == entry,
        RecordStatus::Unlisted => outcome matches Ok(None),
        RecordStatus::Malformed => outcome matches Err(SyncError::MalformedRecord),
    }
}

/// The field names, allocated once per read.
struct FieldNames {
    name: String,
    id: String,
    listed: String,
    changed: String,
}

impl FieldNames {
    spec fn valid(&self) -> bool {
        &&& self.name@ == name_key()
        &&& self.id@ == id_key()
        &&& self.listed@ == listed_key()
        &&& self.changed@ == changed_key()
    }

    fn new() -> (names: Self)
        ensures
            names.valid(),
    {
        FieldNames {
            name: "name".to_owned(),
            id: "bufnr".to_owned(),
            listed: "listed".to_owned(),
            changed: "changed".to_owned(),
        }
    }
}

/// Where the last occurrence of a key was seen while scanning a table.
spec fn found_at(
    fields: Seq<(RawValue, RawValue)>,
    upto: int,
    key: Seq<char>,
    at: Option<usize>,
) -> bool {
    match at {
        Some(j) => j < upto && field(fields.take(upto), key) == Some(fields[j as int].1),
        None => field(fields.take(upto), key) is None,
    }
}

proof fn lemma_found_next(
    fields: Seq<(RawValue, RawValue)>,
    upto: int,
    key: Seq<char>,
    at: Option<usize>,
)
    requires
        0 <= upto < fields.len(),
        upto < usize::MAX,
        found_at(fields, upto, key, at),
    ensures
        found_at(
            fields,
            upto + 1,
            key,
            if is_key(fields[upto].0, key) {
                Some(upto as usize)
            } else {
                at
            },
        ),
{
    assert(fields.take(upto + 1).drop_last() == fields.take(upto));
    assert(fields.take(upto + 1).last() == fields[upto]);
}

fn parse_fields(fields: &Vec<(RawValue, RawValue)>, names: &FieldNames) -> (outcome: Result<
    Option<BufferEntry>,
    SyncError,
>)
    requires
        names.valid(),
    ensures
        parsed_as(outcome, classify_fields(fields@)),
{
    let mut name_at: Option<usize> = None;
    let mut id_at: Option<usize> = None;
    let mut listed_at: Option<usize> = None;
    let mut changed_at: Option<usize> = None;
    let mut i: usize = 0;
    assert(fields@.take(0) == Seq::<(RawValue, RawValue)>::empty());
    while i < fields.len()
        invariant
            i <= fields.len(),
            names.valid(),
            forall|j: int| 0 <= j < i ==> (#[trigger] fields@[j]).0 is Text,
            found_at(fields@, i as int, name_key(), name_at),
            found_at(fields@, i as int, id_key(), id_at),
            found_at(fields@, i as int, listed_key(), listed_at),
            found_at(fields@, i as int, changed_key(), changed_at),
        decreases fields.len() - i,
    {
        proof {
            lemma_found_next(fields@, i as int, name_key(), name_at);
            lemma_found_next(fields@, i as int, id_key(), id_at);
            lemma_found_next(fields@, i as int, listed_key(), listed_at);
            lemma_found_next(fields@, i as int, changed_key(), changed_at);
        }
        match &fields[i].0 {
            RawValue::Text(key) => {
                if *key == names.name {
                    name_at = Some(i);
                }
                if *key == names.id {
                    id_at = Some(i);
                }
                if *key == names.listed {
                    listed_at = Some(i);
                }
                if *key == names.changed {
                    changed_at = Some(i);
                }
            },
            _ => {
                return Err(SyncError::MalformedRecord);
            },
        }
        i += 1;
    }
    assert(fields@.take(i as int) == fields@);
    let path = match name_at {
        Some(j) => match &fields[j].1 {
            RawValue::Text(text) => text.clone(),
            _ => {
                return Err(SyncError::MalformedRecord);
            },
        },
        None => {
            return Err(SyncError::MalformedRecord);
        },
    };
    let id = match id_at {
        Some(j) => match &fields[j].1 {
            RawValue::Number(n) => *n,
            _ => {
                return Err(SyncError::MalformedRecord);
            },
        },
        None => {
            return Err(SyncError::MalformedRecord);
        },
    };
    let listed = match listed_at {
        Some(j) => match fields[j].1.as_flag() {
            Some(flag) => flag,
            None => {
                return Err(SyncError::MalformedRecord);
            },
        },
        None => false,
    };
    let modified = match changed_at {
        Some(j) => match fields[j].1.as_flag() {
            Some(flag) => flag,
            None => {
                return Err(SyncError::MalformedRecord);
            },
        },
        None => false,
    };
    if listed {
        Ok(Some(BufferEntry { path, id, modified }))
    } else {
        Ok(None)
    }
}

/// Reads one record of a listing: `Ok(Some(entry))` for a well-formed,
/// listed record, `Ok(None)` for a well-formed record that is not listed,
/// and `MalformedRecord` for one that cannot be read.
pub fn parse_record(record: &RawValue) -> (outcome: Result<Option<BufferEntry>, SyncError>)
    ensures
        parsed_as(outcome, classify(*record)),
{
    match record {
        RawValue::Table(fields) => {
            let names = FieldNames::new();
            parse_fields(fields, &names)
        },
        _ => Err(SyncError::MalformedRecord),
    }
}

/// A listing as read: the entries to show, in the host's order, and the
/// number of records that had to be skipped as malformed.
#[derive(Debug, PartialEq, Eq)]
pub struct Snapshot {
    pub entries: Vec<BufferEntry>,
    pub malformed: usize,
}

/// The mathematical value of a [`Snapshot`].
pub struct SnapshotView {
    pub entries: Seq<EntryView>,
    pub malformed: nat,
}

impl View for Snapshot {
    type V = SnapshotView;

    open spec fn view(&self) -> SnapshotView {
        SnapshotView { entries: self.entries.deep_view(), malformed: self.malformed as nat }
    }
}

/// What a report of the host amounts to as a listing: nothing where it
/// is no list; else the entries of its well-formed, listed records, in
/// order, and the number of its malformed records.
pub open spec fn listing(buf_info: RawValue) -> Option<SnapshotView> {
    match buf_info {
        RawValue::List(records) => Some(
            SnapshotView {
                entries: listed_entries(records@),
                malformed: malformed_count(records@),
            },
        ),
        _ => None,
    }
}

/// Reads the host's buffer listing.
///
/// A report that is not a list is no listing at all, which counts as a
/// failed query. In a list, every record is read on its own: the
/// well-formed, listed ones become the entries, in order; the malformed
/// ones are skipped and counted.
pub fn read_buffer_list(buf_info: &RawValue) -> (result: Result<Snapshot, SyncError>)
    ensures
        match listing(*buf_info) {
            Some(read) => result matches Ok(snapshot) && snapshot@ == read,
            None => result matches Err(SyncError::QueryFailure),
        },
{
    let records = match buf_info {
        RawValue::List(records) => records,
        _ => {
            return Err(SyncError::QueryFailure);
        },
    };
    let names = FieldNames::new();
    let mut entries: Vec<BufferEntry> = Vec::new();
    let mut malformed: usize = 0;
    let mut i: usize = 0;
    let ghost entry_of = |record: RawValue| listed_entry(record);
    let ghost is_malformed = |record: RawValue| classify(record) is Malformed;
    assert(records@.take(0) == Seq::<RawValue>::empty());
    assert(records@.take(0).filter(is_malformed).len() == 0) by {
        records@.take(0).lemma_filter_len(is_malformed);
    }
    while i < records.len()
        invariant
            i <= records.len(),
            names.valid(),
            entry_of == |record: RawValue| listed_entry(record),
            is_malformed == |record: RawValue| classify(record) is Malformed,
            entries.deep_view() == records@.take(i as int).filter_map(entry_of),
            malformed == records@.take(i as int).filter(is_malformed).len(),
            malformed <= i,
        decreases records.len() - i,
    {
        let ghost before = entries.deep_view();
        proof {
            records@.lemma_filter_map_take_succ(entry_of, i as int);
            assert(records@.take(i + 1) == records@.take(i as int).push(records@[i as int]));
            records@.take(i as int).lemma_filter_len_push(is_malformed, records@[i as int]);
        }
        let outcome = match &records[i] {
            RawValue::Table(fields) => parse_fields(fields, &names),
            _ => Err(SyncError::MalformedRecord),
        };
        assert(parsed_as(outcome, classify(records@[i as int])));
        match outcome {
            Ok(Some(entry)) => {
                entries.push(entry);
                assert(entries.deep_view() == before + seq![entry@]);
            },
            Ok(None) => {},
            Err(_) => {
                malformed += 1;
            },
        }
        i += 1;
    }
    assert(records@.take(i as int) == records@);
    Ok(Snapshot { entries, malformed })
}

} // verus!

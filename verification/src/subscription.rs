//! What the core asks of the host: which notifications it wants, which
//! expressions the host is to evaluate with each, and how the values that
//! come back turn into events.

use vstd::prelude::*;

use crate::dispatch::{Event, EventView, Notification, NotificationView};
use crate::error::SyncError;
use crate::raw::RawValue;
use crate::reader::{listing, read_buffer_list, Snapshot, SnapshotView};

verus! {

/// The notifications that the core subscribes to.
#[derive(Clone, Copy, Debug, PartialEq, Eq, Structural)]
pub enum NotificationKind {
    BufferAdded,
    BufferDeleted,
    BufferFocused,
    DirectoryChanged,
}

/// The host's name for the event.
pub open spec fn event_name_text(kind: NotificationKind) -> Seq<char> {
    match kind {
        NotificationKind::BufferAdded => "BufAdd"@,
        NotificationKind::BufferDeleted => "BufDelete"@,
        NotificationKind::BufferFocused => "BufEnter"@,
        NotificationKind::DirectoryChanged => "DirChanged"@,
    }
}

/// The expressions that the host evaluates when the event fires; their
/// values come with the notification, in this order.
pub open spec fn query_texts(kind: NotificationKind) -> Seq<Seq<char>> {
    match kind {
        NotificationKind::BufferAdded => seq!["getcwd()"@, "getbufinfo()"@],
        NotificationKind::BufferDeleted => Seq::empty(),
        NotificationKind::BufferFocused => seq!["bufnr('%')"@],
        NotificationKind::DirectoryChanged => seq!["getcwd()"@],
    }
}

/// The notification that the values `args` make for an event of kind
/// `kind`; none where a value is missing or is not of the type that its
/// expression yields. Values beyond those asked for are ignored.
pub open spec fn decoded(kind: NotificationKind, args: Seq<RawValue>) -> Option<NotificationView> {
    match kind {
        NotificationKind::BufferAdded => if args.len() >= 2 && args[0] is Text && listing(
            args[1],
        ) is Some {
            Some(
                NotificationView::BufferAdded {
                    cwd: args[0]->Text_0@,
                    snapshot: listing(args[1])->Some_0,
                },
            )
        } else {
            None
        },
        NotificationKind::BufferDeleted => Some(NotificationView::BufferDeleted),
        NotificationKind::BufferFocused => if args.len() >= 1 && args[0] is Number {
            Some(NotificationView::BufferFocused { id: args[0]->Number_0 })
        } else {
            None
        },
        NotificationKind::DirectoryChanged => if args.len() >= 1 && args[0] is Text {
            Some(NotificationView::DirectoryChanged { cwd: args[0]->Text_0@ })
        } else {
            None
        },
    }
}

/// The working directory and the first listing, from the values of
/// `getcwd()` and `getbufinfo()` read at start.
pub open spec fn decoded_start(args: Seq<RawValue>) -> Option<(Seq<char>, SnapshotView)> {
    if args.len() >= 2 && args[0] is Text && listing(args[1]) is Some {
        Some((args[0]->Text_0@, listing(args[1])->Some_0))
    } else {
        None
    }
}

/// The working directory, from the host's answer to `getcwd()`: none
/// where the query failed or the answer is not text.
pub open spec fn current_dir(reply: Option<RawValue>) -> Option<Seq<char>> {
    match reply {
        Some(RawValue::Text(dir)) => Some(dir@),
        _ => None,
    }
}

/// The expression that yields the working directory.
pub fn cwd_query() -> (query: &'static str)
    ensures
        query@ == "getcwd()"@,
{
    "getcwd()"
}

/// The expression that yields the buffer listing.
pub fn listing_query() -> (query: &'static str)
    ensures
        query@ == "getbufinfo()"@,
{
    "getbufinfo()"
}

/// The notifications to subscribe to.
pub fn subscriptions() -> (kinds: Vec<NotificationKind>)
    ensures
        kinds@ == seq![
            NotificationKind::BufferAdded,
            NotificationKind::BufferDeleted,
            NotificationKind::BufferFocused,
            NotificationKind::DirectoryChanged,
        ],
{
    let mut kinds: Vec<NotificationKind> = Vec::new();
    kinds.push(NotificationKind::BufferAdded);
    kinds.push(NotificationKind::BufferDeleted);
    kinds.push(NotificationKind::BufferFocused);
    kinds.push(NotificationKind::DirectoryChanged);
    assert(kinds@ =~= seq![
        NotificationKind::BufferAdded,
        NotificationKind::BufferDeleted,
        NotificationKind::BufferFocused,
        NotificationKind::DirectoryChanged,
    ]);
    kinds
}

impl NotificationKind {
    /// The host's name for the event.
    pub fn event_name(self) -> (name: &'static str)
        ensures
            name@ == event_name_text(self),
    {
        match self {
            NotificationKind::BufferAdded => "BufAdd",
            NotificationKind::BufferDeleted => "BufDelete",
            NotificationKind::BufferFocused => "BufEnter",
            NotificationKind::DirectoryChanged => "DirChanged",
        }
    }

    /// The expressions that the host is to evaluate when the event fires.
    pub fn queries(self) -> (queries: Vec<&'static str>)
        ensures
            queries.deep_view() == query_texts(self),
    {
        let mut queries: Vec<&'static str> = Vec::new();
        match self {
            NotificationKind::BufferAdded => {
                queries.push("getcwd()");
                queries.push("getbufinfo()");
            },
            NotificationKind::BufferDeleted => {},
            NotificationKind::BufferFocused => {
                queries.push("bufnr('%')");
            },
            NotificationKind::DirectoryChanged => {
                queries.push("getcwd()");
            },
        }
        assert(queries.deep_view() =~= query_texts(self));
        queries
    }
}

/// Reads the working directory and the listing that the host evaluated
/// together.
pub fn decode_start(args: &Vec<RawValue>) -> (result: Result<(String, Snapshot), SyncError>)
    ensures
        match decoded_start(args@) {
            Some((cwd, snapshot)) => result matches Ok(read) && read.0@ == cwd && read.1@
                == snapshot,
            None => result matches Err(SyncError::QueryFailure),
        },
{
    if args.len() < 2 {
        return Err(SyncError::QueryFailure);
    }
    let cwd = match &args[0] {
        RawValue::Text(dir) => dir.clone(),
        _ => {
            return Err(SyncError::QueryFailure);
        },
    };
    match read_buffer_list(&args[1]) {
        Ok(snapshot) => Ok((cwd, snapshot)),
        Err(_) => Err(SyncError::QueryFailure),
    }
}

/// Turns the values that came with a notification into the notification
/// itself. Values that do not fit the event count as a failed query.
pub fn decode(kind: NotificationKind, args: &Vec<RawValue>) -> (result: Result<
    Notification,
    SyncError,
>)
    ensures
        match decoded(kind, args@) {
            Some(notification) => result matches Ok(read) && read@ == notification,
            None => result matches Err(SyncError::QueryFailure),
        },
{
    match kind {
        NotificationKind::BufferAdded => match decode_start(args) {
            Ok((cwd, snapshot)) => Ok(Notification::BufferAdded { cwd, snapshot }),
            Err(error) => Err(error),
        },
        NotificationKind::BufferDeleted => Ok(Notification::BufferDeleted),
        NotificationKind::BufferFocused => {
            if args.len() < 1 {
                return Err(SyncError::QueryFailure);
            }
            match &args[0] {
                RawValue::Number(id) => Ok(Notification::BufferFocused { id: *id }),
                _ => Err(SyncError::QueryFailure),
            }
        },
        NotificationKind::DirectoryChanged => {
            if args.len() < 1 {
                return Err(SyncError::QueryFailure);
            }
            match &args[0] {
                RawValue::Text(dir) => Ok(Notification::DirectoryChanged { cwd: dir.clone() }),
                _ => Err(SyncError::QueryFailure),
            }
        },
    }
}

/// Turns the host's answer to the listing query that was put off into
/// the event for the core. A query that failed, or an answer that is no
/// listing, is an event without a listing.
pub fn decode_requery(reply: Option<&RawValue>) -> (event: Event)
    ensures
        event@ == EventView::Requeried(
            match reply {
                Some(buf_info) => listing(*buf_info),
                None => None,
            },
        ),
{
    match reply {
        Some(buf_info) => match read_buffer_list(buf_info) {
            Ok(snapshot) => Event::Requeried(Some(snapshot)),
            Err(_) => Event::Requeried(None),
        },
        None => Event::Requeried(None),
    }
}

/// The working directory, from the host's answer to `getcwd()`.
pub fn get_current_dir(reply: Option<&RawValue>) -> (dir: Option<String>)
    ensures
        match current_dir(
            match reply {
                Some(value) => Some(*value),
                None => None,
            },
        ) {
            Some(text) => dir matches Some(read) && read@ == text,
            None => dir is None,
        },
{
    match reply {
        Some(RawValue::Text(dir)) => Some(dir.clone()),
        _ => None,
    }
}

} // verus!

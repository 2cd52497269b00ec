//! The caller's side: a handle that turns each call into the message to send,
//! refuses every call once it is closed, and keeps at most one read snapshot
//! for as long as the caller asks.
use vstd::prelude::*;
use crate::writer::{DatabaseWriterMessage, MessageView};
use crate::{NativeEntry, Record};

verus! {

/// The answer to any call on a closed handle.
#[derive(Debug, Clone, Copy, PartialEq, Eq)]
pub struct HandleClosed;

/// One key with the bytes that a caller hands in for it.
#[derive(Debug, Clone, PartialEq, Eq)]
pub struct Entry {
    pub key: String,
    pub value: Vec<u8>,
}

impl View for Entry {
    type V = Record;

    open spec fn view(&self) -> Record {
        (self.key@, self.value@)
    }
}

/// A message for the coordinator, and whether its sender waits for the
/// answer.
#[derive(Debug)]
pub struct Request {
    pub message: DatabaseWriterMessage,
    pub confirm: bool,
}

/// A caller's handle on one database. `H` is what reaches the coordinator
/// and the store, `S` a read snapshot of the store.
pub struct LMDB<H, S> {
    inner: Option<H>,
    read_transaction: Option<S>,
}

/// Hands a batch over as the coordinator takes it, entry for entry.
fn native_entries(entries: Vec<Entry>) -> (native: Vec<NativeEntry>)
    ensures
        native@.map_values(|entry: NativeEntry| entry@) == entries@.map_values(
            |entry: Entry| entry@,
        ),
{
    let ghost given = entries@;
    let mut native: Vec<NativeEntry> = Vec::new();
    for entry in items: entries.into_iter()
        invariant
            items.seq() == given,
            native@.len() == items.index(),
            forall|i: int| 0 <= i < native@.len() ==> (#[trigger] native@[i])@ == given[i]@,
    {
        native.push(NativeEntry { key: entry.key, value: entry.value });
    }
    assert(native@.map_values(|entry: NativeEntry| entry@) =~= given.map_values(
        |entry: Entry| entry@,
    ));
    native
}

impl<H, S> LMDB<H, S> {
    /// What reaches the database, until the handle is closed.
    pub closed spec fn database(&self) -> Option<H> {
        self.inner
    }

    /// The read snapshot that is held, if one is.
    pub closed spec fn snapshot(&self) -> Option<S> {
        self.read_transaction
    }

    /// An open handle that holds no snapshot.
    pub fn new(database: H) -> (handle: Self)
        ensures
            handle.database() == Some(database),
            handle.snapshot() is None,
    {
        LMDB { inner: Some(database), read_transaction: None }
    }

    /// Whether the handle was closed.
    pub fn is_closed(&self) -> (closed: bool)
        ensures
            closed == (self.database() is None),
    {
        self.inner.is_none()
    }

    /// Whether a read snapshot is held.
    pub fn has_read_transaction(&self) -> (held: bool)
        ensures
            held == (self.snapshot() is Some),
    {
        self.read_transaction.is_some()
    }

    /// The database, unless the handle was closed.
    pub fn get_database(&self) -> (r: Result<&H, HandleClosed>)
        ensures
            r is Ok <==> self.database() is Some,
            r matches Ok(database) ==> self.database() == Some(*database),
    {
        match &self.inner {
            Some(database) => Ok(database),
            None => Err(HandleClosed),
        }
    }

    /// The request to send for `message`, with where to send it.
    fn request(&self, message: DatabaseWriterMessage, confirm: bool) -> (r: Result<
        (&H, Request),
        HandleClosed,
    >)
        ensures
            r is Ok <==> self.database() is Some,
            r matches Ok((database, request)) ==> self.database() == Some(*database)
                && request.message == message && request.confirm == confirm,
    {
        match &self.inner {
            Some(database) => Ok((database, Request { message, confirm })),
            None => Err(HandleClosed),
        }
    }

    /// Asks for the value under `key`; the answer is waited for.
    pub fn get(&self, key: String) -> (r: Result<(&H, Request), HandleClosed>)
        ensures
            r is Ok <==> self.database() is Some,
            r matches Ok((database, request)) ==> self.database() == Some(*database)
                && request.message@ == (MessageView::Get { key: key@ }) && request.confirm,
    {
        self.request(DatabaseWriterMessage::Get { key }, true)
    }

    /// Where a lookup that does not go through the coordinator reads: from
    /// the held snapshot if there is one, else from a snapshot of its own,
    /// to be taken from the database and released after the lookup.
    pub fn get_sync(&self) -> (r: Result<(&H, Option<&S>), HandleClosed>)
        ensures
            r is Ok <==> self.database() is Some,
            r matches Ok((database, held)) ==> self.database() == Some(*database) && match held {
                Some(snapshot) => self.snapshot() == Some(*snapshot),
                None => self.snapshot() is None,
            },
    {
        match &self.inner {
            Some(database) => Ok((database, self.read_transaction.as_ref())),
            None => Err(HandleClosed),
        }
    }

    /// Where a batch of lookups reads: always from a snapshot of its own,
    /// taken from the database for the whole batch.
    pub fn get_many_sync(&self) -> (r: Result<&H, HandleClosed>)
        ensures
            r is Ok <==> self.database() is Some,
            r matches Ok(database) ==> self.database() == Some(*database),
    {
        self.get_database()
    }

    /// Asks to put every entry of the batch, all in one transaction; the
    /// answer is waited for.
    pub fn put_many(&self, entries: Vec<Entry>) -> (r: Result<(&H, Request), HandleClosed>)
        ensures
            r is Ok <==> self.database() is Some,
            r matches Ok((database, request)) ==> self.database() == Some(*database)
                && request.message@ == (MessageView::PutMany {
                entries: entries@.map_values(|entry: Entry| entry@),
            }) && request.confirm,
    {
        match &self.inner {
            Some(database) => {
                let message = DatabaseWriterMessage::PutMany { entries: native_entries(entries) };
                Ok((database, Request { message, confirm: true }))
            },
            None => Err(HandleClosed),
        }
    }

    /// Asks to put `data` under `key`; the answer is waited for.
    pub fn put(&self, key: String, data: Vec<u8>) -> (r: Result<(&H, Request), HandleClosed>)
        ensures
            r is Ok <==> self.database() is Some,
            r matches Ok((database, request)) ==> self.database() == Some(*database)
                && request.message@ == (MessageView::Put { key: key@, value: data@ })
                && request.confirm,
    {
        self.request(DatabaseWriterMessage::Put { key, value: data }, true)
    }

    /// Asks to put `data` under `key` and does not wait: whatever the answer
    /// is, the sender will not see it.
    pub fn put_no_confirm(&self, key: String, data: Vec<u8>) -> (r: Result<
        (&H, Request),
        HandleClosed,
    >)
        ensures
            r is Ok <==> self.database() is Some,
            r matches Ok((database, request)) ==> self.database() == Some(*database)
                && request.message@ == (MessageView::Put { key: key@, value: data@ })
                && !request.confirm,
    {
        self.request(DatabaseWriterMessage::Put { key, value: data }, false)
    }

    /// Whether a read snapshot has to be taken now: `None` where one is held
    /// already, else the database to take it from. The held snapshot is kept
    /// even by a closed handle; a closed handle takes no new one.
    pub fn start_read_transaction(&self) -> (r: Result<Option<&H>, HandleClosed>)
        ensures
            r is Err <==> self.snapshot() is None && self.database() is None,
            r matches Ok(None) ==> self.snapshot() is Some,
            r matches Ok(Some(database)) ==> self.snapshot() is None && self.database() == Some(
                *database,
            ),
    {
        if self.read_transaction.is_some() {
            return Ok(None);
        }
        match &self.inner {
            Some(database) => Ok(Some(database)),
            None => Err(HandleClosed),
        }
    }

    /// Keeps `snapshot` as the held one. Where one is held already it stays,
    /// and `snapshot` comes back to be released.
    pub fn hold_read_transaction(&mut self, snapshot: S) -> (spare: Option<S>)
        ensures
            final(self).database() == old(self).database(),
            old(self).snapshot() is None ==> final(self).snapshot() == Some(snapshot)
                && spare is None,
            old(self).snapshot() is Some ==> final(self).snapshot() == old(self).snapshot()
                && spare == Some(snapshot),
    {
        if self.read_transaction.is_some() {
            Some(snapshot)
        } else {
            self.read_transaction = Some(snapshot);
            None
        }
    }

    /// Lets go of the held snapshot and hands it out to be released; `None`
    /// where none is held.
    pub fn commit_read_transaction(&mut self) -> (released: Option<S>)
        ensures
            released == old(self).snapshot(),
            final(self).snapshot() is None,
            final(self).database() == old(self).database(),
    {
        self.read_transaction.take()
    }

    /// Asks the coordinator to hold a write transaction; the answer is
    /// waited for.
    pub fn start_write_transaction(&self) -> (r: Result<(&H, Request), HandleClosed>)
        ensures
            r is Ok <==> self.database() is Some,
            r matches Ok((database, request)) ==> self.database() == Some(*database)
                && request.message@ == MessageView::StartTransaction && request.confirm,
    {
        self.request(DatabaseWriterMessage::StartTransaction, true)
    }

    /// Asks the coordinator to commit the held write transaction; the answer
    /// is waited for.
    pub fn commit_write_transaction(&self) -> (r: Result<(&H, Request), HandleClosed>)
        ensures
            r is Ok <==> self.database() is Some,
            r matches Ok((database, request)) ==> self.database() == Some(*database)
                && request.message@ == MessageView::CommitTransaction && request.confirm,
    {
        self.request(DatabaseWriterMessage::CommitTransaction, true)
    }

    /// Closes the handle: it lets go of what reached the database, and every
    /// call after this one is refused. A held snapshot stays until it is
    /// committed.
    pub fn close(&mut self)
        ensures
            final(self).database() is None,
            final(self).snapshot() == old(self).snapshot(),
    {
        self.inner = None;
    }
}

} // verus!

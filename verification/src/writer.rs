//! The write coordinator's decisions: what each message asks of the store in
//! the current transaction state, and what is answered once the store has
//! done it. The store itself is driven by the caller of these functions.
use vstd::prelude::*;
use vstd::std_specs::convert::FromSpecImpl;
use crate::codec::{compress, decoded, decompress, fits_frame, is_frame_of, CompressFault, DecompressFault};
use crate::{NativeEntry, Record};

verus! {

/// The store's own error. Nothing here looks inside it; it is handed on to
/// whoever asked for the operation that met it.
#[verifier::external_type_specification]
#[verifier::external_body]
pub struct ExStoreError(heed::Error);

/// The operating system's error for a failed file operation, handed on in the
/// same way.
#[verifier::external_type_specification]
#[verifier::external_body]
pub struct ExIoError(std::io::Error);

/// Everything that can go wrong with one operation on the table.
#[derive(Debug)]
pub enum DatabaseWriterError {
    /// The store refused or failed.
    HeedError(heed::Error),
    /// The file system refused or failed.
    IOError(std::io::Error),
    /// Stored bytes are no frame for any value.
    DecompressError(DecompressFault),
    /// The value cannot be framed.
    CompressError(CompressFault),
}

impl From<heed::Error> for DatabaseWriterError {
    fn from(error: heed::Error) -> (r: Self) {
        DatabaseWriterError::HeedError(error)
    }
}

impl FromSpecImpl<heed::Error> for DatabaseWriterError {
    open spec fn obeys_from_spec() -> bool {
        true
    }

    open spec fn from_spec(error: heed::Error) -> Self {
        DatabaseWriterError::HeedError(error)
    }
}

impl From<std::io::Error> for DatabaseWriterError {
    fn from(error: std::io::Error) -> (r: Self) {
        DatabaseWriterError::IOError(error)
    }
}

impl FromSpecImpl<std::io::Error> for DatabaseWriterError {
    open spec fn obeys_from_spec() -> bool {
        true
    }

    open spec fn from_spec(error: std::io::Error) -> Self {
        DatabaseWriterError::IOError(error)
    }
}

impl From<DecompressFault> for DatabaseWriterError {
    fn from(fault: DecompressFault) -> (r: Self) {
        DatabaseWriterError::DecompressError(fault)
    }
}

impl FromSpecImpl<DecompressFault> for DatabaseWriterError {
    open spec fn obeys_from_spec() -> bool {
        true
    }

    open spec fn from_spec(fault: DecompressFault) -> Self {
        DatabaseWriterError::DecompressError(fault)
    }
}

impl From<CompressFault> for DatabaseWriterError {
    fn from(fault: CompressFault) -> (r: Self) {
        DatabaseWriterError::CompressError(fault)
    }
}

impl FromSpecImpl<CompressFault> for DatabaseWriterError {
    open spec fn obeys_from_spec() -> bool {
        true
    }

    open spec fn from_spec(fault: CompressFault) -> Self {
        DatabaseWriterError::CompressError(fault)
    }
}

/// How an environment is to be opened.
#[derive(Debug, Clone, PartialEq, Eq, PartialOrd, Hash)]
pub struct LMDBOptions {
    /// Directory of the environment.
    pub path: String,
    /// Trade durability for throughput.
    pub async_writes: bool,
    /// Largest size the memory map may grow to, in bytes.
    pub map_size: Option<u32>,
}

/// The store's switches for one environment, and the size of its map.
#[derive(Debug, Clone, Copy, PartialEq, Eq)]
pub struct EnvironmentSettings {
    /// Flush the map to disk asynchronously.
    pub map_async: bool,
    /// Do not flush system buffers to disk when a transaction commits.
    pub no_sync: bool,
    /// Write through a writeable memory map.
    pub write_map: bool,
    /// Turn off read-ahead.
    pub no_read_ahead: bool,
    /// Flush the system buffers, but leave the meta page for a later commit.
    pub no_meta_sync: bool,
    /// Largest size of the map in bytes; `None` leaves the store's default.
    pub map_size: Option<usize>,
}

impl LMDBOptions {
    /// The settings that these options stand for.
    ///
    /// With `async_writes` the three switches that skip the flush at commit
    /// are on, without it they are off. The map is always writeable and
    /// read-ahead stays on. The map's size is the one asked for, if any.
    pub fn environment_settings(&self) -> (settings: EnvironmentSettings)
        ensures
            settings.map_async == self.async_writes,
            settings.no_sync == self.async_writes,
            settings.no_meta_sync == self.async_writes,
            settings.write_map,
            !settings.no_read_ahead,
            settings.map_size == match self.map_size {
                Some(bytes) => Some(bytes as usize),
                None => None,
            },
    {
        let map_size = match self.map_size {
            Some(bytes) => Some(bytes as usize),
            None => None,
        };
        EnvironmentSettings {
            map_async: self.async_writes,
            no_sync: self.async_writes,
            write_map: true,
            no_read_ahead: false,
            no_meta_sync: self.async_writes,
            map_size,
        }
    }
}


/// Where the coordinator stands between two messages.
#[derive(Debug, Clone, Copy, PartialEq, Eq)]
pub enum TransactionState {
    /// No transaction is held.
    Idle,
    /// A write transaction is held from one message to the next.
    Active,
    /// `Stop` was served. Nothing is held, and nothing is taken up any more.
    Stopped,
}

/// The transaction that a piece of work runs in.
#[derive(Debug, Clone, Copy, PartialEq, Eq)]
pub enum Scope {
    /// The write transaction that is held across messages.
    Held,
    /// A transaction of its own, opened for this work and ended with it.
    Ephemeral,
}

/// One request to the coordinator.
#[derive(Debug)]
pub enum DatabaseWriterMessage {
    Get { key: String },
    Put { key: String, value: Vec<u8> },
    PutMany { entries: Vec<NativeEntry> },
    StartTransaction,
    CommitTransaction,
    Stop,
}

/// A request as plain data.
pub enum MessageView {
    Get { key: Seq<char> },
    Put { key: Seq<char>, value: Seq<u8> },
    PutMany { entries: Seq<Record> },
    StartTransaction,
    CommitTransaction,
    Stop,
}

impl View for DatabaseWriterMessage {
    type V = MessageView;

    open spec fn view(&self) -> MessageView {
        match *self {
            DatabaseWriterMessage::Get { key } => MessageView::Get { key: key@ },
            DatabaseWriterMessage::Put { key, value } => MessageView::Put {
                key: key@,
                value: value@,
            },
            DatabaseWriterMessage::PutMany { entries } => MessageView::PutMany {
                entries: entries@.map_values(|entry: NativeEntry| entry@),
            },
            DatabaseWriterMessage::StartTransaction => MessageView::StartTransaction,
            DatabaseWriterMessage::CommitTransaction => MessageView::CommitTransaction,
            DatabaseWriterMessage::Stop => MessageView::Stop,
        }
    }
}

/// A key with the stored form of its value.
#[derive(Debug)]
pub struct StoredEntry {
    pub key: String,
    pub stored: Vec<u8>,
}

impl View for StoredEntry {
    type V = Record;

    open spec fn view(&self) -> Record {
        (self.key@, self.stored@)
    }
}

/// A key with what it held before a write: stored bytes, or nothing. Putting
/// the bytes back, or deleting the key where there were none, takes the
/// write back.
#[derive(Debug, Clone, PartialEq, Eq)]
pub struct Restore {
    pub key: String,
    pub previous: Option<Vec<u8>>,
}

/// A restore as plain data.
pub type Change = (Seq<char>, Option<Seq<u8>>);

impl View for Restore {
    type V = Change;

    open spec fn view(&self) -> Change {
        (
            self.key@,
            match self.previous {
                Some(stored) => Some(stored@),
                None => None,
            },
        )
    }
}

/// What one message asks of the store.
#[derive(Debug)]
pub enum Plan {
    /// Look `key` up.
    Read { scope: Scope, key: String },
    /// Put every entry, in order, within the one transaction, all or none.
    /// A transaction of its own is given up when a put fails. In the held
    /// transaction, look up what every key holds before the first put, and
    /// when a put fails apply the `restores` for the puts that were made.
    Write { scope: Scope, entries: Vec<StoredEntry> },
    /// Open a write transaction and hold it.
    Begin,
    /// Commit the held transaction and let go of it.
    Commit,
    /// Nothing; the message is answered with success.
    Acknowledge,
    /// Nothing; the message is answered with `error`.
    Refuse { error: DatabaseWriterError },
    /// Commit the held transaction if `commit` says so, then take no more
    /// messages.
    Stop { commit: bool },
}

/// A plan as plain data.
pub enum PlanView {
    Read { scope: Scope, key: Seq<char> },
    Write { scope: Scope, entries: Seq<Record> },
    Begin,
    Commit,
    Acknowledge,
    Refuse { error: DatabaseWriterError },
    Stop { commit: bool },
}

impl View for Plan {
    type V = PlanView;

    open spec fn view(&self) -> PlanView {
        match *self {
            Plan::Read { scope, key } => PlanView::Read { scope, key: key@ },
            Plan::Write { scope, entries } => PlanView::Write {
                scope,
                entries: entries@.map_values(|entry: StoredEntry| entry@),
            },
            Plan::Begin => PlanView::Begin,
            Plan::Commit => PlanView::Commit,
            Plan::Acknowledge => PlanView::Acknowledge,
            Plan::Refuse { error } => PlanView::Refuse { error },
            Plan::Stop { commit } => PlanView::Stop { commit },
        }
    }
}

/// The answer that goes back to whoever sent a message.
#[derive(Debug)]
pub enum Completion {
    /// To `Get`: the value, or that there is none.
    Value(Result<Option<Vec<u8>>, DatabaseWriterError>),
    /// To every other message that is answered.
    Ack(Result<(), DatabaseWriterError>),
}

/// An answer as plain data.
pub enum CompletionView {
    Value(Result<Option<Seq<u8>>, DatabaseWriterError>),
    Ack(Result<(), DatabaseWriterError>),
}

impl View for Completion {
    type V = CompletionView;

    open spec fn view(&self) -> CompletionView {
        match *self {
            Completion::Value(result) => CompletionView::Value(value_view(result)),
            Completion::Ack(result) => CompletionView::Ack(result),
        }
    }
}

/// The result of a lookup as plain data.
pub open spec fn value_view(result: Result<Option<Vec<u8>>, DatabaseWriterError>) -> Result<
    Option<Seq<u8>>,
    DatabaseWriterError,
> {
    match result {
        Ok(Some(value)) => Ok(Some(value@)),
        Ok(None) => Ok(None),
        Err(error) => Err(error),
    }
}

/// What the store reported of one plan, as plain data: what a read found, or
/// the store's error.
pub open spec fn outcome_view(outcome: Result<Option<Vec<u8>>, heed::Error>) -> Result<
    Option<Seq<u8>>,
    heed::Error,
> {
    match outcome {
        Ok(Some(raw)) => Ok(Some(raw@)),
        Ok(None) => Ok(None),
        Err(error) => Err(error),
    }
}

/// An optional answer as plain data.
pub open spec fn completion_view(completion: Option<Completion>) -> Option<CompletionView> {
    match completion {
        Some(completion) => Some(completion@),
        None => None,
    }
}

/// The transaction that reads and writes run in: the held one while there is
/// one, else one of their own.
pub open spec fn scope_in(state: TransactionState) -> Scope {
    match state {
        TransactionState::Active => Scope::Held,
        _ => Scope::Ephemeral,
    }
}

/// The answer to a write whose value is too long to frame.
pub open spec fn too_long(value: Seq<u8>) -> DatabaseWriterError {
    DatabaseWriterError::CompressError(CompressFault::ValueTooLong { length: value.len() as usize })
}

/// `stored` holds the entries of `entries`, key for key and in order, each
/// value in a stored form of it.
pub open spec fn frames_all(stored: Seq<Record>, entries: Seq<Record>) -> bool {
    &&& stored.len() == entries.len()
    &&& forall|i: int|
        0 <= i < entries.len() ==> (#[trigger] stored[i]).0 == entries[i].0 && is_frame_of(
            stored[i].1,
            entries[i].1,
        )
}

/// Every value of `entries` before index `end` can be framed.
pub open spec fn all_fit(entries: Seq<Record>, end: int) -> bool {
    forall|i: int| 0 <= i < end ==> fits_frame((#[trigger] entries[i]).1.len())
}

/// `plan` is what `message` asks of the store in `state`.
///
/// Reads and writes go to the held transaction while there is one, else to
/// one of their own. A write carries its values in stored form, and a batch
/// is one write. If a value cannot be framed nothing is written: the plan
/// refuses with the first such value. Starting while a transaction is held,
/// and committing while none is, ask nothing of the store. Once stopped, the
/// coordinator takes nothing up: whatever the message, there is no work and
/// no answer.
pub open spec fn planned(state: TransactionState, message: MessageView, plan: PlanView) -> bool {
    if state is Stopped {
        plan == (PlanView::Stop { commit: false })
    } else {
        planned_while_running(state, message, plan)
    }
}

/// `planned`, for a coordinator that has not stopped.
pub open spec fn planned_while_running(
    state: TransactionState,
    message: MessageView,
    plan: PlanView,
) -> bool {
    match message {
        MessageView::Get { key } => plan == (PlanView::Read { scope: scope_in(state), key }),
        MessageView::Put { key, value } => if fits_frame(value.len()) {
            plan matches PlanView::Write { scope, entries } && scope == scope_in(state)
                && frames_all(entries, seq![(key, value)])
        } else {
            plan == (PlanView::Refuse { error: too_long(value) })
        },
        MessageView::PutMany { entries } => if all_fit(entries, entries.len() as int) {
            plan matches PlanView::Write { scope, entries: stored } && scope == scope_in(state)
                && frames_all(stored, entries)
        } else {
            exists|i: int|
                0 <= i < entries.len() && all_fit(entries, i) && !fits_frame(
                    (#[trigger] entries[i]).1.len(),
                ) && plan == (PlanView::Refuse { error: too_long(entries[i].1) })
        },
        MessageView::StartTransaction => plan == if state is Active {
            PlanView::Acknowledge
        } else {
            PlanView::Begin
        },
        MessageView::CommitTransaction => plan == if state is Active {
            PlanView::Commit
        } else {
            PlanView::Acknowledge
        },
        MessageView::Stop => plan == (PlanView::Stop { commit: state is Active }),
    }
}

/// The state after `plan` was carried out, `done` telling whether the store
/// succeeded.
///
/// A transaction is held from a successful `Begin` on. `Commit` lets go of
/// it whether or not the store could commit, and so does `Stop`, which is
/// the end: a stopped coordinator stays stopped. Nothing else changes the
/// state.
pub open spec fn state_after(state: TransactionState, plan: PlanView, done: bool) -> TransactionState {
    if state is Stopped {
        TransactionState::Stopped
    } else {
        match plan {
            PlanView::Begin => if done {
                TransactionState::Active
            } else {
                state
            },
            PlanView::Commit => TransactionState::Idle,
            PlanView::Stop { .. } => TransactionState::Stopped,
            _ => state,
        }
    }
}

/// The caller's value behind what a lookup reported: none where the key is
/// absent, the value that the stored bytes stand for where it is present,
/// and the store's or the codec's error otherwise.
pub open spec fn loaded(found: Result<Option<Seq<u8>>, heed::Error>) -> Result<
    Option<Seq<u8>>,
    DatabaseWriterError,
> {
    match found {
        Err(error) => Err(DatabaseWriterError::HeedError(error)),
        Ok(None) => Ok(None),
        Ok(Some(raw)) => match decoded(raw) {
            Ok(value) => Ok(Some(value)),
            Err(fault) => Err(DatabaseWriterError::DecompressError(fault)),
        },
    }
}

/// The answer to the message behind `plan`, given what the store reported.
///
/// `Stop` is the one plan without an answer. A store error is handed on. A
/// read answers with the value that the stored bytes stand for.
pub open spec fn answer(plan: PlanView, outcome: Result<Option<Seq<u8>>, heed::Error>) -> Option<
    CompletionView,
> {
    match plan {
        PlanView::Stop { .. } => None,
        PlanView::Acknowledge => Some(CompletionView::Ack(Ok(()))),
        PlanView::Refuse { error } => Some(CompletionView::Ack(Err(error))),
        PlanView::Read { .. } => Some(CompletionView::Value(loaded(outcome))),
        _ => Some(
            CompletionView::Ack(
                match outcome {
                    Err(error) => Err(DatabaseWriterError::HeedError(error)),
                    Ok(_) => Ok(()),
                },
            ),
        ),
    }
}


/// The coordinator's memory from one message to the next: whether it holds a
/// write transaction, and whether it was stopped.
#[derive(Debug)]
pub struct Coordinator {
    state: TransactionState,
}

impl View for Coordinator {
    type V = TransactionState;

    closed spec fn view(&self) -> TransactionState {
        self.state
    }
}

/// Brings one value into its stored form under its key.
fn frame_entry(key: String, value: &[u8]) -> (r: Result<StoredEntry, DatabaseWriterError>)
    ensures
        r is Ok <==> fits_frame(value@.len()),
        r matches Ok(entry) ==> entry.key == key && is_frame_of(entry.stored@, value@),
        r matches Err(error) ==> error == too_long(value@),
{
    match compress(value) {
        Ok(stored) => Ok(StoredEntry { key, stored }),
        Err(fault) => Err(DatabaseWriterError::CompressError(fault)),
    }
}

/// Brings a batch into stored form, entry by entry, and stops at the first
/// value that cannot be framed.
fn frame_entries(entries: &Vec<NativeEntry>) -> (r: Result<Vec<StoredEntry>, DatabaseWriterError>)
    ensures
        r is Ok <==> all_fit(entries@.map_values(|entry: NativeEntry| entry@), entries@.len() as int),
        r matches Ok(stored) ==> frames_all(
            stored@.map_values(|entry: StoredEntry| entry@),
            entries@.map_values(|entry: NativeEntry| entry@),
        ),
        r matches Err(error) ==> exists|i: int|
            0 <= i < entries@.len() && all_fit(entries@.map_values(|entry: NativeEntry| entry@), i)
                && !fits_frame((#[trigger] entries@[i]).value@.len()) && error == too_long(
                entries@[i].value@,
            ),
{
    let ghost records = entries@.map_values(|entry: NativeEntry| entry@);
    let mut stored: Vec<StoredEntry> = Vec::new();
    let mut at: usize = 0;
    while at < entries.len()
        invariant
            at <= entries@.len(),
            records == entries@.map_values(|entry: NativeEntry| entry@),
            all_fit(records, at as int),
            stored@.len() == at,
            forall|i: int|
                0 <= i < at ==> (#[trigger] stored@[i]).key@ == entries@[i].key@ && is_frame_of(
                    stored@[i].stored@,
                    entries@[i].value@,
                ),
        decreases entries@.len() - at,
    {
        let entry = &entries[at];
        match frame_entry(entry.key.clone(), entry.value.as_slice()) {
            Ok(framed) => {
                stored.push(framed);
            },
            Err(error) => {
                assert(!all_fit(records, entries@.len() as int)) by {
                    assert(records[at as int].1 == entries@[at as int].value@);
                }
                return Err(error);
            },
        }
        at += 1;
    }
    Ok(stored)
}

impl Coordinator {
    /// A coordinator that holds no transaction.
    pub fn new() -> (coordinator: Coordinator)
        ensures
            coordinator@ == TransactionState::Idle,
    {
        Coordinator { state: TransactionState::Idle }
    }

    /// Where the coordinator stands.
    pub fn state(&self) -> (state: TransactionState)
        ensures
            state == self@,
    {
        self.state
    }

    /// Decides what `message` asks of the store. The coordinator's state is
    /// left as it is; it moves when the plan is concluded. Whoever carries
    /// the plan out stops taking messages once the state is `Stopped`.
    pub fn receive(&self, message: DatabaseWriterMessage) -> (plan: Plan)
        ensures
            planned(self@, message@, plan@),
    {
        let (scope, held) = match self.state {
            TransactionState::Idle => (Scope::Ephemeral, false),
            TransactionState::Active => (Scope::Held, true),
            TransactionState::Stopped => {
                return Plan::Stop { commit: false };
            },
        };
        match message {
            DatabaseWriterMessage::Get { key } => Plan::Read { scope, key },
            DatabaseWriterMessage::Put { key, value } => {
                match frame_entry(key, value.as_slice()) {
                    Ok(entry) => {
                        let mut entries: Vec<StoredEntry> = Vec::new();
                        entries.push(entry);
                        Plan::Write { scope, entries }
                    },
                    Err(error) => Plan::Refuse { error },
                }
            },
            DatabaseWriterMessage::PutMany { entries } => {
                match frame_entries(&entries) {
                    Ok(stored) => Plan::Write { scope, entries: stored },
                    Err(error) => {
                        let ghost records = entries@.map_values(|entry: NativeEntry| entry@);
                        proof {
                            let i = choose|i: int|
                                0 <= i < entries@.len() && all_fit(records, i) && !fits_frame(
                                    (#[trigger] entries@[i]).value@.len(),
                                ) && error == too_long(entries@[i].value@);
                            assert(records[i].1 == entries@[i].value@);
                        }
                        Plan::Refuse { error }
                    },
                }
            },
            DatabaseWriterMessage::StartTransaction => if held {
                Plan::Acknowledge
            } else {
                Plan::Begin
            },
            DatabaseWriterMessage::CommitTransaction => if held {
                Plan::Commit
            } else {
                Plan::Acknowledge
            },
            DatabaseWriterMessage::Stop => Plan::Stop { commit: held },
        }
    }

    /// Takes in what the store reported of `plan`: moves the state, and gives
    /// the answer for whoever sent the message. `Stop` alone has no answer.
    pub fn conclude(&mut self, plan: Plan, outcome: Result<Option<Vec<u8>>, heed::Error>) -> (completion:
        Option<Completion>)
        ensures
            final(self)@ == state_after(old(self)@, plan@, outcome is Ok),
            completion_view(completion) == answer(plan@, outcome_view(outcome)),
    {
        let running = match self.state {
            TransactionState::Stopped => false,
            _ => true,
        };
        match plan {
            Plan::Stop { .. } => {
                self.state = TransactionState::Stopped;
                None
            },
            Plan::Acknowledge => Some(Completion::Ack(Ok(()))),
            Plan::Refuse { error } => Some(Completion::Ack(Err(error))),
            Plan::Read { .. } => Some(Completion::Value(loaded_value(outcome))),
            Plan::Write { .. } => Some(Completion::Ack(acknowledged(outcome))),
            Plan::Begin => {
                if running && outcome.is_ok() {
                    self.state = TransactionState::Active;
                }
                Some(Completion::Ack(acknowledged(outcome)))
            },
            Plan::Commit => {
                if running {
                    self.state = TransactionState::Idle;
                }
                Some(Completion::Ack(acknowledged(outcome)))
            },
        }
    }
}

/// Turns what a lookup reported into the caller's value: see `loaded`.
pub fn loaded_value(found: Result<Option<Vec<u8>>, heed::Error>) -> (r: Result<
    Option<Vec<u8>>,
    DatabaseWriterError,
>)
    ensures
        value_view(r) == loaded(outcome_view(found)),
{
    match found {
        Err(error) => Err(DatabaseWriterError::HeedError(error)),
        Ok(None) => Ok(None),
        Ok(Some(raw)) => match decompress(raw.as_slice()) {
            Ok(value) => Ok(Some(value)),
            Err(fault) => Err(DatabaseWriterError::DecompressError(fault)),
        },
    }
}

/// The answer to a message that asked for no value: success, or the store's
/// error.
fn acknowledged(outcome: Result<Option<Vec<u8>>, heed::Error>) -> (r: Result<(), DatabaseWriterError>)
    ensures
        r == match outcome {
            Ok(_) => Ok::<(), DatabaseWriterError>(()),
            Err(error) => Err(DatabaseWriterError::HeedError(error)),
        },
{
    match outcome {
        Ok(_) => Ok(()),
        Err(error) => Err(DatabaseWriterError::HeedError(error)),
    }
}

/// Every lookup before index `end` gave a value or found none.
pub open spec fn all_loaded(found: Seq<Result<Option<Vec<u8>>, heed::Error>>, end: int) -> bool {
    forall|i: int| 0 <= i < end ==> loaded(outcome_view(#[trigger] found[i])) is Ok
}

/// Turns what a batch of lookups reported into the callers' values, in the
/// order of the lookups. The first lookup that failed, in the store or in
/// the codec, fails the batch with its error.
pub fn loaded_values(found: Vec<Result<Option<Vec<u8>>, heed::Error>>) -> (r: Result<
    Vec<Option<Vec<u8>>>,
    DatabaseWriterError,
>)
    ensures
        r is Ok <==> all_loaded(found@, found@.len() as int),
        r matches Ok(values) ==> values@.len() == found@.len() && forall|i: int|
            0 <= i < found@.len() ==> value_view(Ok(#[trigger] values@[i])) == loaded(
                outcome_view(found@[i]),
            ),
        r matches Err(error) ==> exists|i: int|
            0 <= i < found@.len() && all_loaded(found@, i) && loaded(
                outcome_view(#[trigger] found@[i]),
            ) == Err::<Option<Seq<u8>>, DatabaseWriterError>(error),
{
    let ghost given = found@;
    let mut values: Vec<Option<Vec<u8>>> = Vec::new();
    for item in items: found.into_iter()
        invariant
            items.seq() == given,
            values@.len() == items.index(),
            all_loaded(given, items.index() as int),
            forall|i: int|
                0 <= i < values@.len() ==> value_view(Ok(#[trigger] values@[i])) == loaded(
                    outcome_view(given[i]),
                ),
    {
        match loaded_value(item) {
            Ok(value) => {
                values.push(value);
            },
            Err(error) => {
                return Err(error);
            },
        }
    }
    Ok(values)
}

/// What a lookup found, as plain data.
pub open spec fn found_view(found: Option<Vec<u8>>) -> Option<Seq<u8>> {
    match found {
        Some(stored) => Some(stored@),
        None => None,
    }
}

/// How many puts there are to take back: as many as were made, and no more
/// than there are entries and lookups for.
pub open spec fn undone(entries: nat, before: nat, written: nat) -> nat {
    if written <= entries && written <= before {
        written
    } else if entries <= before {
        entries
    } else {
        before
    }
}

/// The restores that take back the first `count` puts of `entries`, the last
/// put first, each with what its key held before the write.
pub open spec fn undoing(entries: Seq<Record>, before: Seq<Option<Seq<u8>>>, count: nat) -> Seq<
    Change,
> {
    Seq::new(count, |k: int| (entries[count - 1 - k].0, before[count - 1 - k]))
}

/// The restores for a write that failed after `written` puts, where
/// `before[i]` is what the key of `entries[i]` held before the first put.
pub fn restores(entries: &Vec<StoredEntry>, before: Vec<Option<Vec<u8>>>, written: usize) -> (r: Vec<
    Restore,
>)
    ensures
        r@.map_values(|restore: Restore| restore@) == undoing(
            entries@.map_values(|entry: StoredEntry| entry@),
            before@.map_values(|found: Option<Vec<u8>>| found_view(found)),
            undone(entries@.len(), before@.len(), written as nat),
        ),
{
    let ghost given = before@;
    let ghost count = undone(entries@.len(), before@.len(), written as nat);
    let mut before = before;
    let mut keep = written;
    if entries.len() < keep {
        keep = entries.len();
    }
    before.truncate(keep);
    let mut r: Vec<Restore> = Vec::new();
    while before.len() > 0
        invariant
            count <= entries@.len(),
            count <= given.len(),
            before@.len() + r@.len() == count,
            before@ == given.subrange(0, before@.len() as int),
            forall|k: int|
                0 <= k < r@.len() ==> (#[trigger] r@[k])@ == (
                    entries@[count - 1 - k].key@,
                    found_view(given[count - 1 - k]),
                ),
        decreases before@.len(),
    {
        let previous = before.pop().unwrap();
        let at = before.len();
        r.push(Restore { key: entries[at].key.clone(), previous });
    }
    assert(r@.map_values(|restore: Restore| restore@) =~= undoing(
        entries@.map_values(|entry: StoredEntry| entry@),
        given.map_values(|found: Option<Vec<u8>>| found_view(found)),
        count,
    ));
    r
}

} // verus!

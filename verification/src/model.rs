//! What the coordinator's plans amount to on a store that does as it is
//! asked. The store is taken as a table of committed records with, at most,
//! one write transaction on top of it; the laws below hold of the
//! coordinator's decisions whenever the store behaves so and reports no error.
use vstd::prelude::*;
use crate::codec::{decoded, fits_frame, lemma_frame_decodes, DecompressFault};
use crate::writer::{
    all_fit, answer, planned, scope_in, state_after, undoing, Change, CompletionView,
    DatabaseWriterError, MessageView, PlanView, Scope, TransactionState,
};
use crate::Record;

verus! {

/// A table: the stored bytes under each key.
pub type Table = Map<Seq<char>, Seq<u8>>;

/// The store at one instant.
pub struct Store {
    /// What every new reader sees.
    pub committed: Table,
    /// What the held write transaction sees, while there is one.
    pub held: Option<Table>,
}

/// What is stored under `key`, if anything.
pub open spec fn lookup(table: Table, key: Seq<char>) -> Option<Seq<u8>> {
    if table.contains_key(key) {
        Some(table[key])
    } else {
        None
    }
}

/// The table after `entries` were put into it one after the other.
pub open spec fn written(table: Table, entries: Seq<Record>) -> Table
    decreases entries.len(),
{
    if entries.len() == 0 {
        table
    } else {
        written(table, entries.drop_last()).insert(entries.last().0, entries.last().1)
    }
}

/// The table after `restores` were applied one after the other: bytes are
/// put back, and a key that held nothing is deleted.
pub open spec fn restored(table: Table, restores: Seq<Change>) -> Table
    decreases restores.len(),
{
    if restores.len() == 0 {
        table
    } else {
        let rest = restored(table, restores.drop_last());
        match restores.last().1 {
            Some(stored) => rest.insert(restores.last().0, stored),
            None => rest.remove(restores.last().0),
        }
    }
}

/// The table that work in `scope` meets.
pub open spec fn table_in(store: Store, scope: Scope) -> Table {
    match (scope, store.held) {
        (Scope::Held, Some(table)) => table,
        _ => store.committed,
    }
}

/// The store after it carried out `plan`.
///
/// A write in the held transaction stays there; a write in a transaction of
/// its own is committed with it. `Begin` starts the held transaction from
/// what is committed, and `Commit`, like a `Stop` that commits, makes the
/// held transaction's table the committed one.
pub open spec fn store_after(store: Store, plan: PlanView) -> Store {
    match plan {
        PlanView::Write { scope, entries } => match (scope, store.held) {
            (Scope::Held, Some(table)) => Store { held: Some(written(table, entries)), ..store },
            _ => Store { committed: written(store.committed, entries), ..store },
        },
        PlanView::Begin => Store { held: Some(store.committed), ..store },
        PlanView::Commit | PlanView::Stop { commit: true } => Store {
            committed: table_in(store, Scope::Held),
            held: None,
        },
        _ => store,
    }
}

/// What the store reports of `plan`: for a read what it found, else nothing.
pub open spec fn report(store: Store, plan: PlanView) -> Option<Seq<u8>> {
    match plan {
        PlanView::Read { scope, key } => lookup(table_in(store, scope), key),
        _ => None,
    }
}

/// The coordinator holds a transaction exactly when the store has one open.
pub open spec fn agrees(state: TransactionState, store: Store) -> bool {
    state is Active <==> store.held is Some
}

/// One message served: the coordinator's state and the store after `plan`
/// was carried out and concluded, and the answer that goes back.
pub open spec fn served(state: TransactionState, store: Store, plan: PlanView) -> (
    TransactionState,
    Store,
    Option<CompletionView>,
) {
    (state_after(state, plan, true), store_after(store, plan), answer(plan, Ok(report(store, plan))))
}

/// The answer to a `Get` that found `value`.
pub open spec fn found(value: Seq<u8>) -> Option<CompletionView> {
    Some(CompletionView::Value(Ok(Some(value))))
}

/// The answer to a message that succeeded without a value.
pub open spec fn done() -> Option<CompletionView> {
    Some(CompletionView::Ack(Ok(())))
}

/// Whoever put last under a key decides what is stored there.
pub proof fn lemma_written_last_wins(table: Table, entries: Seq<Record>, i: int)
    requires
        0 <= i < entries.len(),
        forall|j: int| i < j < entries.len() ==> (#[trigger] entries[j]).0 != entries[i].0,
    ensures
        lookup(written(table, entries), entries[i].0) == Some(entries[i].1),
    decreases entries.len(),
{
    if i < entries.len() - 1 {
        let front = entries.drop_last();
        lemma_written_last_wins(table, front, i);
    }
}

/// Keys that a write does not name keep what they had.
pub proof fn lemma_written_keeps_others(table: Table, entries: Seq<Record>, key: Seq<char>)
    requires
        forall|j: int| 0 <= j < entries.len() ==> (#[trigger] entries[j]).0 != key,
    ensures
        lookup(written(table, entries), key) == lookup(table, key),
    decreases entries.len(),
{
    if entries.len() > 0 {
        let front = entries.drop_last();
        lemma_written_keeps_others(table, front, key);
    }
}

/// Restores that all carry what `table` holds make any table agree with
/// `table` on the keys they name, and leave the other keys alone.
pub proof fn lemma_restored_looks_up(table: Table, other: Table, restores: Seq<Change>, key: Seq<char>)
    requires
        forall|j: int|
            0 <= j < restores.len() ==> (#[trigger] restores[j]).1 == lookup(table, restores[j].0),
    ensures
        lookup(restored(other, restores), key) == if exists|j: int|
            0 <= j < restores.len() && (#[trigger] restores[j]).0 == key {
            lookup(table, key)
        } else {
            lookup(other, key)
        },
    decreases restores.len(),
{
    if restores.len() > 0 {
        let front = restores.drop_last();
        let last = restores.len() - 1;
        assert(forall|j: int| 0 <= j < front.len() ==> #[trigger] front[j] == restores[j]);
        lemma_restored_looks_up(table, other, front, key);
        if restores[last].0 == key {
        } else if exists|j: int| 0 <= j < restores.len() && (#[trigger] restores[j]).0 == key {
            let j = choose|j: int| 0 <= j < restores.len() && (#[trigger] restores[j]).0 == key;
            assert(front[j].0 == key);
        }
    }
}

/// A write that failed partway is taken back: after the first `count` puts
/// of `entries` and then their restores, the table is what it was.
pub proof fn lemma_failed_write_is_undone(
    table: Table,
    entries: Seq<Record>,
    before: Seq<Option<Seq<u8>>>,
    count: nat,
)
    requires
        count <= entries.len(),
        count <= before.len(),
        forall|i: int| 0 <= i < count ==> #[trigger] before[i] == lookup(table, entries[i].0),
    ensures
        restored(written(table, entries.take(count as int)), undoing(entries, before, count))
            == table,
{
    let made = entries.take(count as int);
    let restores = undoing(entries, before, count);
    let after = restored(written(table, made), restores);
    assert forall|key: Seq<char>| lookup(after, key) == lookup(table, key) by {
        lemma_restored_looks_up(table, written(table, made), restores, key);
        if !exists|j: int| 0 <= j < restores.len() && (#[trigger] restores[j]).0 == key {
            assert forall|i: int| 0 <= i < made.len() implies (#[trigger] made[i]).0 != key by {
                assert(restores[count - 1 - i].0 == made[i].0);
            }
            lemma_written_keeps_others(table, made, key);
        }
    }
    assert forall|key: Seq<char>| after.contains_key(key) == table.contains_key(key) by {
        assert(lookup(after, key) == lookup(table, key));
    }
    assert forall|key: Seq<char>| after.contains_key(key) implies after[key] == table[key] by {
        assert(lookup(after, key) == lookup(table, key));
    }
    assert(after =~= table);
}

/// The coordinator and the store stay in step: if the coordinator holds a
/// transaction exactly when the store has one open, then so it is after any
/// message was served.
pub proof fn lemma_agreement_kept(
    state: TransactionState,
    store: Store,
    message: MessageView,
    plan: PlanView,
)
    requires
        agrees(state, store),
        planned(state, message, plan),
    ensures
        agrees(served(state, store, plan).0, served(state, store, plan).1),
{
}

/// At most one write transaction: the coordinator asks for a new one, held
/// or of its own, only while it holds none.
pub proof fn lemma_single_writer(state: TransactionState, message: MessageView, plan: PlanView)
    requires
        planned(state, message, plan),
    ensures
        plan is Begin ==> state is Idle,
        plan matches PlanView::Write { scope: Scope::Ephemeral, .. } ==> state is Idle,
        plan matches PlanView::Write { scope: Scope::Held, .. } ==> state is Active,
        plan is Commit ==> state is Active,
        plan matches PlanView::Stop { commit } ==> (commit <==> state is Active),
{
}

/// `Stop` is the end: it leaves the coordinator stopped, and a stopped
/// coordinator asks nothing of the store and answers nobody, whatever comes.
pub proof fn lemma_stop_is_terminal(
    state: TransactionState,
    store: Store,
    stop: PlanView,
    message: MessageView,
    later: PlanView,
)
    requires
        agrees(state, store),
        planned(state, MessageView::Stop, stop),
        planned(served(state, store, stop).0, message, later),
    ensures
        ({
            let first = served(state, store, stop);
            let second = served(first.0, first.1, later);
            &&& first.0 is Stopped
            &&& first.1.held is None
            &&& first.2 is None
            &&& second == (TransactionState::Stopped, first.1, None::<CompletionView>)
        }),
{
}

/// Every message but `Stop` that reaches a running coordinator is answered,
/// and `Stop` is not, whatever the store reports.
pub proof fn lemma_one_answer_per_message(
    state: TransactionState,
    message: MessageView,
    plan: PlanView,
    outcome: Result<Option<Seq<u8>>, heed::Error>,
)
    requires
        !(state is Stopped),
        planned(state, message, plan),
    ensures
        answer(plan, outcome) is None <==> message is Stop,
        message is Get <==> answer(plan, outcome) matches Some(CompletionView::Value(_)),
{
}

/// Reads and writes leave the transaction state alone, whatever the store
/// reports.
pub proof fn lemma_reads_and_writes_keep_state(
    state: TransactionState,
    message: MessageView,
    plan: PlanView,
    done: bool,
)
    requires
        planned(state, message, plan),
        message is Get || message is Put || message is PutMany,
    ensures
        state_after(state, plan, done) == state,
{
}

/// A `Get` never changes the store.
pub proof fn lemma_get_changes_nothing(
    state: TransactionState,
    store: Store,
    key: Seq<char>,
    plan: PlanView,
)
    requires
        planned(state, MessageView::Get { key }, plan),
    ensures
        store_after(store, plan) == store,
{
}

/// A transaction that could not be opened is not held: the state stays
/// `Idle` and the error is the answer.
pub proof fn lemma_failed_start_stays_idle(plan: PlanView, error: heed::Error)
    requires
        planned(TransactionState::Idle, MessageView::StartTransaction, plan),
    ensures
        state_after(TransactionState::Idle, plan, false) == TransactionState::Idle,
        answer(plan, Err(error)) == Some(
            CompletionView::Ack(Err(DatabaseWriterError::HeedError(error))),
        ),
{
}

/// What is written is the stored form of what was given: every record of a
/// write decodes to the value that the message gave for its key.
pub proof fn lemma_writes_store_frames(
    state: TransactionState,
    entries: Seq<Record>,
    put_many: PlanView,
    i: int,
)
    requires
        !(state is Stopped),
        all_fit(entries, entries.len() as int),
        planned(state, MessageView::PutMany { entries }, put_many),
        0 <= i < entries.len(),
    ensures
        put_many matches PlanView::Write { entries: stored, .. } && stored.len() == entries.len()
            && stored[i].0 == entries[i].0 && decoded(stored[i].1) == Ok::<
            Seq<u8>,
            DecompressFault,
        >(entries[i].1),
{
    let stored = put_many->Write_entries;
    lemma_frame_decodes(stored[i].1, entries[i].1);
}

/// Read your writes: after `StartTransaction` and `Put` of `value` under
/// `key`, a `Get` of `key` answers `value`, while what is committed is still
/// what it was.
pub proof fn lemma_read_your_writes(
    store: Store,
    key: Seq<char>,
    value: Seq<u8>,
    start: PlanView,
    put: PlanView,
    get: PlanView,
)
    requires
        store.held is None,
        fits_frame(value.len()),
        planned(TransactionState::Idle, MessageView::StartTransaction, start),
        planned(TransactionState::Active, MessageView::Put { key, value }, put),
        planned(TransactionState::Active, MessageView::Get { key }, get),
    ensures
        ({
            let first = served(TransactionState::Idle, store, start);
            let second = served(first.0, first.1, put);
            let third = served(second.0, second.1, get);
            &&& first.0 is Active
            &&& first.2 == done()
            &&& second.0 is Active
            &&& second.2 == done()
            &&& third.0 is Active
            &&& third.2 == found(value)
            &&& third.1.committed == store.committed
        }),
{
    let entries = put->Write_entries;
    lemma_written_last_wins(store.committed, entries, 0);
    lemma_frame_decodes(entries[0].1, value);
}

/// Per-sender order: of two `Put`s under one key the later one is what a
/// `Get` after them answers, with or without a held transaction.
pub proof fn lemma_later_put_wins(
    state: TransactionState,
    store: Store,
    key: Seq<char>,
    earlier: Seq<u8>,
    later: Seq<u8>,
    first_put: PlanView,
    second_put: PlanView,
    get: PlanView,
)
    requires
        !(state is Stopped),
        agrees(state, store),
        fits_frame(later.len()),
        planned(state, MessageView::Put { key, value: earlier }, first_put),
        planned(state, MessageView::Put { key, value: later }, second_put),
        planned(state, MessageView::Get { key }, get),
    ensures
        ({
            let first = served(state, store, first_put);
            let second = served(first.0, first.1, second_put);
            let third = served(second.0, second.1, get);
            &&& first.0 == state
            &&& second.0 == state
            &&& second.2 == done()
            &&& third.2 == found(later)
        }),
{
    let first = served(state, store, first_put);
    let entries = second_put->Write_entries;
    lemma_written_last_wins(table_in(first.1, scope_in(state)), entries, 0);
    lemma_frame_decodes(entries[0].1, later);
}

/// A batch reads back: after `PutMany`, a `Get` of any key of the batch
/// answers the value that the batch gives it, the last one where the batch
/// names the key more than once.
pub proof fn lemma_batch_reads_back(
    state: TransactionState,
    store: Store,
    entries: Seq<Record>,
    i: int,
    put_many: PlanView,
    get: PlanView,
)
    requires
        !(state is Stopped),
        agrees(state, store),
        all_fit(entries, entries.len() as int),
        0 <= i < entries.len(),
        forall|j: int| i < j < entries.len() ==> (#[trigger] entries[j]).0 != entries[i].0,
        planned(state, MessageView::PutMany { entries }, put_many),
        planned(state, MessageView::Get { key: entries[i].0 }, get),
    ensures
        ({
            let first = served(state, store, put_many);
            let second = served(first.0, first.1, get);
            &&& first.0 == state
            &&& first.2 == done()
            &&& second.2 == found(entries[i].1)
        }),
{
    let stored = put_many->Write_entries;
    lemma_written_last_wins(table_in(store, scope_in(state)), stored, i);
    lemma_frame_decodes(stored[i].1, entries[i].1);
}

/// A batch is one write in one transaction, and touches no key outside it.
pub proof fn lemma_batch_is_one_write(
    state: TransactionState,
    store: Store,
    entries: Seq<Record>,
    key: Seq<char>,
    put_many: PlanView,
)
    requires
        !(state is Stopped),
        agrees(state, store),
        all_fit(entries, entries.len() as int),
        forall|j: int| 0 <= j < entries.len() ==> (#[trigger] entries[j]).0 != key,
        planned(state, MessageView::PutMany { entries }, put_many),
    ensures
        put_many matches PlanView::Write { scope, entries: stored } && scope == scope_in(state)
            && stored.len() == entries.len(),
        lookup(table_in(store_after(store, put_many), scope_in(state)), key) == lookup(
            table_in(store, scope_in(state)),
            key,
        ),
        state is Active ==> store_after(store, put_many).committed == store.committed,
{
    let stored = put_many->Write_entries;
    lemma_written_keeps_others(table_in(store, scope_in(state)), stored, key);
}

/// All or nothing: a batch with a value that cannot be framed is refused as
/// a whole. Nothing of it reaches the store, and the answer is the error.
pub proof fn lemma_refused_batch_writes_nothing(
    state: TransactionState,
    store: Store,
    entries: Seq<Record>,
    put_many: PlanView,
)
    requires
        !(state is Stopped),
        !all_fit(entries, entries.len() as int),
        planned(state, MessageView::PutMany { entries }, put_many),
    ensures
        put_many is Refuse,
        served(state, store, put_many).0 == state,
        served(state, store, put_many).1 == store,
        served(state, store, put_many).2 matches Some(CompletionView::Ack(Err(_))),
{
}

/// Starting twice starts once: the second `StartTransaction` asks nothing of
/// the store, succeeds, and leaves the held transaction as it is.
pub proof fn lemma_second_start_is_no_op(store: Store, first_start: PlanView, second_start: PlanView)
    requires
        store.held is None,
        planned(TransactionState::Idle, MessageView::StartTransaction, first_start),
        planned(TransactionState::Active, MessageView::StartTransaction, second_start),
    ensures
        ({
            let first = served(TransactionState::Idle, store, first_start);
            let second = served(first.0, first.1, second_start);
            &&& first_start is Begin
            &&& first.0 is Active
            &&& second_start is Acknowledge
            &&& second.0 is Active
            &&& second.1 == first.1
            &&& second.2 == done()
        }),
{
}

/// Committing with nothing held asks nothing of the store and still answers,
/// with success.
pub proof fn lemma_idle_commit_is_no_op(store: Store, commit: PlanView)
    requires
        planned(TransactionState::Idle, MessageView::CommitTransaction, commit),
    ensures
        commit is Acknowledge,
        served(TransactionState::Idle, store, commit) == (TransactionState::Idle, store, done()),
{
}

/// Commit publishes: after `CommitTransaction` what the held transaction saw
/// is what is committed, and no transaction is held.
pub proof fn lemma_commit_publishes(store: Store, table: Table, commit: PlanView)
    requires
        store.held == Some(table),
        planned(TransactionState::Active, MessageView::CommitTransaction, commit),
    ensures
        served(TransactionState::Active, store, commit) == (
            TransactionState::Idle,
            Store { committed: table, held: None },
            done(),
        ),
{
}

/// Shutdown flushes: `Stop` while a transaction is held commits it. What was
/// put in it is committed afterwards, and nobody is answered.
pub proof fn lemma_stop_commits_held(
    store: Store,
    key: Seq<char>,
    value: Seq<u8>,
    start: PlanView,
    put: PlanView,
    stop: PlanView,
)
    requires
        store.held is None,
        fits_frame(value.len()),
        planned(TransactionState::Idle, MessageView::StartTransaction, start),
        planned(TransactionState::Active, MessageView::Put { key, value }, put),
        planned(TransactionState::Active, MessageView::Stop, stop),
    ensures
        ({
            let first = served(TransactionState::Idle, store, start);
            let second = served(first.0, first.1, put);
            let third = served(second.0, second.1, stop);
            &&& first.0 is Active
            &&& second.0 is Active
            &&& stop == (PlanView::Stop { commit: true })
            &&& third.0 is Stopped
            &&& third.2 is None
            &&& third.1.held is None
            &&& lookup(third.1.committed, key) matches Some(stored) && decoded(stored) == Ok::<
                Seq<u8>,
                DecompressFault,
            >(value)
        }),
{
    let entries = put->Write_entries;
    lemma_written_last_wins(store.committed, entries, 0);
    lemma_frame_decodes(entries[0].1, value);
}

} // verus!

use lmdb_js_safe::handle::{Entry, HandleClosed, LMDB};
use lmdb_js_safe::writer::{DatabaseWriterMessage, LMDBOptions};

fn open() -> LMDB<&'static str, u32> {
    LMDB::new("database")
}

#[test]
fn create_database() {
    let options = LMDBOptions {
        path: String::from("lmdb-cache-tests.db"),
        async_writes: false,
        map_size: None,
    };
    let mut lmdb: LMDB<LMDBOptions, ()> = LMDB::new(options);
    assert!(!lmdb.is_closed());
    assert_eq!(lmdb.get_database().unwrap().path, "lmdb-cache-tests.db");
    lmdb.close();
    assert!(lmdb.is_closed());
}

#[test]
fn get_asks_for_the_key() {
    let lmdb = open();
    let (database, request) = lmdb.get(String::from("key")).unwrap();
    assert_eq!(*database, "database");
    assert!(request.confirm);
    match request.message {
        DatabaseWriterMessage::Get { key } => assert_eq!(key, "key"),
        other => panic!("{:?}", other),
    }
}

#[test]
fn put_asks_for_the_write_and_waits() {
    let lmdb = open();
    let (_, request) = lmdb.put(String::from("key"), vec![1, 2, 3, 4, 5]).unwrap();
    assert!(request.confirm);
    match request.message {
        DatabaseWriterMessage::Put { key, value } => {
            assert_eq!(key, "key");
            assert_eq!(value, vec![1, 2, 3, 4, 5]);
        }
        other => panic!("{:?}", other),
    }
}

#[test]
fn put_no_confirm_asks_for_the_write_and_does_not_wait() {
    let lmdb = open();
    let (_, request) = lmdb.put_no_confirm(String::from("key"), vec![6]).unwrap();
    assert!(!request.confirm);
    match request.message {
        DatabaseWriterMessage::Put { key, value } => {
            assert_eq!(key, "key");
            assert_eq!(value, vec![6]);
        }
        other => panic!("{:?}", other),
    }
}

#[test]
fn put_many_hands_the_batch_over_in_order() {
    let lmdb = open();
    let entries = vec![
        Entry { key: String::from("one"), value: vec![1] },
        Entry { key: String::from("two"), value: vec![2, 2] },
        Entry { key: String::from("one"), value: vec![] },
    ];
    let (_, request) = lmdb.put_many(entries).unwrap();
    assert!(request.confirm);
    match request.message {
        DatabaseWriterMessage::PutMany { entries } => {
            assert_eq!(entries.len(), 3);
            assert_eq!(entries[0].key, "one");
            assert_eq!(entries[0].value, vec![1]);
            assert_eq!(entries[1].key, "two");
            assert_eq!(entries[1].value, vec![2, 2]);
            assert_eq!(entries[2].key, "one");
            assert_eq!(entries[2].value, Vec::<u8>::new());
        }
        other => panic!("{:?}", other),
    }
}

#[test]
fn the_write_transaction_is_asked_of_the_coordinator() {
    let lmdb = open();
    let (_, request) = lmdb.start_write_transaction().unwrap();
    assert!(request.confirm);
    assert!(matches!(request.message, DatabaseWriterMessage::StartTransaction));
    let (_, request) = lmdb.commit_write_transaction().unwrap();
    assert!(request.confirm);
    assert!(matches!(request.message, DatabaseWriterMessage::CommitTransaction));
}

#[test]
fn a_closed_handle_refuses_every_call() {
    let mut lmdb = open();
    lmdb.close();
    assert!(lmdb.is_closed());
    assert_eq!(lmdb.get_database().err(), Some(HandleClosed));
    assert_eq!(lmdb.get(String::from("k")).err(), Some(HandleClosed));
    assert_eq!(lmdb.get_sync().err(), Some(HandleClosed));
    assert_eq!(lmdb.get_many_sync().err(), Some(HandleClosed));
    assert_eq!(lmdb.put(String::from("k"), vec![1]).err(), Some(HandleClosed));
    assert_eq!(lmdb.put_no_confirm(String::from("k"), vec![1]).err(), Some(HandleClosed));
    assert_eq!(lmdb.put_many(vec![]).err(), Some(HandleClosed));
    assert_eq!(lmdb.start_write_transaction().err(), Some(HandleClosed));
    assert_eq!(lmdb.commit_write_transaction().err(), Some(HandleClosed));
    assert_eq!(lmdb.start_read_transaction().err(), Some(HandleClosed));
    lmdb.close();
    assert!(lmdb.is_closed());
}

#[test]
fn a_lookup_reads_from_the_held_snapshot() {
    let mut lmdb = open();
    assert_eq!(lmdb.get_sync().unwrap(), (&"database", None));
    assert_eq!(lmdb.start_read_transaction().unwrap(), Some(&"database"));
    assert_eq!(lmdb.hold_read_transaction(41), None);
    assert!(lmdb.has_read_transaction());
    assert_eq!(lmdb.get_sync().unwrap(), (&"database", Some(&41)));
    assert_eq!(lmdb.get_many_sync().unwrap(), &"database");
}

#[test]
fn a_second_snapshot_is_not_taken() {
    let mut lmdb = open();
    assert_eq!(lmdb.hold_read_transaction(41), None);
    assert_eq!(lmdb.start_read_transaction().unwrap(), None);
    assert_eq!(lmdb.hold_read_transaction(42), Some(42));
    assert_eq!(lmdb.get_sync().unwrap(), (&"database", Some(&41)));
}

#[test]
fn the_snapshot_is_released_once() {
    let mut lmdb = open();
    assert_eq!(lmdb.commit_read_transaction(), None);
    lmdb.hold_read_transaction(41);
    assert_eq!(lmdb.commit_read_transaction(), Some(41));
    assert!(!lmdb.has_read_transaction());
    assert_eq!(lmdb.commit_read_transaction(), None);
    assert_eq!(lmdb.start_read_transaction().unwrap(), Some(&"database"));
}

#[test]
fn a_closed_handle_keeps_its_snapshot_until_it_is_released() {
    let mut lmdb = open();
    lmdb.hold_read_transaction(41);
    lmdb.close();
    assert!(lmdb.has_read_transaction());
    assert_eq!(lmdb.start_read_transaction().unwrap(), None);
    assert_eq!(lmdb.get_sync().err(), Some(HandleClosed));
    assert_eq!(lmdb.commit_read_transaction(), Some(41));
    assert_eq!(lmdb.start_read_transaction().err(), Some(HandleClosed));
}

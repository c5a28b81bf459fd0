// Messages of the log and frames of the stream
use bytes::Bytes;
use std::sync::{Arc, Mutex};
use wal_sync::frame::take_log_bytes;
use wal_sync::pgoutput::{parse_message, Field, Message};
use wal_sync::wal_subscriber::StreamStep;
use wal_sync::{
    ColumnInfo, RawWalEvent, WalError, WalEventHandler, WalOperation, WalSubscriber,
    WalSubscriberConfig,
};

struct Recorder {
    table: String,
    seen: Mutex<Vec<RawWalEvent>>,
}

impl Recorder {
    fn new(table: &str) -> Arc<Self> {
        Arc::new(Recorder { table: table.to_string(), seen: Mutex::new(Vec::new()) })
    }

    fn events(&self) -> Vec<RawWalEvent> {
        self.seen.lock().unwrap().clone()
    }
}

impl WalEventHandler for Recorder {
    type Outcome = usize;

    fn handle(&self, event: RawWalEvent) -> usize {
        let mut seen = self.seen.lock().unwrap();
        seen.push(event);
        seen.len()
    }

    fn table_name(&self) -> &str {
        &self.table
    }
}

// Relation 7, public.users (id int4, name text)
const USERS: &[u8] = b"R\0\0\0\x07public\0users\0d\0\x02\x01id\0\0\0\0\x17\xff\xff\xff\xff\0name\0\0\0\0\x19\0\0\0\x0e";
const ADD_ALICE: &[u8] = b"I\0\0\0\x07N\0\x02t\0\0\0\x011t\0\0\0\x05Alice";
const RENAME_BY_KEY: &[u8] = b"U\0\0\0\x07K\0\x02t\0\0\0\x011nN\0\x02t\0\0\0\x011t\0\0\0\x03Bob";
const TOUCH: &[u8] = b"U\0\0\0\x07N\0\x02t\0\0\0\x011u";
const DROP_BOB: &[u8] = b"D\0\0\0\x07K\0\x02t\0\0\0\x011n";

fn frame(log: &[u8]) -> Bytes {
    let mut bytes = vec![b'w'];
    bytes.extend_from_slice(&[9; 24]);
    bytes.extend_from_slice(log);
    Bytes::from(bytes)
}

fn subscriber(handlers: &[&Arc<Recorder>]) -> WalSubscriber<Recorder> {
    let mut subscriber = WalSubscriber::new(WalSubscriberConfig::default());
    for handler in handlers {
        subscriber.register_handler((*handler).clone());
    }
    subscriber
}

#[test]
fn relation_message_is_decoded() {
    match parse_message(USERS) {
        Some(Message::Relation { id, relation }) => {
            assert_eq!(id, 7);
            assert_eq!(relation.schema_name, "public");
            assert_eq!(relation.table_name, "users");
            assert_eq!(relation.columns.len(), 2);
            assert_eq!(relation.columns[0].name, "id");
            assert_eq!(relation.columns[0].type_id, 23);
            assert_eq!(relation.columns[0].type_modifier, -1);
            assert_eq!(relation.columns[1].name, "name");
            assert_eq!(relation.columns[1].type_id, 25);
            assert_eq!(relation.columns[1].type_modifier, 14);
        }
        _ => panic!("a relation was expected"),
    }
}

#[test]
fn signed_numbers_reach_both_ends() {
    for (bytes, value) in [
        ([0x7f, 0xff, 0xff, 0xff], i32::MAX),
        ([0x80, 0, 0, 0], i32::MIN),
        ([0xff, 0xff, 0xff, 0xfe], -2),
    ] {
        let mut data = b"R\xff\0\0\x01s\0t\0d\0\x01\0c\0\0\0\0\x17".to_vec();
        data.extend_from_slice(&bytes);
        match parse_message(&data) {
            Some(Message::Relation { id, relation }) => {
                assert_eq!(id, 0xff00_0001);
                assert_eq!(relation.columns[0].type_modifier, value);
            }
            _ => panic!("a relation was expected"),
        }
    }
}

#[test]
fn row_messages_are_decoded() {
    match parse_message(ADD_ALICE) {
        Some(Message::Insert { id, new }) => {
            assert_eq!(id, 7);
            assert_eq!(new.len(), 2);
            assert!(matches!(&new[1], Field::Text(text) if text == b"Alice"));
        }
        _ => panic!("an insert was expected"),
    }
    match parse_message(RENAME_BY_KEY) {
        Some(Message::Update { id, old: Some(old), new }) => {
            assert_eq!(id, 7);
            assert!(matches!(&old[1], Field::Null));
            assert!(matches!(&new[1], Field::Text(text) if text == b"Bob"));
        }
        _ => panic!("an update was expected"),
    }
    match parse_message(TOUCH) {
        Some(Message::Update { id, old: None, new }) => {
            assert_eq!(id, 7);
            assert!(matches!(&new[1], Field::Unchanged));
        }
        _ => panic!("an update was expected"),
    }
    match parse_message(DROP_BOB) {
        Some(Message::Delete { id, old }) => {
            assert_eq!(id, 7);
            assert!(matches!(&old[0], Field::Text(text) if text == b"1"));
        }
        _ => panic!("a delete was expected"),
    }
    assert!(matches!(parse_message(b"B"), Some(Message::Begin)));
    assert!(matches!(parse_message(b"C trailing"), Some(Message::Commit)));
}

#[test]
fn cut_messages_are_no_messages() {
    for whole in [USERS, ADD_ALICE, RENAME_BY_KEY, TOUCH, DROP_BOB] {
        for n in 0..whole.len() {
            assert!(parse_message(&whole[..n]).is_none());
        }
        let mut longer = whole.to_vec();
        longer.extend_from_slice(b"more");
        assert!(parse_message(&longer).is_some());
    }
}

#[test]
fn malformed_messages_are_no_messages() {
    assert!(parse_message(b"").is_none());
    assert!(parse_message(b"X").is_none());
    // an old row where the new one belongs, and the other way round
    assert!(parse_message(b"I\0\0\0\x07O\0\x01n").is_none());
    assert!(parse_message(b"D\0\0\0\x07N\0\x01n").is_none());
    // an unknown kind of value
    assert!(parse_message(b"I\0\0\0\x07N\0\x01b\0\0\0\x01x").is_none());
    // a name that is not UTF-8
    assert!(parse_message(b"R\0\0\0\x07\xff\0t\0d\0\0").is_none());
}

#[test]
fn events_carry_table_columns_and_rows() {
    let users = Recorder::new("users");
    let mut subscriber = subscriber(&[&users]);
    assert_eq!(subscriber.process_wal_data(USERS), None);
    assert_eq!(subscriber.process_wal_data(ADD_ALICE), Some(1));
    assert_eq!(subscriber.process_wal_data(RENAME_BY_KEY), Some(2));
    assert_eq!(subscriber.process_wal_data(TOUCH), Some(3));
    assert_eq!(subscriber.process_wal_data(DROP_BOB), Some(4));
    let events = users.events();
    for event in &events {
        assert!(event.is_table("users"));
        assert!(!event.is_table("user"));
        assert_eq!(event.schema_name, "public");
        assert_eq!(event.columns.len(), 2);
        assert_eq!(event.columns[1].name, "name");
        let kinds = [event.is_insert(), event.is_update(), event.is_delete()];
        assert_eq!(kinds.iter().filter(|k| **k).count(), 1);
    }
    assert!(events[0].is_insert());
    assert_eq!(events[0].old_tuple, None);
    assert_eq!(events[0].new_tuple, Some(b"1\0Alice\0".to_vec()));
    assert!(events[1].is_update());
    assert_eq!(events[1].old_tuple, Some(b"1\0\xff".to_vec()));
    assert_eq!(events[1].new_tuple, Some(b"1\0Bob\0".to_vec()));
    assert!(events[2].is_update());
    assert_eq!(events[2].old_tuple, None);
    assert_eq!(events[2].new_tuple, Some(b"1\0\xff".to_vec()));
    assert!(events[3].is_delete());
    assert_eq!(events[3].old_tuple, Some(b"1\0\xff".to_vec()));
    assert_eq!(events[3].new_tuple, None);
}

#[test]
fn rows_of_unknown_tables_are_passed_over() {
    let users = Recorder::new("users");
    let mut subscriber = subscriber(&[&users]);
    assert_eq!(subscriber.process_wal_data(ADD_ALICE), None);
    assert_eq!(subscriber.process_wal_data(USERS), None);
    assert_eq!(subscriber.process_wal_data(ADD_ALICE), Some(1));
    // another id
    assert_eq!(subscriber.process_wal_data(b"I\0\0\0\x08N\0\x01n"), None);
    assert_eq!(users.events().len(), 1);
}

#[test]
fn cut_relation_message_leaves_the_table_as_it_was() {
    let users = Recorder::new("users");
    let mut subscriber = subscriber(&[&users]);
    subscriber.process_wal_data(USERS);
    subscriber.process_wal_data(b"R\0\0\0\x07public\0other\0d\0\x02");
    assert_eq!(subscriber.process_wal_data(ADD_ALICE), Some(1));
}

#[test]
fn rows_without_a_handler_are_passed_over() {
    let posts = Recorder::new("posts");
    let mut subscriber = subscriber(&[&posts]);
    subscriber.process_wal_data(USERS);
    assert_eq!(subscriber.process_wal_data(ADD_ALICE), None);
    assert_eq!(posts.events().len(), 0);
}

#[test]
fn last_handler_of_a_table_counts() {
    let first = Recorder::new("users");
    let second = Recorder::new("users");
    let mut subscriber = subscriber(&[&first, &second]);
    subscriber.process_wal_data(USERS);
    assert_eq!(subscriber.process_wal_data(ADD_ALICE), Some(1));
    assert_eq!(first.events().len(), 0);
    assert_eq!(second.events().len(), 1);
    subscriber.register_handler_for("users".to_string(), first.clone());
    assert_eq!(subscriber.process_wal_data(ADD_ALICE), Some(1));
    assert_eq!(first.events().len(), 1);
}

#[test]
fn dispatch_goes_by_the_table_name() {
    let users = Recorder::new("users");
    let subscriber = subscriber(&[&users]);
    let event = |table: &str| RawWalEvent {
        table_name: table.to_string(),
        schema_name: "public".to_string(),
        operation: WalOperation::Delete,
        old_tuple: None,
        new_tuple: None,
        columns: vec![ColumnInfo { name: "id".to_string(), type_id: 23, type_modifier: -1 }],
    };
    assert_eq!(subscriber.dispatch_event(event("users")), Some(1));
    assert_eq!(subscriber.dispatch_event(event("Users")), None);
}

#[test]
fn log_frames_carry_messages() {
    let users = Recorder::new("users");
    let mut subscriber = subscriber(&[&users]);
    assert_eq!(subscriber.process_replication_message(&frame(USERS)), None);
    assert_eq!(subscriber.process_replication_message(&frame(ADD_ALICE)), Some(1));
    assert_eq!(take_log_bytes(&frame(b"abc")).unwrap(), Bytes::from_static(b"abc"));
    assert_eq!(take_log_bytes(&frame(b"")).unwrap(), Bytes::new());
}

#[test]
fn frame_is_left_as_it_was() {
    let data = frame(ADD_ALICE);
    let copy = data.clone();
    let log = take_log_bytes(&data).unwrap();
    assert_eq!(data, copy);
    assert_eq!(log.len() + 25, data.len());
}

#[test]
fn other_frames_carry_nothing() {
    let users = Recorder::new("users");
    let mut subscriber = subscriber(&[&users]);
    subscriber.process_replication_message(&frame(USERS));
    let mut keepalive = frame(ADD_ALICE).to_vec();
    keepalive[0] = b'k';
    let mut unknown = keepalive.clone();
    unknown[0] = b'?';
    for bytes in [vec![], keepalive, unknown, b"w".to_vec(), frame(ADD_ALICE)[..24].to_vec()] {
        assert_eq!(subscriber.process_replication_message(&Bytes::from(bytes)), None);
    }
    assert_eq!(users.events().len(), 0);
    assert_eq!(subscriber.process_replication_message(&frame(ADD_ALICE)), Some(1));
}

#[test]
fn stream_ends_with_the_connection_only() {
    let users = Recorder::new("users");
    let mut subscriber = subscriber(&[&users]);
    assert!(matches!(
        subscriber.process_stream_item(Some(Ok(frame(USERS)))),
        StreamStep::Continue(None)
    ));
    assert!(matches!(
        subscriber.process_stream_item(Some(Ok(frame(ADD_ALICE)))),
        StreamStep::Continue(Some(1))
    ));
    assert!(matches!(
        subscriber.process_stream_item(Some(Ok(Bytes::from_static(b"junk")))),
        StreamStep::Continue(None)
    ));
    let broken = "nonsense".parse::<tokio_postgres::Config>().unwrap_err();
    match subscriber.process_stream_item(Some(Err(broken))) {
        StreamStep::Finished(Err(WalError::ConnectionError(error))) => {
            assert!(error.to_string().contains("invalid connection string"))
        }
        _ => panic!("a connection error was expected"),
    }
    assert!(matches!(subscriber.process_stream_item(None), StreamStep::Finished(Ok(()))));
}

#[test]
fn log_can_be_taken_in_piece_by_piece() {
    let log = [USERS, ADD_ALICE, b"B", TOUCH, b"C", RENAME_BY_KEY, b"?", DROP_BOB];
    for cut in 0..log.len() {
        let users = Recorder::new("users");
        let mut subscriber = subscriber(&[&users]);
        for message in &log[..cut] {
            subscriber.process_wal_data(message);
        }
        let before = users.events().len();
        let rows_before = log[..cut].iter().filter(|m| m.len() > 1 && m[0] != b'R').count();
        assert_eq!(before, rows_before);
        for message in &log[cut..] {
            subscriber.process_wal_data(message);
        }
        let operations: Vec<WalOperation> = users.events().iter().map(|e| e.operation).collect();
        assert_eq!(
            operations,
            vec![
                WalOperation::Insert,
                WalOperation::Update,
                WalOperation::Update,
                WalOperation::Delete
            ]
        );
    }
}

// Takes in items until one of them ends the stream
fn run(
    subscriber: &mut WalSubscriber<Recorder>,
    items: Vec<Option<Result<Bytes, tokio_postgres::Error>>>,
) -> Option<Result<(), WalError>> {
    for item in items {
        if let StreamStep::Finished(result) = subscriber.process_stream_item(item) {
            return Some(result);
        }
    }
    None
}

#[test]
fn stream_has_the_effect_of_its_log() {
    let broken = || "nonsense".parse::<tokio_postgres::Config>().unwrap_err();
    let keepalive = || Bytes::from_static(b"k");

    let users = Recorder::new("users");
    let mut going_on = subscriber(&[&users]);
    let items = vec![
        Some(Ok(frame(USERS))),
        Some(Ok(keepalive())),
        Some(Ok(frame(ADD_ALICE))),
        Some(Ok(frame(TOUCH))),
    ];
    assert!(run(&mut going_on, items).is_none());
    assert_eq!(users.events().len(), 2);
    assert!(users.events()[0].is_insert());
    assert!(users.events()[1].is_update());

    let users = Recorder::new("users");
    let mut failing = subscriber(&[&users]);
    let items = vec![
        Some(Ok(frame(USERS))),
        Some(Ok(frame(ADD_ALICE))),
        Some(Err(broken())),
        Some(Ok(frame(DROP_BOB))),
        None,
    ];
    assert!(matches!(run(&mut failing, items), Some(Err(WalError::ConnectionError(_)))));
    assert_eq!(users.events().len(), 1);

    let users = Recorder::new("users");
    let mut ending = subscriber(&[&users]);
    let items = vec![Some(Ok(frame(USERS))), None, Some(Ok(frame(ADD_ALICE)))];
    assert!(matches!(run(&mut ending, items), Some(Ok(()))));
    assert_eq!(users.events().len(), 0);
}

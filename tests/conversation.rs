use morpha::conversation::{decimal_string, Conversation, Message};
use morpha::database::{open_database, write_schema, StorageErrorKind, SCHEMA};
use rusqlite::Connection;

// return an in-memory database connection
fn setup() -> Connection {
    let db = Connection::open_in_memory().unwrap();
    assert!(write_schema(&db, SCHEMA).is_ok());
    db
}

fn count(db: &Connection, table: &str) -> i64 {
    db.query_row(&format!("SELECT COUNT(*) FROM {}", table), [], |row| row.get(0))
        .unwrap()
}

#[test]
fn test_conversation_write_to_database() {
    let db = setup();
    let conversation = Conversation {
        id: "asst_7pF0CU0GNsBodf5XsVCcopFw".to_string(),
        messages: Vec::new(),
        msec: 0,
    };
    let message = Message {
        conversation_id: conversation.id.clone(),
        msec: 0,
        prompt: "What does Lorem Ipsum mean?".to_string(),
        response: "It doesn't mean anything, you idiot!".to_string(),
    };
    assert!(conversation.write_to_database(&db).is_ok());
    assert!(message.write_to_database(&db).is_ok());

    // verify conversation data
    let mut stmt = db.prepare("SELECT id, msec FROM conversations").unwrap();
    let rows = stmt
        .query_map([], |row| {
            Ok(Conversation {
                id: row.get(0).unwrap(),
                messages: Vec::new(),
                msec: row.get::<_, i64>(1).unwrap() as u64,
            })
        })
        .unwrap();
    let mut n = 0;
    for row in rows {
        let c = row.unwrap();
        assert_eq!(c.id, conversation.id);
        assert_eq!(c.msec, conversation.msec);
        n += 1;
    }
    assert_eq!(n, 1);

    // verify message data
    let mut stmt = db
        .prepare("SELECT conversation_id, msec, prompt, response FROM messages")
        .unwrap();
    let rows = stmt
        .query_map([], |row| {
            Ok(Message {
                conversation_id: row.get(0)?,
                msec: row.get::<_, i64>(1)? as u64,
                prompt: row.get(2)?,
                response: row.get(3)?,
            })
        })
        .unwrap();
    let mut n = 0;
    for row in rows.into_iter().map(|r| r.unwrap()) {
        assert_eq!(row.conversation_id, message.conversation_id);
        assert_eq!(row.msec, message.msec);
        assert_eq!(row.prompt, message.prompt);
        assert_eq!(row.response, message.response);
        n += 1;
    }
    assert_eq!(n, 1);
}

#[test]
fn second_header_with_same_id_is_refused() {
    let db = setup();
    let c = Conversation { id: "asst_1".to_string(), messages: Vec::new(), msec: 5 };
    assert!(c.write_to_database(&db).is_ok());
    match c.write_to_database(&db) {
        Err(e) => assert_eq!(e.kind, StorageErrorKind::Constraint),
        Ok(()) => panic!("a second header with the same id must fail"),
    }
    assert_eq!(count(&db, "conversations"), 1);
}

#[test]
fn turn_needs_no_header_at_storage_level() {
    let db = setup();
    let m = Message {
        conversation_id: "asst_unknown".to_string(),
        msec: 42,
        prompt: "p".to_string(),
        response: "r".to_string(),
    };
    assert!(m.write_to_database(&db).is_ok());
    assert_eq!(count(&db, "messages"), 1);
}

#[test]
fn write_without_schema_fails_as_other() {
    let db = Connection::open_in_memory().unwrap();
    let c = Conversation { id: "x".to_string(), messages: Vec::new(), msec: 1 };
    match c.write_to_database(&db) {
        Err(e) => assert_eq!(e.kind, StorageErrorKind::Other),
        Ok(()) => panic!("there is no table to write to"),
    }
}

#[test]
fn open_in_memory_database_has_tables() {
    let db = match open_database(":memory:") {
        Ok(db) => db,
        Err(_) => panic!("an in-memory database opens"),
    };
    let c = Conversation { id: "a".to_string(), messages: Vec::new(), msec: 1_700_000_000_123 };
    assert!(c.write_to_database(&db).is_ok());
    let msec: i64 = db
        .query_row("SELECT msec FROM conversations WHERE id = 'a'", [], |row| row.get(0))
        .unwrap();
    assert_eq!(msec, 1_700_000_000_123);
}

#[test]
fn insert_params_in_order() {
    let c = Conversation { id: "asst".to_string(), messages: Vec::new(), msec: 907 };
    assert_eq!(c.insert_params(), vec!["asst".to_string(), "907".to_string()]);
    let m = Message {
        conversation_id: "asst".to_string(),
        msec: 10,
        prompt: "q".to_string(),
        response: "a".to_string(),
    };
    assert_eq!(m.insert_params(), vec!["asst", "10", "q", "a"]);
}

#[test]
fn decimal_numerals() {
    assert_eq!(decimal_string(0), "0");
    assert_eq!(decimal_string(7), "7");
    assert_eq!(decimal_string(1234567890), "1234567890");
    assert_eq!(decimal_string(u64::MAX), "18446744073709551615");
}

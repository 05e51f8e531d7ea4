use morpha::conversation::{Conversation, Message};
use morpha::database::{write_schema, SCHEMA};
use morpha::personality::Mode;
use morpha::poller::{response_text, MessageBody, PollAction, RunPoller, RunState, POLL_INTERVAL_MS};
use morpha::session::{parse_command, InputAction, Session, BLANK_HINT_AFTER};
use rusqlite::Connection;

fn memory_db() -> Connection {
    let db = Connection::open_in_memory().unwrap();
    assert!(write_schema(&db, SCHEMA).is_ok());
    db
}

fn count(db: &Connection, table: &str) -> i64 {
    db.query_row(&format!("SELECT COUNT(*) FROM {}", table), [], |row| row.get(0))
        .unwrap()
}

fn write_plan(db: &Connection, header: &Option<Conversation>, turn: &Option<Message>) {
    if let Some(h) = header {
        assert!(h.write_to_database(db).is_ok());
    }
    if let Some(t) = turn {
        assert!(t.write_to_database(db).is_ok());
    }
}

#[test]
fn one_shot_session_archives_one_exchange() {
    let db = memory_db();
    let mut session = Session::new(Mode::NonInteractive, true, "asst_1", 1000);
    let prompt = match session.on_input(Some("Hello\n")) {
        InputAction::Submit(p) => p,
        _ => panic!("a prompt must be submitted"),
    };
    assert_eq!(prompt, "Hello");

    let mut poller = RunPoller::new(POLL_INTERVAL_MS);
    let t = poller.observe(RunState::Queued, "");
    assert!(matches!(t.action, PollAction::Wait));
    let t = poller.observe(RunState::Completed, "");
    assert!(matches!(t.action, PollAction::FetchResponse));
    let reply = match response_text(&vec![MessageBody::Text("Hi there".to_string())]) {
        Ok(r) => r,
        Err(_) => panic!("the reply is text"),
    };

    let plan = session.on_response(&prompt, &reply, 2000);
    write_plan(&db, &plan.header, &plan.turn);
    assert!(plan.finish);
    assert_eq!(count(&db, "conversations"), 1);
    assert_eq!(count(&db, "messages"), 1);
    let (id, p, r): (String, String, String) = db
        .query_row("SELECT conversation_id, prompt, response FROM messages", [], |row| {
            Ok((row.get(0)?, row.get(1)?, row.get(2)?))
        })
        .unwrap();
    assert_eq!(id, "asst_1");
    assert_eq!(p, "Hello");
    assert_eq!(r, "Hi there");
    let created: i64 = db
        .query_row("SELECT msec FROM conversations WHERE id = 'asst_1'", [], |row| row.get(0))
        .unwrap();
    assert_eq!(created, 1000);
}

#[test]
fn failed_run_writes_nothing() {
    let db = memory_db();
    for (mode, ends) in [(Mode::NonInteractive, true), (Mode::Interactive, false)] {
        let mut session = Session::new(mode, true, "asst_2", 1);
        assert!(matches!(session.on_input(Some("Hello")), InputAction::Submit(_)));
        let mut poller = RunPoller::new(POLL_INTERVAL_MS);
        let t = poller.observe(RunState::Failed, "server error");
        assert_eq!(t.progress, "--- Run Failed: server error");
        assert!(matches!(t.action, PollAction::Stop(_)));
        assert_eq!(session.on_failure(), ends);
        assert!(!session.header_written);
        assert_eq!(count(&db, "conversations"), 0);
        assert_eq!(count(&db, "messages"), 0);
        if !ends {
            assert!(matches!(session.on_input(Some("again")), InputAction::Submit(_)));
        }
    }
}

#[test]
fn header_only_on_first_reply() {
    let db = memory_db();
    let mut session = Session::new(Mode::Interactive, true, "asst_3", 10);
    let first = session.on_response("a", "b", 11);
    assert!(first.header.is_some());
    assert!(!first.finish);
    write_plan(&db, &first.header, &first.turn);
    let second = session.on_response("c", "d", 12);
    assert!(second.header.is_none());
    write_plan(&db, &second.header, &second.turn);
    assert_eq!(count(&db, "conversations"), 1);
    assert_eq!(count(&db, "messages"), 2);
}

#[test]
fn no_archive_plans_nothing() {
    let mut session = Session::new(Mode::Interactive, false, "asst_4", 10);
    let plan = session.on_response("a", "b", 11);
    assert!(plan.header.is_none());
    assert!(plan.turn.is_none());
    assert!(!session.header_written);
}

#[test]
fn blank_inputs_hint_after_two() {
    let mut session = Session::new(Mode::Interactive, true, "asst_5", 0);
    assert!(matches!(session.on_input(Some("  \n")), InputAction::Ignore(false)));
    assert!(matches!(session.on_input(Some("")), InputAction::Ignore(true)));
    assert!(matches!(session.on_input(Some("\t")), InputAction::Ignore(true)));
    assert_eq!(session.blank_inputs, 3);
    assert!(matches!(session.on_input(Some("hi")), InputAction::Submit(_)));
    assert_eq!(session.blank_inputs, 0);
    assert!(matches!(session.on_input(Some(" ")), InputAction::Ignore(false)));
    assert_eq!(BLANK_HINT_AFTER, 2);
}

#[test]
fn quit_commands_and_end_of_input() {
    let mut session = Session::new(Mode::Interactive, true, "asst_6", 0);
    for q in ["/q", " /quit\n", "/exit"] {
        assert!(matches!(session.on_input(Some(q)), InputAction::Quit));
    }
    assert!(matches!(session.on_input(None), InputAction::Quit));
    assert!(matches!(session.on_input(Some("/qu")), InputAction::Command(_)));
}

#[test]
fn other_slash_inputs_are_commands() {
    let mut session = Session::new(Mode::Interactive, true, "asst_7", 0);
    match session.on_input(Some("  /model   gpt-4 \n")) {
        InputAction::Command(args) => assert_eq!(args, vec!["/model", "gpt-4"]),
        _ => panic!("a slash input is a command"),
    }
}

#[test]
fn parse_command_splits_words() {
    assert_eq!(parse_command("/set  width\t100"), vec!["/set", "width", "100"]);
    assert!(parse_command("   ").is_empty());
}

#[test]
fn blank_hint_threshold_is_per_session() {
    let mut session = Session::new(Mode::Interactive, true, "asst_8", 0);
    session.blank_hint_after = 1;
    assert!(matches!(session.on_input(Some("")), InputAction::Ignore(true)));
    session.blank_hint_after = 4;
    assert!(matches!(session.on_input(Some("")), InputAction::Ignore(false)));
}

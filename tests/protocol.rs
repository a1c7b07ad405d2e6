use kvstore::codec::{Request, Response};
use kvstore::session::Step;
use kvstore::store::Database;

fn s(x: &str) -> String {
    x.to_string()
}

/// Handles one live line; `append_ok` stands for the outcome of the log write.
fn handle(db: &mut Database, line: &str, append_ok: bool, log: &mut Vec<String>) -> String {
    match db.process_line(line, true) {
        Step::Reply(r) => r.serialize(),
        Step::Persist { record, request } => {
            if append_ok {
                log.push(record);
            }
            db.finish_persist(request, append_ok).serialize()
        }
    }
}

#[test]
fn parse_get() {
    assert_eq!(Request::parse("GET k"), Ok(Request::Get { key: s("k") }));
}

#[test]
fn parse_verb_is_case_insensitive() {
    assert_eq!(Request::parse("get k"), Ok(Request::Get { key: s("k") }));
    assert_eq!(Request::parse("Ping x"), Ok(Request::Ping { msg: s("x") }));
}

#[test]
fn parse_put_value_keeps_spaces() {
    assert_eq!(
        Request::parse("PUT k hello big world"),
        Ok(Request::Put { key: s("k"), value: s("hello big world") })
    );
}

#[test]
fn parse_errors() {
    assert_eq!(Request::parse("GET"), Err(s("GET must be followed by a key")));
    assert_eq!(Request::parse("PUT"), Err(s("PUT must be followed by a key")));
    assert_eq!(Request::parse("PUT k"), Err(s("PUT needs a value")));
    assert_eq!(Request::parse("DEL"), Err(s("DEL must be followed by a key")));
    assert_eq!(
        Request::parse("DEL k extra"),
        Err(s("DEL`'s key must not be followed by anything"))
    );
    assert_eq!(Request::parse(""), Err(s("unknown command: ")));
}

#[test]
fn parse_ping_and_exit() {
    assert_eq!(Request::parse("PING"), Ok(Request::Ping { msg: s("") }));
    assert_eq!(Request::parse("PING a b"), Ok(Request::Ping { msg: s("a") }));
    assert_eq!(Request::parse("EXIT"), Ok(Request::Exit));
    assert_eq!(Request::parse("quit now"), Ok(Request::Exit));
}

#[test]
fn unknown_verb_is_upper_cased() {
    assert_eq!(Request::parse("foo bar"), Err(s("unknown command: FOO")));
}

#[test]
fn serialize_each_outcome() {
    assert_eq!(Response::Value { key: s("a"), value: s("1") }.serialize(), "GET a == 1");
    assert_eq!(Response::Put { key: s("a"), value: s("x y") }.serialize(), "PUT a x y");
    assert_eq!(Response::Del { key: s("a") }.serialize(), "DEL a");
    assert_eq!(Response::Message { msg: s("hi") }.serialize(), "hi");
    assert_eq!(Response::Error { msg: s("bad") }.serialize(), "error: bad");
}

#[test]
fn store_get_put_remove() {
    let mut db = Database::new(s("db.log"));
    assert_eq!(db.get(&s("a")), Err(s("Value not found")));
    db.insert(s("a"), s("1"));
    db.insert(s("b"), s("2"));
    db.insert(s("a"), s("3"));
    assert_eq!(db.get(&s("a")), Ok(s("3")));
    assert_eq!(db.get(&s("b")), Ok(s("2")));
    db.remove(&s("a"));
    db.remove(&s("missing"));
    assert_eq!(db.get(&s("a")), Err(s("Value not found")));
    assert_eq!(db.get(&s("b")), Ok(s("2")));
    assert_eq!(db.persist_log(), "db.log");
}

#[test]
fn put_then_get_round_trip() {
    let mut db = Database::new(s("db.log"));
    let mut log = Vec::new();
    assert_eq!(handle(&mut db, "PUT k some value", true, &mut log), "PUT k some value");
    assert_eq!(handle(&mut db, "GET k", true, &mut log), "GET k == some value");
    assert_eq!(log, vec![s("PUT k some value")]);
}

#[test]
fn repeated_put_is_idempotent() {
    let mut db = Database::new(s("db.log"));
    let mut log = Vec::new();
    handle(&mut db, "PUT k v", true, &mut log);
    handle(&mut db, "PUT k v", true, &mut log);
    assert_eq!(db.get(&s("k")), Ok(s("v")));
    assert_eq!(handle(&mut db, "GET k", true, &mut log), "GET k == v");
}

#[test]
fn delete_then_get() {
    let mut db = Database::new(s("db.log"));
    let mut log = Vec::new();
    assert_eq!(handle(&mut db, "DEL k", true, &mut log), "DEL k");
    assert_eq!(handle(&mut db, "GET k", true, &mut log), "error: no key k");
    handle(&mut db, "PUT k v", true, &mut log);
    assert_eq!(handle(&mut db, "DEL k", true, &mut log), "DEL k");
    assert_eq!(handle(&mut db, "GET k", true, &mut log), "error: no key k");
    assert_eq!(log, vec![s("DEL k"), s("PUT k v"), s("DEL k")]);
}

#[test]
fn replay_fidelity() {
    let lines = vec![s("PUT a 1"), s("PUT b 2"), s("DEL a")];
    let db = Database::replay(s("db.log"), &lines).unwrap();
    assert_eq!(db.get(&s("a")), Err(s("Value not found")));
    assert_eq!(db.get(&s("b")), Ok(s("2")));
}

#[test]
fn replay_applies_directly_without_records() {
    let mut db = Database::new(s("db.log"));
    match db.process_line("PUT a 1", false) {
        Step::Reply(r) => assert_eq!(r, Response::Put { key: s("a"), value: s("1") }),
        Step::Persist { .. } => panic!("replay must not ask for a log record"),
    }
    assert_eq!(db.get(&s("a")), Ok(s("1")));
}

#[test]
fn replay_rejects_bad_line() {
    let lines = vec![s("PUT a 1"), s("BOGUS"), s("PUT b 2")];
    assert_eq!(
        Database::replay(s("db.log"), &lines).err(),
        Some(s("unknown command: BOGUS"))
    );
}

#[test]
fn replay_of_empty_log() {
    let db = Database::replay(s("db.log"), &Vec::new()).unwrap();
    assert_eq!(db.get(&s("a")), Err(s("Value not found")));
}

#[test]
fn failed_append_leaves_store_unchanged() {
    let mut db = Database::new(s("db.log"));
    let mut log = Vec::new();
    assert_eq!(
        handle(&mut db, "PUT k v", false, &mut log),
        "error: Error writing to persist log"
    );
    assert_eq!(handle(&mut db, "GET k", true, &mut log), "error: no key k");
    handle(&mut db, "PUT k old", true, &mut log);
    assert_eq!(
        handle(&mut db, "DEL k", false, &mut log),
        "error: Error writing to persist log"
    );
    assert_eq!(handle(&mut db, "GET k", true, &mut log), "GET k == old");
    assert_eq!(log, vec![s("PUT k old")]);
}

#[test]
fn pings_answer_in_order() {
    let mut db = Database::new(s("db.log"));
    let mut log = Vec::new();
    let replies: Vec<String> = ["PING 1", "PING 2", "PING 3"]
        .iter()
        .map(|l| handle(&mut db, l, true, &mut log))
        .collect();
    assert_eq!(replies, vec![s("PONG: 1"), s("PONG: 2"), s("PONG: 3")]);
}

#[test]
fn unknown_command_has_no_effect() {
    let mut db = Database::new(s("db.log"));
    let mut log = Vec::new();
    assert_eq!(handle(&mut db, "FOO bar", true, &mut log), "error: unknown command: FOO");
    assert!(log.is_empty());
    assert_eq!(db.get(&s("bar")), Err(s("Value not found")));
}

#[test]
fn malformed_get_is_a_parse_error() {
    let mut db = Database::new(s("db.log"));
    assert_eq!(
        db.process_line("GET k extra", true),
        Step::Reply(Response::Error { msg: s("GET's key must not be followed by anything") })
    );
}

#[test]
fn exit_is_not_implemented() {
    let mut db = Database::new(s("db.log"));
    let mut log = Vec::new();
    assert_eq!(handle(&mut db, "EXIT", true, &mut log), "error: EXIT COMMAND NOT IMPLEMENTED YET");
    assert_eq!(handle(&mut db, "PING still here", true, &mut log), "PONG: still");
}

use tokio_lab::kv::{answer_parsed, execute, process_frame, unimplemented_reply, Command, Db, Rejection, RespFrame};

fn bulk(s: &str) -> RespFrame {
    RespFrame::Bulk(s.as_bytes().to_vec())
}

fn request(parts: &[&str]) -> RespFrame {
    RespFrame::Array(parts.iter().map(|p| bulk(p)).collect())
}

#[test]
fn set_then_get_returns_value() {
    let mut db = Db::new();
    let reply = process_frame(&mut db, request(&["set", "hello", "world"]));
    assert_eq!(reply, Ok(RespFrame::Simple("OK".to_string())));
    let reply = process_frame(&mut db, request(&["get", "hello"]));
    assert_eq!(reply, Ok(bulk("world")));
}

#[test]
fn get_of_missing_key_is_null() {
    let mut db = Db::new();
    assert_eq!(process_frame(&mut db, request(&["get", "nope"])), Ok(RespFrame::Null));
}

#[test]
fn command_names_are_case_insensitive() {
    let mut db = Db::new();
    assert_eq!(
        process_frame(&mut db, request(&["SET", "k", "v"])),
        Ok(RespFrame::Simple("OK".to_string()))
    );
    assert_eq!(process_frame(&mut db, request(&["GeT", "k"])), Ok(bulk("v")));
}

#[test]
fn set_with_expiry_still_stores_value() {
    let mut db = Db::new();
    let frame = RespFrame::Array(vec![bulk("set"), bulk("k"), bulk("v"), bulk("EX"), RespFrame::Integer(10)]);
    assert_eq!(process_frame(&mut db, frame), Ok(RespFrame::Simple("OK".to_string())));
    assert_eq!(db.get(&"k".to_string()), Some(b"v".to_vec()));
}

#[test]
fn last_set_wins() {
    let mut db = Db::new();
    process_frame(&mut db, request(&["set", "k", "one"])).unwrap();
    process_frame(&mut db, request(&["set", "k", "two"])).unwrap();
    assert_eq!(process_frame(&mut db, request(&["get", "k"])), Ok(bulk("two")));
}

#[test]
fn set_leaves_other_keys_alone() {
    let mut db = Db::new();
    process_frame(&mut db, request(&["set", "a", "1"])).unwrap();
    process_frame(&mut db, request(&["set", "b", "2"])).unwrap();
    assert_eq!(process_frame(&mut db, request(&["get", "a"])), Ok(bulk("1")));
    assert_eq!(process_frame(&mut db, request(&["get", "b"])), Ok(bulk("2")));
    assert_eq!(process_frame(&mut db, request(&["get", "c"])), Ok(RespFrame::Null));
}

#[test]
fn get_does_not_change_store() {
    let mut db = Db::new();
    db.set("k".to_string(), b"v".to_vec());
    let reply = execute(&mut db, Command::Get { key: "k".to_string() });
    assert_eq!(reply, bulk("v"));
    assert_eq!(db.get(&"k".to_string()), Some(b"v".to_vec()));
    assert_eq!(db.get(&"other".to_string()), None);
}

#[test]
fn execute_set_answers_ok() {
    let mut db = Db::new();
    let reply = execute(&mut db, Command::SetValue { key: "x".to_string(), value: vec![0, 255] });
    assert_eq!(reply, RespFrame::Simple("OK".to_string()));
    assert_eq!(db.get(&"x".to_string()), Some(vec![0, 255]));
}

#[test]
fn frame_that_is_not_an_array_is_malformed() {
    let mut db = Db::new();
    let reply = process_frame(&mut db, RespFrame::Simple("get".to_string()));
    assert_eq!(
        reply,
        Err(Rejection::Malformed("protocol error; expected array, got Simple(\"get\")".to_string()))
    );
}

#[test]
fn get_without_key_is_malformed() {
    let mut db = Db::new();
    let reply = process_frame(&mut db, request(&["get"]));
    assert_eq!(reply, Err(Rejection::Malformed("protocol error; unexpected end of stream".to_string())));
}

#[test]
fn get_with_extra_argument_is_malformed() {
    let mut db = Db::new();
    match process_frame(&mut db, request(&["get", "a", "b"])) {
        Err(Rejection::Malformed(_)) => {}
        other => panic!("unexpected reply {:?}", other),
    }
}

#[test]
fn publish_is_unimplemented() {
    let mut db = Db::new();
    match process_frame(&mut db, request(&["publish", "chan", "msg"])) {
        Err(Rejection::Unimplemented(desc)) => assert!(desc.starts_with("Publish")),
        other => panic!("unexpected reply {:?}", other),
    }
}

#[test]
fn unknown_command_is_unimplemented_and_store_unchanged() {
    let mut db = Db::new();
    db.set("k".to_string(), b"v".to_vec());
    match process_frame(&mut db, request(&["ping"])) {
        Err(Rejection::Unimplemented(desc)) => assert!(desc.contains("ping")),
        other => panic!("unexpected reply {:?}", other),
    }
    assert_eq!(db.get(&"k".to_string()), Some(b"v".to_vec()));
}

#[test]
fn first_server_version_answers_unimplemented() {
    assert_eq!(unimplemented_reply(), RespFrame::Error("unimplemented".to_string()));
}

#[test]
fn answer_parsed_maps_each_outcome() {
    let mut db = Db::new();
    assert_eq!(
        answer_parsed(&mut db, Err("bad".to_string())),
        Err(Rejection::Malformed("bad".to_string()))
    );
    assert_eq!(
        answer_parsed(&mut db, Ok(Command::Unsupported { description: "Ping".to_string() })),
        Err(Rejection::Unimplemented("Ping".to_string()))
    );
    assert_eq!(
        answer_parsed(&mut db, Ok(Command::SetValue { key: "k".to_string(), value: b"v".to_vec() })),
        Ok(RespFrame::Simple("OK".to_string()))
    );
    assert_eq!(answer_parsed(&mut db, Ok(Command::Get { key: "k".to_string() })), Ok(bulk("v")));
}

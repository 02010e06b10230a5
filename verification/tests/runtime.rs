use redis::Arg;
use redis_om::command::{expire_cmd, scan_keys};
use redis_om::stream_model::{
    autoclaim_range_to_id_and_messages, ensure_group_stream_success, stream_range_to_messages,
    stream_read_no_group_reply_to_messages, stream_read_reply_to_messages, Message, StreamId,
    StreamKey, StreamMaxlen, StreamRangeReply, StreamReadReply,
};
use redis_om::wire::WireValue;
use redis_om::{hash_model, json_model, stream_model};

/// The arguments of a command as texts; the place of the cursor reads `<cursor>`.
fn shown(cmd: &redis::Cmd) -> Vec<String> {
    cmd.args_iter()
        .map(|arg| match arg {
            Arg::Simple(bytes) => String::from_utf8(bytes.to_vec()).unwrap(),
            Arg::Cursor => "<cursor>".to_string(),
        })
        .collect()
}

fn entry(id: &str, value: &str) -> StreamId {
    StreamId { id: id.to_string(), value: WireValue::Data(value.as_bytes().to_vec()) }
}

fn summary(messages: &[Message]) -> Vec<(String, String, String)> {
    messages
        .iter()
        .map(|m| match m.data() {
            WireValue::Data(bytes) => {
                (m.id.clone(), m.group.clone(), String::from_utf8(bytes.clone()).unwrap())
            }
            other => panic!("{:?}", other),
        })
        .collect()
}

fn triple(id: &str, group: &str, value: &str) -> (String, String, String) {
    (id.to_string(), group.to_string(), value.to_string())
}

#[test]
fn hash_commands() {
    let data = vec![b"first_name".to_vec(), b"Joe".to_vec(), b"raw".to_vec(), vec![0xff, 0x00]];
    let save = hash_model::save("users:1", &data);
    let args: Vec<Vec<u8>> = save
        .args_iter()
        .map(|arg| match arg {
            Arg::Simple(bytes) => bytes.to_vec(),
            Arg::Cursor => panic!("no cursor"),
        })
        .collect();
    assert_eq!(
        args,
        vec![
            b"HSET".to_vec(),
            b"users:1".to_vec(),
            b"first_name".to_vec(),
            b"Joe".to_vec(),
            b"raw".to_vec(),
            vec![0xff, 0x00],
        ]
    );
    assert_eq!(shown(&hash_model::save("users:1", &vec![])), vec!["HSET", "users:1"]);
    assert_eq!(shown(&hash_model::get("users", "1")), vec!["HGETALL", "users:1"]);
    assert_eq!(shown(&hash_model::get("users", "users:1")), vec!["HGETALL", "users:1"]);
    assert_eq!(shown(&hash_model::delete("users", "1")), vec!["DEL", "users:1"]);
    assert_eq!(shown(&hash_model::delete("users", "users:1")), vec!["DEL", "users:1"]);
    let all = hash_model::all_pks("users");
    assert_eq!(shown(&all), vec!["SCAN", "<cursor>", "MATCH", "users:*"]);
    assert!(all.in_scan_mode());
    assert_eq!(
        all.get_packed_command(),
        b"*4\r\n$4\r\nSCAN\r\n$1\r\n0\r\n$5\r\nMATCH\r\n$7\r\nusers:*\r\n".to_vec()
    );
    assert_eq!(shown(&scan_keys("a")), vec!["SCAN", "<cursor>", "MATCH", "a:*"]);
    assert_eq!(shown(&expire_cmd("users:1", 3600)), vec!["EXPIRE", "users:1", "3600"]);
    assert_eq!(shown(&expire_cmd("users:1", 0)), vec!["EXPIRE", "users:1", "0"]);
}

#[test]
fn json_commands() {
    assert_eq!(
        shown(&json_model::save("users:1", "{\"id\":\"1\"}")),
        vec!["JSON.SET", "users:1", "$", "{\"id\":\"1\"}"]
    );
    assert_eq!(shown(&json_model::get("users", "1")), vec!["JSON.GET", "users:1", "$"]);
    assert_eq!(shown(&json_model::get("users", "users:1")), vec!["JSON.GET", "users:1", "$"]);
    assert_eq!(shown(&json_model::delete("users", "1")), vec!["JSON.DEL", "users:1", "$"]);
    assert_eq!(shown(&json_model::all_pks("users")), vec!["SCAN", "<cursor>", "MATCH", "users:*"]);
}

#[test]
fn stream_commands() {
    let data = vec![b"name".to_vec(), b"Joe".to_vec()];
    assert_eq!(shown(&stream_model::publish("Staff", &data)), vec!["XADD", "Staff", "*", "name", "Joe"]);
    assert_eq!(
        shown(&stream_model::ensure_group_stream("Staff", "pending")),
        vec!["XGROUP", "CREATE", "Staff", "pending", "$"]
    );
    assert_eq!(
        shown(&stream_model::read("Staff", "pending", "c1", None, None)),
        vec!["XREADGROUP", "GROUP", "pending", "c1", "STREAMS", "Staff", ">"]
    );
    assert_eq!(
        shown(&stream_model::read("Staff", "pending", "c1", Some(5), Some(250))),
        vec![
            "XREADGROUP", "BLOCK", "250", "COUNT", "5", "GROUP", "pending", "c1", "STREAMS",
            "Staff", ">",
        ]
    );
    assert_eq!(
        shown(&stream_model::read("Staff", "pending", "c1", Some(5), None)),
        vec!["XREADGROUP", "COUNT", "5", "GROUP", "pending", "c1", "STREAMS", "Staff", ">"]
    );
    let options = redis::streams::StreamReadOptions::default().group("pending", "c1").count(5).block(250);
    let mut by_client = redis::cmd("XREADGROUP");
    let streams = ["Staff"];
    let ids = [">"];
    by_client.arg(options).arg("STREAMS").arg(&streams).arg(&ids);
    assert_eq!(
        stream_model::read("Staff", "pending", "c1", Some(5), Some(250)).get_packed_command(),
        by_client.get_packed_command()
    );
    assert_eq!(
        shown(&stream_model::read_no_group("Staff", "0")),
        vec!["XREAD", "STREAMS", "Staff", "0"]
    );
    assert_eq!(
        shown(&stream_model::autoclaim("Staff", "pending", "c1", 1000, "0-0", None)),
        vec!["XAUTOCLAIM", "Staff", "pending", "c1", "1000", "0-0"]
    );
    assert_eq!(
        shown(&stream_model::autoclaim("Staff", "pending", "c1", 1000, "0-0", Some(10))),
        vec!["XAUTOCLAIM", "Staff", "pending", "c1", "1000", "0-0", "COUNT", "10"]
    );
    assert_eq!(
        shown(&stream_model::ack("Staff", "pending", &vec!["1-0".to_string(), "2-0".to_string()])),
        vec!["XACK", "Staff", "pending", "1-0", "2-0"]
    );
    assert_eq!(
        shown(&stream_model::trim("Staff", StreamMaxlen::Equals(10))),
        vec!["XTRIM", "Staff", "MAXLEN", "=", "10"]
    );
    assert_eq!(
        shown(&stream_model::trim("Staff", StreamMaxlen::Approx(1000))),
        vec!["XTRIM", "Staff", "MAXLEN", "~", "1000"]
    );
    let mut trimmed = redis::cmd("XTRIM");
    trimmed.arg("Staff").arg(redis::streams::StreamMaxlen::Approx(1000));
    assert_eq!(
        stream_model::trim("Staff", StreamMaxlen::Approx(1000)).get_packed_command(),
        trimmed.get_packed_command()
    );
    assert_eq!(shown(&stream_model::len("Staff")), vec!["XLEN", "Staff"]);
    assert_eq!(
        shown(&stream_model::range_count("Staff", "-", "+", 2)),
        vec!["XRANGE", "Staff", "-", "+", "COUNT", "2"]
    );
    assert_eq!(shown(&stream_model::range("Staff", "1-0", "+")), vec!["XRANGE", "Staff", "1-0", "+"]);
    assert_eq!(shown(&stream_model::range_all("Staff")), vec!["XREVRANGE", "Staff", "+", "-"]);
}

#[test]
fn replies_become_messages_in_order() {
    let reply = StreamReadReply {
        keys: vec![
            StreamKey { key: "a".to_string(), ids: vec![entry("1-0", "x"), entry("2-0", "y")] },
            StreamKey { key: "b".to_string(), ids: vec![] },
            StreamKey { key: "c".to_string(), ids: vec![entry("3-0", "z")] },
        ],
    };
    assert_eq!(
        summary(&stream_read_reply_to_messages("pending", reply)),
        vec![triple("1-0", "pending", "x"), triple("2-0", "pending", "y"), triple("3-0", "pending", "z")]
    );
    let reply = StreamReadReply {
        keys: vec![StreamKey { key: "a".to_string(), ids: vec![entry("1-0", "x")] }],
    };
    assert_eq!(
        summary(&stream_read_no_group_reply_to_messages(reply)),
        vec![triple("1-0", "none", "x")]
    );
    assert!(stream_read_no_group_reply_to_messages(StreamReadReply { keys: vec![] }).is_empty());
    let range = StreamRangeReply { ids: vec![entry("9-0", "n"), entry("8-0", "m")] };
    assert_eq!(
        summary(&stream_range_to_messages(range)),
        vec![triple("9-0", "none", "n"), triple("8-0", "none", "m")]
    );
    let claimed = StreamRangeReply { ids: vec![entry("4-0", "q")] };
    let (next, messages) = autoclaim_range_to_id_and_messages("pending", "5-0".to_string(), claimed);
    assert_eq!(next, "5-0");
    assert_eq!(summary(&messages), vec![triple("4-0", "pending", "q")]);
    let message = Message::new(entry("1-0", "x"), "g".to_string());
    assert_eq!(message.id, "1-0");
    assert_eq!(message.group, "g");
    assert_eq!(message.data(), &WireValue::Data(b"x".to_vec()));
}

#[test]
fn an_existing_group_is_no_failure() {
    assert!(ensure_group_stream_success(None));
    assert!(ensure_group_stream_success(Some(Some("BUSYGROUP"))));
    assert!(!ensure_group_stream_success(Some(Some("NOGROUP"))));
    assert!(!ensure_group_stream_success(Some(Some("busygroup"))));
    assert!(!ensure_group_stream_success(Some(None)));
}

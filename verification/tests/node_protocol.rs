use crakv::node::Event;
use crakv::node::OutboundMsg;
use crakv::node::Reply;
use crakv::node::Request;
use crakv::node::SimpleKVServer;
use crakv::node::Step;
use crakv::node::KEY_MISSING_CODE;
use crakv::node::VALUE_MISMATCH_CODE;
use crakv::value::Value;

fn text(s: &str) -> Value {
    Value::Text(s.to_string())
}

fn node() -> SimpleKVServer {
    let mut n = SimpleKVServer::new();
    n.init(
        vec!["node-binary".to_string()],
        "n1".to_string(),
        vec!["n1".to_string(), "c2".to_string()],
        0,
    );
    n
}

fn request(node: &mut SimpleKVServer, src: &str, request: Request) -> OutboundMsg {
    match node.step(Event::Request { src: src.to_string(), request }) {
        Step::Reply(m) => m,
        Step::Halt => panic!("a request must be replied to, not halt the node"),
        Step::Abort => panic!("a request must be replied to, not abort the node"),
    }
}

fn read(node: &mut SimpleKVServer, msg_id: u64, key: Value) -> OutboundMsg {
    request(node, "c1", Request::Read { msg_id, key })
}

fn write(node: &mut SimpleKVServer, msg_id: u64, key: Value, value: Value) -> OutboundMsg {
    request(node, "c1", Request::Write { msg_id, key, value })
}

fn cas(node: &mut SimpleKVServer, msg_id: u64, key: Value, from: Value, to: Value) -> OutboundMsg {
    request(node, "c1", Request::Cas { msg_id, key, from, to })
}

fn read_ok_value(m: &OutboundMsg) -> &Value {
    match &m.reply {
        Reply::ReadOk { value, .. } => value,
        other => panic!("expected a read acknowledgement, got {:?}", reply_kind(other)),
    }
}

fn reply_kind(r: &Reply) -> &'static str {
    match r {
        Reply::ReadOk { .. } => "read_ok",
        Reply::WriteOk { .. } => "write_ok",
        Reply::CasOk { .. } => "cas_ok",
        Reply::Error { .. } => "error",
    }
}

#[test]
fn read_never_written_key_is_null_not_error() {
    let mut n = node();
    let m = read(&mut n, 10, text("nope"));
    match &m.reply {
        Reply::ReadOk { in_reply_to, value, .. } => {
            assert_eq!(*in_reply_to, 10);
            assert!(value.equals(&Value::Null));
        },
        other => panic!("expected read_ok, got {}", reply_kind(other)),
    }
}

#[test]
fn write_then_read_returns_written_value() {
    let mut n = node();
    let w = write(&mut n, 1, text("k"), Value::List(vec![Value::Int(4), text("x")]));
    match &w.reply {
        Reply::WriteOk { in_reply_to } => assert_eq!(*in_reply_to, 1),
        other => panic!("expected write_ok, got {}", reply_kind(other)),
    }
    let r = read(&mut n, 2, text("k"));
    assert!(read_ok_value(&r).equals(&Value::List(vec![Value::Int(4), text("x")])));
}

#[test]
fn cas_absent_key_fails_with_code_20() {
    let mut n = node();
    let m = cas(&mut n, 7, text("ghost"), Value::Int(0), Value::Int(1));
    match &m.reply {
        Reply::Error { in_reply_to, code, text } => {
            assert_eq!(*in_reply_to, 7);
            assert_eq!(*code, KEY_MISSING_CODE);
            assert_eq!(*code, 20);
            assert_eq!(text, "Key does not exist");
        },
        other => panic!("expected error, got {}", reply_kind(other)),
    }
    let r = read(&mut n, 8, text("ghost"));
    assert!(read_ok_value(&r).equals(&Value::Null));
}

#[test]
fn cas_mismatch_fails_with_code_22_and_keeps_value() {
    let mut n = node();
    write(&mut n, 1, text("k"), Value::Int(5));
    let m = cas(&mut n, 2, text("k"), Value::Int(4), Value::Int(9));
    match &m.reply {
        Reply::Error { in_reply_to, code, text } => {
            assert_eq!(*in_reply_to, 2);
            assert_eq!(*code, VALUE_MISMATCH_CODE);
            assert_eq!(*code, 22);
            assert_eq!(text, "Value does not match");
        },
        other => panic!("expected error, got {}", reply_kind(other)),
    }
    let r = read(&mut n, 3, text("k"));
    assert!(read_ok_value(&r).equals(&Value::Int(5)));
}

#[test]
fn raced_cas_applies_exactly_once() {
    let mut n = node();
    write(&mut n, 1, text("k"), Value::Int(1));
    let first = cas(&mut n, 2, text("k"), Value::Int(1), Value::Int(2));
    let second = cas(&mut n, 3, text("k"), Value::Int(1), Value::Int(3));
    match &first.reply {
        Reply::CasOk { in_reply_to, .. } => assert_eq!(*in_reply_to, 2),
        other => panic!("expected cas_ok, got {}", reply_kind(other)),
    }
    match &second.reply {
        Reply::Error { in_reply_to, code, .. } => {
            assert_eq!(*in_reply_to, 3);
            assert_eq!(*code, 22);
        },
        other => panic!("expected error, got {}", reply_kind(other)),
    }
    let r = read(&mut n, 4, text("k"));
    assert!(read_ok_value(&r).equals(&Value::Int(2)));
}

#[test]
fn scenario_write_read_cas_cas_read_cas() {
    let mut n = node();
    write(&mut n, 1, text("x"), Value::Int(1));
    let r1 = read(&mut n, 2, text("x"));
    assert!(read_ok_value(&r1).equals(&Value::Int(1)));
    let c1 = cas(&mut n, 3, text("x"), Value::Int(1), Value::Int(2));
    assert!(matches!(&c1.reply, Reply::CasOk { .. }));
    let c2 = cas(&mut n, 4, text("x"), Value::Int(1), Value::Int(3));
    match &c2.reply {
        Reply::Error { code, .. } => assert_eq!(*code, 22),
        other => panic!("expected error, got {}", reply_kind(other)),
    }
    let r2 = read(&mut n, 5, text("x"));
    assert!(read_ok_value(&r2).equals(&Value::Int(2)));
    let c3 = cas(&mut n, 6, text("y"), Value::Int(0), Value::Int(1));
    match &c3.reply {
        Reply::Error { code, .. } => assert_eq!(*code, 20),
        other => panic!("expected error, got {}", reply_kind(other)),
    }
}

#[test]
fn replies_are_addressed_from_node_to_requester() {
    let mut n = node();
    let m = request(&mut n, "c9", Request::Read { msg_id: 1, key: text("k") });
    assert_eq!(m.src, "n1");
    assert_eq!(m.dest, "c9");
    let m2 = request(&mut n, "c7", Request::Write { msg_id: 2, key: text("k"), value: Value::Int(1) });
    assert_eq!(m2.src, "n1");
    assert_eq!(m2.dest, "c7");
}

#[test]
fn assigned_message_ids_strictly_increase() {
    let mut n = node();
    let r1 = read(&mut n, 1, text("a"));
    // An acknowledged write carries no fresh identifier and must not consume one.
    write(&mut n, 2, text("a"), Value::Int(1));
    let r2 = read(&mut n, 3, text("a"));
    let c1 = cas(&mut n, 4, text("a"), Value::Int(1), Value::Int(2));
    let r3 = read(&mut n, 5, text("a"));
    let id1 = match &r1.reply {
        Reply::ReadOk { msg_id, .. } => *msg_id,
        other => panic!("expected read_ok, got {}", reply_kind(other)),
    };
    let id2 = match &r2.reply {
        Reply::ReadOk { msg_id, .. } => *msg_id,
        other => panic!("expected read_ok, got {}", reply_kind(other)),
    };
    let id3 = match &c1.reply {
        Reply::CasOk { msg_id, .. } => *msg_id,
        other => panic!("expected cas_ok, got {}", reply_kind(other)),
    };
    let id4 = match &r3.reply {
        Reply::ReadOk { msg_id, .. } => *msg_id,
        other => panic!("expected read_ok, got {}", reply_kind(other)),
    };
    assert_eq!(id1, 0);
    assert_eq!(id2, 1);
    assert_eq!(id3, 2);
    assert_eq!(id4, 3);
    assert!(id1 < id2 && id2 < id3 && id3 < id4);
}

#[test]
fn init_sets_starting_message_id() {
    let mut n = SimpleKVServer::new();
    n.init(Vec::new(), "n2".to_string(), vec!["n2".to_string()], 40);
    let m = match n.step(Event::Request {
        src: "c1".to_string(),
        request: Request::Read { msg_id: 1, key: text("k") },
    }) {
        Step::Reply(m) => m,
        _ => panic!("a request must be replied to"),
    };
    match &m.reply {
        Reply::ReadOk { msg_id, .. } => assert_eq!(*msg_id, 40),
        other => panic!("expected read_ok, got {}", reply_kind(other)),
    }
    assert_eq!(m.src, "n2");
}

#[test]
fn written_null_reads_back_as_null() {
    let mut n = node();
    write(&mut n, 1, text("k"), Value::Null);
    let r = read(&mut n, 2, text("k"));
    assert!(read_ok_value(&r).equals(&Value::Null));
}

#[test]
fn bus_closure_halts_cleanly_without_reply() {
    let mut n = node();
    write(&mut n, 1, text("k"), Value::Int(1));
    let s = n.step(Event::Closed);
    assert!(matches!(s, Step::Halt));
}

#[test]
fn unrecognized_message_aborts_without_reply() {
    let mut n = node();
    write(&mut n, 1, text("k"), Value::Int(1));
    let s = n.step(Event::Unknown);
    assert!(matches!(s, Step::Abort));
}

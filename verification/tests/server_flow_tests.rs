//! End-to-end flows through the wire codec, the dispatcher and the engine,
//! with a simulated clock.

use bytes::BytesMut;
use hybridkv::dispatch::dispatch;
use hybridkv::engine::{KVEngine, MemoryEngine};
use hybridkv::resp::RespParser;

fn run(engine: &mut MemoryEngine, wire: &str, now_ms: u64) -> Vec<u8> {
    let mut parser = RespParser::new();
    let mut buf = BytesMut::from(wire);
    let args = parser.parse(&mut buf).unwrap().unwrap();
    assert_eq!(buf.len(), 0, "frame not fully consumed");
    dispatch(engine, &args, now_ms, 0, 0)
}

#[test]
fn get_on_empty_store_is_nil() {
    let mut engine = MemoryEngine::new();
    let reply = run(&mut engine, "*2\r\n$3\r\nGET\r\n$3\r\nfoo\r\n", 0);
    assert_eq!(reply, b"$-1\r\n".to_vec());
}

#[test]
fn set_then_get_returns_value() {
    let mut engine = MemoryEngine::new();
    let reply = run(&mut engine, "*3\r\n$3\r\nSET\r\n$3\r\nfoo\r\n$3\r\nbar\r\n", 0);
    assert_eq!(reply, b"+OK\r\n".to_vec());
    let reply = run(&mut engine, "*2\r\n$3\r\nGET\r\n$3\r\nfoo\r\n", 0);
    assert_eq!(reply, b"$3\r\nbar\r\n".to_vec());
}

#[test]
fn expire_then_get_after_deadline() {
    let mut engine = MemoryEngine::new();
    run(&mut engine, "*3\r\n$3\r\nSET\r\n$3\r\nfoo\r\n$3\r\nbar\r\n", 0);
    let reply = run(&mut engine, "*3\r\n$6\r\nEXPIRE\r\n$3\r\nfoo\r\n$1\r\n1\r\n", 0);
    assert_eq!(reply, b":1\r\n".to_vec());

    // 1100 ms later the entry is past its 1-second deadline.
    let reply = run(&mut engine, "*2\r\n$3\r\nGET\r\n$3\r\nfoo\r\n", 1_100);
    assert_eq!(reply, b"$-1\r\n".to_vec());
    let reply = run(&mut engine, "*2\r\n$3\r\nTTL\r\n$3\r\nfoo\r\n", 1_100);
    assert_eq!(reply, b":-2\r\n".to_vec());
}

#[test]
fn del_on_absent_key_is_zero() {
    let mut engine = MemoryEngine::new();
    let reply = run(&mut engine, "*2\r\n$3\r\nDEL\r\n$3\r\nfoo\r\n", 0);
    assert_eq!(reply, b":0\r\n".to_vec());
}

#[test]
fn ping_and_case_insensitive_commands() {
    let mut engine = MemoryEngine::new();
    let reply = run(&mut engine, "*1\r\n$4\r\nPING\r\n", 0);
    assert_eq!(reply, b"+PONG\r\n".to_vec());
    let reply = run(&mut engine, "*1\r\n$4\r\nping\r\n", 0);
    assert_eq!(reply, b"+PONG\r\n".to_vec());
    let reply = run(&mut engine, "*3\r\n$3\r\nsEt\r\n$1\r\nk\r\n$1\r\nv\r\n", 0);
    assert_eq!(reply, b"+OK\r\n".to_vec());
    let reply = run(&mut engine, "*2\r\n$3\r\nget\r\n$1\r\nk\r\n", 0);
    assert_eq!(reply, b"$1\r\nv\r\n".to_vec());
}

#[test]
fn ttl_replies() {
    let mut engine = MemoryEngine::new();
    run(&mut engine, "*3\r\n$3\r\nSET\r\n$1\r\nk\r\n$1\r\nv\r\n", 0);
    let reply = run(&mut engine, "*2\r\n$3\r\nTTL\r\n$1\r\nk\r\n", 0);
    assert_eq!(reply, b":-1\r\n".to_vec());
    let reply = run(&mut engine, "*3\r\n$6\r\nEXPIRE\r\n$1\r\nk\r\n$2\r\n10\r\n", 0);
    assert_eq!(reply, b":1\r\n".to_vec());
    // 400 ms in: 9600 ms remain, which rounds up to 10 whole seconds.
    let reply = run(&mut engine, "*2\r\n$3\r\nTTL\r\n$1\r\nk\r\n", 400);
    assert_eq!(reply, b":10\r\n".to_vec());
    // Expire on a missing key answers 0.
    let reply = run(&mut engine, "*3\r\n$6\r\nEXPIRE\r\n$1\r\nx\r\n$1\r\n5\r\n", 0);
    assert_eq!(reply, b":0\r\n".to_vec());
}

#[test]
fn info_names_the_engine() {
    let mut engine = MemoryEngine::new();
    let mut parser = RespParser::new();
    let mut buf = BytesMut::from("*1\r\n$4\r\nINFO\r\n");
    let args = parser.parse(&mut buf).unwrap().unwrap();
    let reply = dispatch(&mut engine, &args, 0, 42, 7);
    let text = String::from_utf8_lossy(&reply).to_string();
    assert!(text.contains("engine:hybridkv"));
    assert!(text.contains("requests_total:42"));
    assert!(text.contains("errors_total:7"));
}

#[test]
fn dispatcher_error_replies() {
    let mut engine = MemoryEngine::new();
    let reply = run(&mut engine, "*1\r\n$5\r\nFLUSH\r\n", 0);
    assert_eq!(reply, b"-ERR unsupported command\r\n".to_vec());
    // Wrong arity for a known command.
    let reply = run(&mut engine, "*2\r\n$3\r\nSET\r\n$1\r\nk\r\n", 0);
    assert_eq!(reply, b"-ERR invalid input\r\n".to_vec());
    // Invalid seconds.
    let reply = run(&mut engine, "*3\r\n$6\r\nEXPIRE\r\n$1\r\nk\r\n$2\r\n1x\r\n", 0);
    assert_eq!(reply, b"-ERR invalid input\r\n".to_vec());
    // Oversized key via the wire path.
    let mut wire = format!("*3\r\n$3\r\nSET\r\n${}\r\n", 257);
    wire.push_str(&"a".repeat(257));
    wire.push_str("\r\n$1\r\nv\r\n");
    let reply = run(&mut engine, &wire, 0);
    assert_eq!(reply, b"-ERR key too long\r\n".to_vec());
}

#[test]
fn expire_zero_seconds_expires_at_once() {
    let mut engine = MemoryEngine::new();
    run(&mut engine, "*3\r\n$3\r\nSET\r\n$1\r\nk\r\n$1\r\nv\r\n", 5);
    // The key exists, so EXPIRE answers 1; the deadline equals "now", so the
    // very next access already sees the key gone.
    let reply = run(&mut engine, "*3\r\n$6\r\nEXPIRE\r\n$1\r\nk\r\n$1\r\n0\r\n", 5);
    assert_eq!(reply, b":1\r\n".to_vec());
    let reply = run(&mut engine, "*2\r\n$3\r\nGET\r\n$1\r\nk\r\n", 5);
    assert_eq!(reply, b"$-1\r\n".to_vec());
}

#[test]
fn set_replaces_wholesale() {
    let mut engine = MemoryEngine::new();
    run(&mut engine, "*3\r\n$3\r\nSET\r\n$1\r\nk\r\n$3\r\naaa\r\n", 0);
    run(&mut engine, "*3\r\n$3\r\nSET\r\n$1\r\nk\r\n$5\r\nbbbbb\r\n", 0);
    // The read sees the second write in full, never a mixture.
    let reply = run(&mut engine, "*2\r\n$3\r\nGET\r\n$1\r\nk\r\n", 0);
    assert_eq!(reply, b"$5\r\nbbbbb\r\n".to_vec());
}

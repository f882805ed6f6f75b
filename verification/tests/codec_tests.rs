use bytes::BytesMut;
use hybridkv::resp::{
    encode_bulk, encode_error, encode_integer, encode_nil, encode_simple, format_u64, parse_usize,
    RespParser,
};

#[test]
fn parses_simple_get() {
    let mut buf = BytesMut::from("*2\r\n$3\r\nGET\r\n$3\r\nkey\r\n");
    let mut parser = RespParser::new();
    let cmd = parser.parse(&mut buf).unwrap().unwrap();
    assert_eq!(cmd.len(), 2);
    assert_eq!(cmd[0], b"GET");
    assert_eq!(cmd[1], b"key");
}

#[test]
fn handles_partial_frames() {
    let mut buf = BytesMut::from("*1\r\n$4\r\nPIN");
    let mut parser = RespParser::new();
    assert!(parser.parse(&mut buf).unwrap().is_none());
    buf.extend_from_slice(b"G\r\n");
    let cmd = parser.parse(&mut buf).unwrap().unwrap();
    assert_eq!(cmd[0], b"PING");
}

#[test]
fn empty_array_is_empty_command() {
    let mut buf = BytesMut::from("*0\r\n");
    let mut parser = RespParser::new();
    let cmd = parser.parse(&mut buf).unwrap().unwrap();
    assert!(cmd.is_empty());
    assert_eq!(buf.len(), 0);
}

#[test]
fn split_at_every_boundary_decodes_identically() {
    let frame: &[u8] = b"*3\r\n$3\r\nSET\r\n$3\r\nfoo\r\n$3\r\nbar\r\n";

    let mut whole = BytesMut::from(frame);
    let mut parser = RespParser::new();
    let expected = parser.parse(&mut whole).unwrap().unwrap();

    for i in 0..=frame.len() {
        let mut parser = RespParser::new();
        let mut buf = BytesMut::from(&frame[..i]);
        let first = parser.parse(&mut buf).unwrap();
        let got = match first {
            Some(cmd) => {
                assert_eq!(i, frame.len());
                cmd
            }
            None => {
                buf.extend_from_slice(&frame[i..]);
                parser.parse(&mut buf).unwrap().unwrap()
            }
        };
        assert_eq!(got, expected, "split at {} diverged", i);
    }
}

#[test]
fn binary_safe_payloads() {
    let mut buf = BytesMut::from(&b"*1\r\n$4\r\n\x00\xff\r\n\r\n"[..]);
    let mut parser = RespParser::new();
    let cmd = parser.parse(&mut buf).unwrap().unwrap();
    assert_eq!(cmd[0], vec![0u8, 255, 13, 10]);
}

#[test]
fn bad_leading_byte_is_protocol_error() {
    let mut buf = BytesMut::from("PING\r\n");
    let mut parser = RespParser::new();
    assert!(parser.parse(&mut buf).is_err());

    let mut buf = BytesMut::from("*1\r\n#3\r\nfoo\r\n");
    let mut parser = RespParser::new();
    assert!(parser.parse(&mut buf).is_err());
}

#[test]
fn bad_count_is_protocol_error() {
    let mut buf = BytesMut::from("*x\r\n");
    let mut parser = RespParser::new();
    assert!(parser.parse(&mut buf).is_err());

    let mut buf = BytesMut::from("*\r\n");
    let mut parser = RespParser::new();
    assert!(parser.parse(&mut buf).is_err());
}

#[test]
fn bad_bulk_terminator_is_protocol_error() {
    let mut buf = BytesMut::from("*1\r\n$3\r\nfooXX");
    let mut parser = RespParser::new();
    assert!(parser.parse(&mut buf).is_err());
}

#[test]
fn two_frames_back_to_back() {
    let mut buf = BytesMut::from("*1\r\n$4\r\nPING\r\n*1\r\n$4\r\nINFO\r\n");
    let mut parser = RespParser::new();
    let first = parser.parse(&mut buf).unwrap().unwrap();
    assert_eq!(first[0], b"PING");
    let second = parser.parse(&mut buf).unwrap().unwrap();
    assert_eq!(second[0], b"INFO");
    assert!(parser.parse(&mut buf).unwrap().is_none());
}

#[test]
fn parse_usize_accepts_digits_only() {
    assert_eq!(parse_usize(b"0"), Ok(0));
    assert_eq!(parse_usize(b"1024"), Ok(1024));
    assert!(parse_usize(b"").is_err());
    assert!(parse_usize(b"12a").is_err());
    assert!(parse_usize(b"-1").is_err());
    // Overflow saturates instead of panicking.
    assert_eq!(parse_usize(b"99999999999999999999999999"), Ok(usize::MAX));
}

#[test]
fn encoders_produce_exact_wire_bytes() {
    assert_eq!(encode_simple(b"OK"), b"+OK\r\n".to_vec());
    assert_eq!(encode_simple(b"PONG"), b"+PONG\r\n".to_vec());
    assert_eq!(encode_bulk(b"bar"), b"$3\r\nbar\r\n".to_vec());
    assert_eq!(encode_bulk(b""), b"$0\r\n\r\n".to_vec());
    assert_eq!(encode_nil(), b"$-1\r\n".to_vec());
    assert_eq!(encode_integer(1), b":1\r\n".to_vec());
    assert_eq!(encode_integer(0), b":0\r\n".to_vec());
    assert_eq!(encode_integer(-2), b":-2\r\n".to_vec());
    assert_eq!(encode_integer(i64::MIN), b":-9223372036854775808\r\n".to_vec());
    assert_eq!(encode_error(b"not found"), b"-ERR not found\r\n".to_vec());
    assert_eq!(format_u64(0), b"0".to_vec());
    assert_eq!(format_u64(18446744073709551615), b"18446744073709551615".to_vec());
}

use hybridkv::error::HkvError;
use hybridkv::tiering::{
    promote_entry, IoctlHeader, PromoteRequest, PromoteResponse, ReadRequest, ReadResponse,
    PROTOCOL_VERSION, STATUS_OK,
};
use hybridkv::types::{IoctlCommand, Key, Ttl, Value, Version, IOCTL_MAGIC};

#[test]
fn test_ioctl_header_new() {
    let header = IoctlHeader::new(IoctlCommand::Read);
    assert_eq!(header.magic, IOCTL_MAGIC);
    assert_eq!(header.version, PROTOCOL_VERSION);
    assert_eq!(header.command, IoctlCommand::Read.as_u8());
    assert_eq!(header.reserved, 0);
}

#[test]
fn test_ioctl_header_size() {
    assert_eq!(std::mem::size_of::<IoctlHeader>(), 4);
}

#[test]
fn test_read_request_new() {
    let key = Key::new(b"alpha").unwrap();
    let request = ReadRequest::new(key.clone());
    assert_eq!(request.header, IoctlHeader::new(IoctlCommand::Read));
    assert_eq!(request.key, key);
}

#[test]
fn test_read_response_new() {
    let value = Value::new(b"beta").unwrap();
    let response = ReadResponse::new(STATUS_OK, value.clone());
    assert_eq!(response.header, IoctlHeader::new(IoctlCommand::Read));
    assert_eq!(response.status, STATUS_OK);
    assert_eq!(response.value, value);
}

#[test]
fn test_read_struct_sizes() {
    assert_eq!(std::mem::size_of::<ReadRequest>(), 262);
    assert_eq!(std::mem::size_of::<ReadResponse>(), 1032);
}

#[test]
fn test_promote_request_new() {
    let key = Key::new(b"alpha").unwrap();
    let value = Value::new(b"beta").unwrap();
    let request = PromoteRequest::new(key.clone(), value.clone(), Version::zero(), Ttl::infinite());
    assert_eq!(request.header, IoctlHeader::new(IoctlCommand::Promote));
    assert_eq!(request.key, key);
    assert_eq!(request.value, value);
    assert_eq!(request.version, Version::zero());
    assert_eq!(request.ttl, Ttl::infinite());
}

#[test]
fn test_promote_response_new() {
    let response = PromoteResponse::new(STATUS_OK);
    assert_eq!(response.header, IoctlHeader::new(IoctlCommand::Promote));
    assert_eq!(response.status, STATUS_OK);
    assert_eq!(response.reserved, 0);
}

#[test]
fn test_promote_struct_sizes() {
    assert_eq!(std::mem::size_of::<PromoteRequest>(), 1304);
    assert_eq!(std::mem::size_of::<PromoteResponse>(), 8);
}

#[test]
fn wrong_magic_is_protocol_violation() {
    let mut header = IoctlHeader::new(IoctlCommand::Read);
    header.magic = header.magic.wrapping_add(1);
    assert_eq!(header.validate(), Err(HkvError::ProtocolViolation));

    let value = Value::new(b"beta").unwrap();
    let mut response = ReadResponse::new(STATUS_OK, value);
    response.header.magic = response.header.magic.wrapping_add(1);
    assert_eq!(response.into_value(), Err(HkvError::ProtocolViolation));
}

#[test]
fn wrong_version_is_version_mismatch() {
    let mut header = IoctlHeader::new(IoctlCommand::Promote);
    header.version = header.version.wrapping_add(1);
    assert_eq!(header.validate(), Err(HkvError::VersionMismatch));

    let mut response = PromoteResponse::new(STATUS_OK);
    response.header.version = response.header.version.wrapping_add(1);
    assert_eq!(response.into_result(), Err(HkvError::VersionMismatch));
}

#[test]
fn valid_response_hands_value_back() {
    let value = Value::new(b"beta").unwrap();
    let response = ReadResponse::new(STATUS_OK, value.clone());
    assert_eq!(response.into_value(), Ok(value));

    let failed = ReadResponse::new(HkvError::NotFound.code(), Value::new(b"").unwrap());
    assert_eq!(failed.into_value(), Err(HkvError::NotFound));

    assert_eq!(PromoteResponse::new(STATUS_OK).into_result(), Ok(()));
    assert_eq!(
        PromoteResponse::new(HkvError::Busy.code()).into_result(),
        Err(HkvError::Busy)
    );
}

#[test]
fn key_and_value_capacities() {
    assert!(Key::new(&[7u8; 256]).is_ok());
    assert_eq!(Key::new(&[7u8; 257]).unwrap_err(), HkvError::KeyTooLong);
    assert!(Value::new(&[9u8; 1024]).is_ok());
    assert_eq!(Value::new(&[9u8; 1025]).unwrap_err(), HkvError::ValueTooLong);
    assert_eq!(Key::new(b"alpha").unwrap().to_vec(), b"alpha".to_vec());
    assert_eq!(Value::new(b"beta").unwrap().to_vec(), b"beta".to_vec());
    assert_eq!(Key::new(b"alpha").unwrap().byte_len(), 5);
    assert_eq!(Value::new(b"beta").unwrap().byte_len(), 4);
}

#[test]
fn promote_entry_builds_the_record() {
    let req = promote_entry(b"alpha", b"beta", Version::zero(), Ttl::infinite()).unwrap();
    assert_eq!(req.header, IoctlHeader::new(IoctlCommand::Promote));
    assert_eq!(req.key, Key::new(b"alpha").unwrap());
    assert_eq!(req.value, Value::new(b"beta").unwrap());
    assert_eq!(
        promote_entry(&[0u8; 257], b"", Version::zero(), Ttl::infinite()).unwrap_err(),
        HkvError::KeyTooLong
    );
    assert_eq!(
        promote_entry(b"k", &[0u8; 1025], Version::zero(), Ttl::infinite()).unwrap_err(),
        HkvError::ValueTooLong
    );
}

#[test]
fn request_wire_forms_are_byte_exact() {
    let req = ReadRequest::new(Key::new(b"k").unwrap());
    let bytes = req.to_bytes();
    assert_eq!(bytes.len(), 262);
    assert_eq!(bytes[0], IOCTL_MAGIC);
    assert_eq!(bytes[1], PROTOCOL_VERSION);
    assert_eq!(bytes[2], IoctlCommand::Read.as_u8());
    assert_eq!(bytes[3], 0);
    assert_eq!(&bytes[4..6], &[1, 0]); // key length, little endian
    assert_eq!(bytes[6], b'k');
    assert!(bytes[7..].iter().all(|&b| b == 0)); // zeroed padding

    let preq = PromoteRequest::new(
        Key::new(b"k").unwrap(),
        Value::new(b"vv").unwrap(),
        Version { raw: 513 },
        Ttl { ms: 7 },
    );
    let bytes = preq.to_bytes();
    assert_eq!(bytes.len(), 1304);
    assert_eq!(bytes[2], IoctlCommand::Promote.as_u8());
    assert_eq!(&bytes[262..264], &[2, 0]); // value length, little endian
    assert_eq!(&bytes[264..266], b"vv");
    assert_eq!(&bytes[1288..1296], &[1, 2, 0, 0, 0, 0, 0, 0]); // version 513
    assert_eq!(&bytes[1296..1304], &[7, 0, 0, 0, 0, 0, 0, 0]); // deadline 7
}

#[test]
fn response_wire_forms_parse_back() {
    let mut bytes = vec![IOCTL_MAGIC, PROTOCOL_VERSION, 1, 0, 0, 0, 4, 0];
    bytes.extend_from_slice(b"beta");
    bytes.resize(1032, 0);
    let resp = ReadResponse::from_bytes(&bytes).unwrap();
    assert_eq!(resp.status, STATUS_OK);
    assert_eq!(resp.into_value(), Ok(Value::new(b"beta").unwrap()));

    // A value length over the capacity is rejected before interpretation.
    bytes[6] = 1;
    bytes[7] = 4; // 1025
    assert_eq!(
        ReadResponse::from_bytes(&bytes).unwrap_err(),
        HkvError::ProtocolViolation
    );
    // So is a buffer of the wrong size.
    assert_eq!(
        ReadResponse::from_bytes(&bytes[..100]).unwrap_err(),
        HkvError::ProtocolViolation
    );

    let promote = PromoteResponse::from_bytes(&[IOCTL_MAGIC, PROTOCOL_VERSION, 2, 0, 20, 0, 0, 0])
        .unwrap();
    assert_eq!(promote.status, 20);
    assert_eq!(promote.into_result(), Err(HkvError::Busy));
}

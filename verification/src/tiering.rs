//! Fixed binary records exchanged with the external kernel-resident cache
//! tier.
//!
//! Every record opens with a four-byte [`IoctlHeader`]; a receiver must
//! validate the header's magic and protocol version before it interprets
//! anything after it.  Reserved fields are kept zero so no stray bytes cross
//! the boundary.

use vstd::prelude::*;

use crate::error::HkvError;
use crate::types::{IoctlCommand, Key, Ttl, Value, Version, IOCTL_MAGIC};

verus! {

/// Protocol version for user/kernel ABI compatibility.
pub const PROTOCOL_VERSION: u8 = 1;

/// Status code indicating success in ioctl responses.
pub const STATUS_OK: u16 = 0;

/// Common header prepended to ioctl request/response payloads.
#[derive(Debug, Clone, Copy, PartialEq, Eq, Structural, Hash)]
pub struct IoctlHeader {
    /// Magic number to validate the device protocol.
    pub magic: u8,
    /// Protocol version for ABI checks.
    pub version: u8,
    /// Command number describing the request.
    pub command: u8,
    /// Reserved for alignment and future flags; must be zero.
    pub reserved: u8,
}

impl IoctlHeader {
    /// A header stamped with the compiled-in magic and protocol version.
    pub open spec fn spec_new(command: IoctlCommand) -> IoctlHeader {
        IoctlHeader {
            magic: IOCTL_MAGIC,
            version: PROTOCOL_VERSION,
            command: crate::types::spec_command_code(command),
            reserved: 0,
        }
    }

    /// The header carries the compiled-in magic and version.
    pub open spec fn valid(&self) -> bool {
        self.magic == IOCTL_MAGIC && self.version == PROTOCOL_VERSION
    }

    /// Builds a header for the provided ioctl command.
    pub fn new(command: IoctlCommand) -> (r: IoctlHeader)
        ensures
            r == IoctlHeader::spec_new(command),
            r.valid(),
    {
        IoctlHeader { magic: IOCTL_MAGIC, version: PROTOCOL_VERSION, command: command.as_u8(), reserved: 0 }
    }

    /// Checks magic and protocol version before any payload is interpreted.
    ///
    /// Returns `Ok` exactly when both match the compiled-in constants; a
    /// wrong magic is a protocol violation, a right magic with a wrong
    /// version is a version mismatch.
    pub fn validate(&self) -> (r: Result<(), HkvError>)
        ensures
            r is Ok <==> self.valid(),
            self.magic != IOCTL_MAGIC ==> r == Err::<(), HkvError>(HkvError::ProtocolViolation),
            self.magic == IOCTL_MAGIC && self.version != PROTOCOL_VERSION ==> r == Err::<
                (),
                HkvError,
            >(HkvError::VersionMismatch),
    {
        if self.magic != IOCTL_MAGIC {
            Err(HkvError::ProtocolViolation)
        } else if self.version != PROTOCOL_VERSION {
            Err(HkvError::VersionMismatch)
        } else {
            Ok(())
        }
    }
}

/// Read request payload for a cache lookup in the external tier.
#[derive(Debug, Clone, Copy)]
pub struct ReadRequest {
    /// Common ioctl header (command must be READ).
    pub header: IoctlHeader,
    /// Lookup key (length-prefixed, fixed-capacity buffer).
    pub key: Key,
}

impl ReadRequest {
    /// Builds a read request for the provided key.
    pub fn new(key: Key) -> (r: ReadRequest)
        ensures
            r.header == IoctlHeader::spec_new(IoctlCommand::Read),
            r.key == key,
    {
        ReadRequest { header: IoctlHeader::new(IoctlCommand::Read), key }
    }
}

/// Read response payload for a cache lookup.
///
/// The `value` buffer is meaningful only when `status` is `STATUS_OK`.
#[derive(Debug, Clone, Copy)]
pub struct ReadResponse {
    /// Common ioctl header (command must be READ).
    pub header: IoctlHeader,
    /// Status code (0 on success, error code on failure).
    pub status: u16,
    /// Value buffer (length-prefixed, fixed-capacity buffer).
    pub value: Value,
}

impl ReadResponse {
    /// Builds a read response with an explicit status and value.
    pub fn new(status: u16, value: Value) -> (r: ReadResponse)
        ensures
            r.header == IoctlHeader::spec_new(IoctlCommand::Read),
            r.status == status,
            r.value == value,
    {
        ReadResponse { header: IoctlHeader::new(IoctlCommand::Read), status, value }
    }

    /// Extracts the value of a response, validating the header first.
    ///
    /// A response whose header fails validation is rejected with the
    /// corresponding protocol error and its payload is never interpreted; a
    /// valid header with a nonzero status maps the status back to its typed
    /// error (or `InternalError` for an unknown code).
    pub fn into_value(self) -> (r: Result<Value, HkvError>)
        ensures
            self.header.valid() && self.status == STATUS_OK ==> r == Ok::<Value, HkvError>(
                self.value,
            ),
            !self.header.valid() ==> r is Err && (r matches Err(e) ==> crate::error::spec_category(
                e,
            ) is Protocol),
            self.header.valid() && self.status != STATUS_OK ==> (r matches Err(e) && (
            crate::error::spec_code(e) == self.status || e == HkvError::InternalError)),
    {
        match self.header.validate() {
            Err(e) => Err(e),
            Ok(()) => {
                if self.status == STATUS_OK {
                    Ok(self.value)
                } else {
                    match HkvError::from_code(self.status) {
                        Some(e) => Err(e),
                        None => Err(HkvError::InternalError),
                    }
                }
            },
        }
    }
}

/// Promote request payload for admitting one entry into the kernel tier.
#[derive(Debug, Clone, Copy)]
pub struct PromoteRequest {
    /// Common ioctl header (command must be PROMOTE).
    pub header: IoctlHeader,
    /// Entry key to insert.
    pub key: Key,
    /// Entry value to insert.
    pub value: Value,
    /// Version to associate with the entry.
    pub version: Version,
    /// Absolute expiration timestamp for the entry.
    pub ttl: Ttl,
}

impl PromoteRequest {
    /// Builds a promote request for the provided entry data.
    pub fn new(key: Key, value: Value, version: Version, ttl: Ttl) -> (r: PromoteRequest)
        ensures
            r.header == IoctlHeader::spec_new(IoctlCommand::Promote),
            r.key == key,
            r.value == value,
            r.version == version,
            r.ttl == ttl,
    {
        PromoteRequest { header: IoctlHeader::new(IoctlCommand::Promote), key, value, version, ttl }
    }
}

/// Promote response payload indicating success or failure.
#[derive(Debug, Clone, Copy, PartialEq, Eq, Structural, Hash)]
pub struct PromoteResponse {
    /// Common ioctl header (command must be PROMOTE).
    pub header: IoctlHeader,
    /// Status code (0 on success, error code on failure).
    pub status: u16,
    /// Reserved for future flags; must be zero.
    pub reserved: u16,
}

impl PromoteResponse {
    /// Builds a promote response with an explicit status.
    pub fn new(status: u16) -> (r: PromoteResponse)
        ensures
            r.header == IoctlHeader::spec_new(IoctlCommand::Promote),
            r.status == status,
            r.reserved == 0,
    {
        PromoteResponse { header: IoctlHeader::new(IoctlCommand::Promote), status, reserved: 0 }
    }

    /// Checks the outcome of a promotion, validating the header first.
    ///
    /// A response whose header fails validation is rejected with the
    /// corresponding protocol error; a valid header with a nonzero status
    /// maps the status back to its typed error.
    pub fn into_result(self) -> (r: Result<(), HkvError>)
        ensures
            self.header.valid() && self.status == STATUS_OK ==> r == Ok::<(), HkvError>(()),
            !self.header.valid() ==> r is Err && (r matches Err(e) ==> crate::error::spec_category(
                e,
            ) is Protocol),
            self.header.valid() && self.status != STATUS_OK ==> (r matches Err(e) && (
            crate::error::spec_code(e) == self.status || e == HkvError::InternalError)),
    {
        match self.header.validate() {
            Err(e) => Err(e),
            Ok(()) => {
                if self.status == STATUS_OK {
                    Ok(())
                } else {
                    match HkvError::from_code(self.status) {
                        Some(e) => Err(e),
                        None => Err(HkvError::InternalError),
                    }
                }
            },
        }
    }
}


/// Builds a promote request straight from the engine's byte values: the
/// promotion path of the store.
///
/// Succeeds exactly when the key and value fit their fixed capacities; the
/// record then carries those bytes, the version and the deadline under a
/// valid header.
pub fn promote_entry(key: &[u8], value: &[u8], version: Version, ttl: Ttl) -> (r: Result<
    PromoteRequest,
    HkvError,
>)
    ensures
        key@.len() > crate::types::MAX_KEY_SIZE ==> r == Err::<PromoteRequest, HkvError>(
            HkvError::KeyTooLong,
        ),
        key@.len() <= crate::types::MAX_KEY_SIZE && value@.len() > crate::types::MAX_VALUE_SIZE
            ==> r == Err::<PromoteRequest, HkvError>(HkvError::ValueTooLong),
        key@.len() <= crate::types::MAX_KEY_SIZE && value@.len() <= crate::types::MAX_VALUE_SIZE
            ==> (r matches Ok(p) && p.header == IoctlHeader::spec_new(IoctlCommand::Promote)
            && p.key@ == key@ && p.value@ == value@ && p.version == version && p.ttl == ttl),
{
    let k = Key::new(key)?;
    let v = Value::new(value)?;
    Ok(PromoteRequest::new(k, v, version, ttl))
}


/// The little-endian bytes of a number, lowest byte first.
pub open spec fn le_bytes(n: nat, count: nat) -> Seq<u8>
    decreases count,
{
    if count == 0 {
        Seq::empty()
    } else {
        seq![(n % 256) as u8] + le_bytes(n / 256, (count - 1) as nat)
    }
}

/// The wire form of a key buffer: two length bytes, then the full data
/// array, zero padding included.
pub open spec fn key_wire(k: Key) -> Seq<u8> {
    le_bytes(k.len as nat, 2) + k.data@
}

/// The wire form of a value buffer: two length bytes, then the full data
/// array, zero padding included.
pub open spec fn value_wire(v: Value) -> Seq<u8> {
    le_bytes(v.len as nat, 2) + v.data@
}

/// The wire form of a header: its four bytes in order.
pub open spec fn header_wire(h: IoctlHeader) -> Seq<u8> {
    seq![h.magic, h.version, h.command, h.reserved]
}

/// Appends the `count` little-endian bytes of `n`.
fn push_le(dst: &mut Vec<u8>, n: u64, count: usize)
    ensures
        final(dst)@ == old(dst)@ + le_bytes(n as nat, count as nat),
{
    let mut x = n;
    let mut i: usize = 0;
    while i < count
        invariant
            i <= count,
            dst@ + le_bytes(x as nat, (count - i) as nat) == old(dst)@ + le_bytes(
                n as nat,
                count as nat,
            ),
        decreases count - i,
    {
        let ghost pre = dst@;
        let b = (x % 256) as u8;
        dst.push(b);
        proof {
            assert(pre + (seq![b] + le_bytes((x / 256) as nat, (count - i - 1) as nat)) =~= (pre
                + seq![b]) + le_bytes((x / 256) as nat, (count - i - 1) as nat));
        }
        x = x / 256;
        i += 1;
    }
    proof {
        assert(dst@ + le_bytes(x as nat, 0) =~= dst@);
    }
}

impl ReadRequest {
    /// Serializes the request into its fixed 262-byte wire form:
    /// header, then the length-prefixed key buffer.
    pub fn to_bytes(&self) -> (r: Vec<u8>)
        ensures
            r@ == header_wire(self.header) + key_wire(self.key),
            r@.len() == 262,
    {
        let mut out: Vec<u8> = Vec::new();
        out.push(self.header.magic);
        out.push(self.header.version);
        out.push(self.header.command);
        out.push(self.header.reserved);
        push_le(&mut out, self.key.len as u64, 2);
        crate::resp::push_all(&mut out, self.key.data.as_slice());
        proof {
            assert(out@ =~= header_wire(self.header) + key_wire(self.key));
            lemma_le_bytes_len(self.key.len as nat, 2);
        }
        out
    }
}

impl PromoteRequest {
    /// Serializes the request into its fixed 1304-byte wire form: header,
    /// length-prefixed key and value buffers, version, then deadline, the
    /// numbers little endian.
    pub fn to_bytes(&self) -> (r: Vec<u8>)
        ensures
            r@ == header_wire(self.header) + key_wire(self.key) + value_wire(self.value)
                + le_bytes(self.version.raw as nat, 8) + le_bytes(self.ttl.ms as nat, 8),
            r@.len() == 1304,
    {
        let mut out: Vec<u8> = Vec::new();
        out.push(self.header.magic);
        out.push(self.header.version);
        out.push(self.header.command);
        out.push(self.header.reserved);
        push_le(&mut out, self.key.len as u64, 2);
        crate::resp::push_all(&mut out, self.key.data.as_slice());
        push_le(&mut out, self.value.len as u64, 2);
        crate::resp::push_all(&mut out, self.value.data.as_slice());
        push_le(&mut out, self.version.raw, 8);
        push_le(&mut out, self.ttl.ms, 8);
        proof {
            assert(out@ =~= header_wire(self.header) + key_wire(self.key) + value_wire(self.value)
                + le_bytes(self.version.raw as nat, 8) + le_bytes(self.ttl.ms as nat, 8));
            lemma_le_bytes_len(self.key.len as nat, 2);
            lemma_le_bytes_len(self.value.len as nat, 2);
            lemma_le_bytes_len(self.version.raw as nat, 8);
            lemma_le_bytes_len(self.ttl.ms as nat, 8);
        }
        out
    }
}

/// The wire form of a number takes exactly its byte count.
pub proof fn lemma_le_bytes_len(n: nat, count: nat)
    ensures
        le_bytes(n, count).len() == count,
    decreases count,
{
    if count > 0 {
        lemma_le_bytes_len(n / 256, (count - 1) as nat);
    }
}

impl ReadResponse {
    /// Deserializes the fixed 1032-byte wire form: header, status, then the
    /// length-prefixed value buffer.
    ///
    /// Rejects a buffer of the wrong size or a value length over the value
    /// capacity as a protocol violation; it never interprets such a payload.
    pub fn from_bytes(b: &[u8]) -> (r: Result<ReadResponse, HkvError>)
        ensures
            b@.len() != 1032 ==> r == Err::<ReadResponse, HkvError>(HkvError::ProtocolViolation),
            b@.len() == 1032 && b@[6] + 256 * b@[7] > 1024 ==> r == Err::<ReadResponse, HkvError>(
                HkvError::ProtocolViolation,
            ),
            b@.len() == 1032 && b@[6] + 256 * b@[7] <= 1024 ==> (r matches Ok(resp)
                && resp.header == (IoctlHeader {
                magic: b@[0],
                version: b@[1],
                command: b@[2],
                reserved: b@[3],
            }) && resp.status == b@[4] + 256 * b@[5] && resp.value@ == b@.subrange(
                8,
                8 + b@[6] + 256 * b@[7],
            )),
    {
        if b.len() != 1032 {
            return Err(HkvError::ProtocolViolation);
        }
        let header = IoctlHeader { magic: b[0], version: b[1], command: b[2], reserved: b[3] };
        let status = b[4] as u16 + (b[5] as u16) * 256;
        let vl = b[6] as usize + (b[7] as usize) * 256;
        if vl > 1024 {
            return Err(HkvError::ProtocolViolation);
        }
        let value = match Value::new(vstd::slice::slice_subrange(b, 8, 8 + vl)) {
            Ok(v) => v,
            Err(e) => {
                return Err(e);
            },
        };
        Ok(ReadResponse { header, status, value })
    }
}

impl PromoteResponse {
    /// Deserializes the fixed 8-byte wire form: header, status, reserved.
    ///
    /// Rejects a buffer of the wrong size as a protocol violation.
    pub fn from_bytes(b: &[u8]) -> (r: Result<PromoteResponse, HkvError>)
        ensures
            b@.len() != 8 ==> r == Err::<PromoteResponse, HkvError>(HkvError::ProtocolViolation),
            b@.len() == 8 ==> r == Ok::<PromoteResponse, HkvError>(PromoteResponse {
                header: IoctlHeader {
                    magic: b@[0],
                    version: b@[1],
                    command: b@[2],
                    reserved: b@[3],
                },
                status: (b@[4] + 256 * b@[5]) as u16,
                reserved: (b@[6] + 256 * b@[7]) as u16,
            }),
    {
        if b.len() != 8 {
            return Err(HkvError::ProtocolViolation);
        }
        Ok(PromoteResponse {
            header: IoctlHeader { magic: b[0], version: b[1], command: b[2], reserved: b[3] },
            status: b[4] as u16 + (b[5] as u16) * 256,
            reserved: b[6] as u16 + (b[7] as u16) * 256,
        })
    }
}

} // verus!

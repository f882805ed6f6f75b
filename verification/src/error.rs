//! Error taxonomy shared by every HybridKV component.
//!
//! Each error carries a stable numeric code so it can cross the user/kernel
//! boundary unchanged, and a coarse category that decides retryability.

use vstd::prelude::*;
use vstd::string::StringSliceAdditionalSpecFns;

verus! {

/// Result type used across HybridKV components.
pub type HkvResult<T> = Result<T, HkvError>;

/// High-level category for grouping error codes.
#[derive(Clone, Copy, Debug, PartialEq, Eq, Structural, Hash)]
pub enum HkvErrorCategory {
    /// Invalid input or user request issues.
    Client,
    /// Server-side resource or invariant failures.
    Server,
    /// Retryable conditions such as contention or timeouts.
    Transient,
    /// Protocol or versioning mismatches across boundaries.
    Protocol,
}

impl HkvErrorCategory {
    /// Returns true if the category is safe to retry.
    pub fn is_retryable(self) -> (r: bool)
        ensures
            r == (self is Transient),
    {
        matches!(self, HkvErrorCategory::Transient)
    }
}

/// Error codes shared between user space and kernel space.
#[derive(Clone, Copy, Debug, PartialEq, Eq, Structural, Hash)]
pub enum HkvError {
    /// Client error: input failed validation.
    InvalidInput,
    /// Client error: key not found.
    NotFound,
    /// Client error: key length exceeds the key capacity.
    KeyTooLong,
    /// Client error: value length exceeds the value capacity.
    ValueTooLong,
    /// Server error: kernel memory limit reached.
    OutOfMemory,
    /// Server error: cache capacity limit reached.
    CapacityExceeded,
    /// Server error: internal invariant violated.
    InternalError,
    /// Transient error: resource busy, retry later.
    Busy,
    /// Transient error: operation timed out.
    Timeout,
    /// Transient error: operation interrupted.
    Interrupted,
    /// Protocol error: version mismatch.
    VersionMismatch,
    /// Protocol error: request/response schema mismatch.
    ProtocolViolation,
    /// Protocol error: command not supported.
    UnsupportedCommand,
}

/// The stable numeric code of each error, grouped in ranges by category.
pub open spec fn spec_code(e: HkvError) -> u16 {
    match e {
        HkvError::InvalidInput => 1,
        HkvError::NotFound => 2,
        HkvError::KeyTooLong => 3,
        HkvError::ValueTooLong => 4,
        HkvError::OutOfMemory => 10,
        HkvError::CapacityExceeded => 11,
        HkvError::InternalError => 12,
        HkvError::Busy => 20,
        HkvError::Timeout => 21,
        HkvError::Interrupted => 22,
        HkvError::VersionMismatch => 30,
        HkvError::ProtocolViolation => 31,
        HkvError::UnsupportedCommand => 32,
    }
}

/// The coarse category of each error.
pub open spec fn spec_category(e: HkvError) -> HkvErrorCategory {
    match e {
        HkvError::InvalidInput
        | HkvError::NotFound
        | HkvError::KeyTooLong
        | HkvError::ValueTooLong => HkvErrorCategory::Client,
        HkvError::OutOfMemory
        | HkvError::CapacityExceeded
        | HkvError::InternalError => HkvErrorCategory::Server,
        HkvError::Busy | HkvError::Timeout | HkvError::Interrupted => HkvErrorCategory::Transient,
        HkvError::VersionMismatch
        | HkvError::ProtocolViolation
        | HkvError::UnsupportedCommand => HkvErrorCategory::Protocol,
    }
}

impl HkvError {
    /// Returns the stable numeric code for the error.
    pub fn code(self) -> (r: u16)
        ensures
            r == spec_code(self),
    {
        match self {
            HkvError::InvalidInput => 1,
            HkvError::NotFound => 2,
            HkvError::KeyTooLong => 3,
            HkvError::ValueTooLong => 4,
            HkvError::OutOfMemory => 10,
            HkvError::CapacityExceeded => 11,
            HkvError::InternalError => 12,
            HkvError::Busy => 20,
            HkvError::Timeout => 21,
            HkvError::Interrupted => 22,
            HkvError::VersionMismatch => 30,
            HkvError::ProtocolViolation => 31,
            HkvError::UnsupportedCommand => 32,
        }
    }

    /// Returns the coarse category of the error.
    pub fn category(self) -> (r: HkvErrorCategory)
        ensures
            r == spec_category(self),
    {
        match self {
            HkvError::InvalidInput
            | HkvError::NotFound
            | HkvError::KeyTooLong
            | HkvError::ValueTooLong => HkvErrorCategory::Client,
            HkvError::OutOfMemory | HkvError::CapacityExceeded | HkvError::InternalError => {
                HkvErrorCategory::Server
            },
            HkvError::Busy | HkvError::Timeout | HkvError::Interrupted => {
                HkvErrorCategory::Transient
            },
            HkvError::VersionMismatch
            | HkvError::ProtocolViolation
            | HkvError::UnsupportedCommand => HkvErrorCategory::Protocol,
        }
    }

    /// Returns true if callers should retry the operation.
    pub fn is_retryable(self) -> (r: bool)
        ensures
            r == (spec_category(self) is Transient),
    {
        self.category().is_retryable()
    }

    /// Converts a numeric code into a typed error.
    ///
    /// Returns `Some` exactly on the codes that `code` hands out, and each
    /// such code maps back to the error it came from.
    pub fn from_code(code: u16) -> (r: Option<HkvError>)
        ensures
            r matches Some(e) ==> spec_code(e) == code,
            r is None ==> forall|e: HkvError| spec_code(e) != code,
    {
        match code {
            1u16 => Some(HkvError::InvalidInput),
            2u16 => Some(HkvError::NotFound),
            3u16 => Some(HkvError::KeyTooLong),
            4u16 => Some(HkvError::ValueTooLong),
            10u16 => Some(HkvError::OutOfMemory),
            11u16 => Some(HkvError::CapacityExceeded),
            12u16 => Some(HkvError::InternalError),
            20u16 => Some(HkvError::Busy),
            21u16 => Some(HkvError::Timeout),
            22u16 => Some(HkvError::Interrupted),
            30u16 => Some(HkvError::VersionMismatch),
            31u16 => Some(HkvError::ProtocolViolation),
            32u16 => Some(HkvError::UnsupportedCommand),
            _ => None,
        }
    }

    /// Returns the stable human-readable label for the error, used in RESP
    /// error replies.
    pub fn label(self) -> (r: &'static str)
        ensures
            r.spec_bytes() == spec_label_bytes(self),
    {
        match self {
            HkvError::InvalidInput => "invalid input",
            HkvError::NotFound => "not found",
            HkvError::KeyTooLong => "key too long",
            HkvError::ValueTooLong => "value too long",
            HkvError::OutOfMemory => "out of memory",
            HkvError::CapacityExceeded => "capacity exceeded",
            HkvError::InternalError => "internal error",
            HkvError::Busy => "busy",
            HkvError::Timeout => "timeout",
            HkvError::Interrupted => "interrupted",
            HkvError::VersionMismatch => "version mismatch",
            HkvError::ProtocolViolation => "protocol violation",
            HkvError::UnsupportedCommand => "unsupported command",
        }
    }
}

/// The stable label of each error, as the bytes that go on the wire.
pub open spec fn spec_label_bytes(e: HkvError) -> Seq<u8> {
    match e {
        HkvError::InvalidInput => "invalid input".spec_bytes(),
        HkvError::NotFound => "not found".spec_bytes(),
        HkvError::KeyTooLong => "key too long".spec_bytes(),
        HkvError::ValueTooLong => "value too long".spec_bytes(),
        HkvError::OutOfMemory => "out of memory".spec_bytes(),
        HkvError::CapacityExceeded => "capacity exceeded".spec_bytes(),
        HkvError::InternalError => "internal error".spec_bytes(),
        HkvError::Busy => "busy".spec_bytes(),
        HkvError::Timeout => "timeout".spec_bytes(),
        HkvError::Interrupted => "interrupted".spec_bytes(),
        HkvError::VersionMismatch => "version mismatch".spec_bytes(),
        HkvError::ProtocolViolation => "protocol violation".spec_bytes(),
        HkvError::UnsupportedCommand => "unsupported command".spec_bytes(),
    }
}

/// Codes are distinct: together with the contract of `from_code` this gives
/// the round trip `from_code(e.code()) == Some(e)`.
pub proof fn lemma_codes_distinct(a: HkvError, b: HkvError)
    ensures
        spec_code(a) == spec_code(b) ==> a == b,
{
}

} // verus!

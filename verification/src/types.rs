//! Core value types: fixed-capacity binary buffers for keys and values,
//! entry versions, absolute expiry instants, and the tiering command codes.
//!
//! Keys and values are length-prefixed buffers with a fixed capacity so the
//! binary tiering records have one stable, byte-exact layout.  Padding bytes
//! past the stored length are kept zero so no stray data crosses the
//! user/kernel boundary.

use vstd::prelude::*;

use crate::error::HkvError;

verus! {

/// Maximum number of key bytes a key buffer can hold.
pub const MAX_KEY_SIZE: usize = 256;

/// Maximum number of value bytes a value buffer can hold.
pub const MAX_VALUE_SIZE: usize = 1024;

/// Magic byte that opens every cross-tier message.
pub const IOCTL_MAGIC: u8 = 0x4B;

/// Command codes understood by the kernel-resident tier.
#[derive(Clone, Copy, Debug, PartialEq, Eq, Structural, Hash)]
pub enum IoctlCommand {
    /// Look an entry up in the external tier.
    Read,
    /// Admit or update an entry in the external tier.
    Promote,
}

impl IoctlCommand {
    /// Returns the wire byte for the command.
    pub fn as_u8(self) -> (r: u8)
        ensures
            r == spec_command_code(self),
    {
        match self {
            IoctlCommand::Read => 1,
            IoctlCommand::Promote => 2,
        }
    }
}

/// The wire byte of each tiering command.
pub open spec fn spec_command_code(c: IoctlCommand) -> u8 {
    match c {
        IoctlCommand::Read => 1,
        IoctlCommand::Promote => 2,
    }
}

/// Monotonic version counter attached to an entry at promotion time.
#[derive(Clone, Copy, Debug, PartialEq, Eq, Structural, Hash)]
pub struct Version {
    /// The raw 64-bit counter value.
    pub raw: u64,
}

impl Version {
    /// The default, initial version.
    pub fn zero() -> (r: Version)
        ensures
            r.raw == 0,
    {
        Version { raw: 0 }
    }
}

/// Absolute expiry instant in milliseconds; `u64::MAX` is the sentinel for
/// "no expiry".
#[derive(Clone, Copy, Debug, PartialEq, Eq, Structural, Hash)]
pub struct Ttl {
    /// Milliseconds of the absolute deadline.
    pub ms: u64,
}

impl Ttl {
    /// The sentinel meaning "no expiry".
    pub fn infinite() -> (r: Ttl)
        ensures
            r.ms == u64::MAX,
    {
        Ttl { ms: u64::MAX }
    }
}

/// Length-prefixed, fixed-capacity key buffer (binary safe).
#[derive(Clone, Copy, Debug)]
pub struct Key {
    /// Number of meaningful bytes in `data`.
    pub len: u16,
    /// The key bytes; bytes past `len` are zero.
    pub data: [u8; 256],
}

/// Length-prefixed, fixed-capacity value buffer (binary safe).
#[derive(Clone, Copy, Debug)]
pub struct Value {
    /// Number of meaningful bytes in `data`.
    pub len: u16,
    /// The value bytes; bytes past `len` are zero.
    pub data: [u8; 1024],
}

impl View for Key {
    type V = Seq<u8>;

    open spec fn view(&self) -> Seq<u8> {
        self.data@.take(self.len as int)
    }
}

impl View for Value {
    type V = Seq<u8>;

    open spec fn view(&self) -> Seq<u8> {
        self.data@.take(self.len as int)
    }
}

impl Key {
    /// Length within capacity and zeroed padding past the stored bytes.
    pub open spec fn wf(&self) -> bool {
        self.len <= 256 && forall|i: int| self.len <= i < 256 ==> self.data@[i] == 0
    }

    /// Builds a key from raw bytes, rejecting anything over the capacity.
    pub fn new(bytes: &[u8]) -> (r: Result<Key, HkvError>)
        ensures
            bytes@.len() <= MAX_KEY_SIZE ==> (r matches Ok(k) && k@ == bytes@ && k.wf()),
            bytes@.len() > MAX_KEY_SIZE ==> r == Err::<Key, HkvError>(HkvError::KeyTooLong),
    {
        if bytes.len() > MAX_KEY_SIZE {
            return Err(HkvError::KeyTooLong);
        }
        let mut data = [0u8; 256];
        let n = bytes.len();
        let mut i: usize = 0;
        while i < n
            invariant
                n == bytes@.len() <= 256,
                i <= n,
                forall|j: int| 0 <= j < i ==> data@[j] == bytes@[j],
                forall|j: int| i <= j < 256 ==> data@[j] == 0,
            decreases n - i,
        {
            data[i] = bytes[i];
            i += 1;
        }
        let k = Key { len: n as u16, data };
        proof {
            assert(k@ =~= bytes@);
        }
        Ok(k)
    }

    /// Number of meaningful key bytes.
    pub fn byte_len(&self) -> (r: usize)
        requires
            self.wf(),
        ensures
            r == self@.len(),
    {
        self.len as usize
    }

    /// Copies the meaningful key bytes out into a plain vector.
    pub fn to_vec(&self) -> (r: Vec<u8>)
        requires
            self.wf(),
        ensures
            r@ == self@,
    {
        let n = self.len as usize;
        let mut out: Vec<u8> = Vec::new();
        let mut i: usize = 0;
        while i < n
            invariant
                n == self.len as int <= 256,
                i <= n,
                out@ =~= self.data@.take(i as int),
            decreases n - i,
        {
            out.push(self.data[i]);
            i += 1;
        }
        out
    }
}

impl Value {
    /// Length within capacity and zeroed padding past the stored bytes.
    pub open spec fn wf(&self) -> bool {
        self.len <= 1024 && forall|i: int| self.len <= i < 1024 ==> self.data@[i] == 0
    }

    /// Builds a value from raw bytes, rejecting anything over the capacity.
    pub fn new(bytes: &[u8]) -> (r: Result<Value, HkvError>)
        ensures
            bytes@.len() <= MAX_VALUE_SIZE ==> (r matches Ok(v) && v@ == bytes@ && v.wf()),
            bytes@.len() > MAX_VALUE_SIZE ==> r == Err::<Value, HkvError>(HkvError::ValueTooLong),
    {
        if bytes.len() > MAX_VALUE_SIZE {
            return Err(HkvError::ValueTooLong);
        }
        let mut data = [0u8; 1024];
        let n = bytes.len();
        let mut i: usize = 0;
        while i < n
            invariant
                n == bytes@.len() <= 1024,
                i <= n,
                forall|j: int| 0 <= j < i ==> data@[j] == bytes@[j],
                forall|j: int| i <= j < 1024 ==> data@[j] == 0,
            decreases n - i,
        {
            data[i] = bytes[i];
            i += 1;
        }
        let v = Value { len: n as u16, data };
        proof {
            assert(v@ =~= bytes@);
        }
        Ok(v)
    }

    /// Number of meaningful value bytes.
    pub fn byte_len(&self) -> (r: usize)
        requires
            self.wf(),
        ensures
            r == self@.len(),
    {
        self.len as usize
    }

    /// Copies the meaningful value bytes out into a plain vector.
    pub fn to_vec(&self) -> (r: Vec<u8>)
        requires
            self.wf(),
        ensures
            r@ == self@,
    {
        let n = self.len as usize;
        let mut out: Vec<u8> = Vec::new();
        let mut i: usize = 0;
        while i < n
            invariant
                n == self.len as int <= 1024,
                i <= n,
                out@ =~= self.data@.take(i as int),
            decreases n - i,
        {
            out.push(self.data[i]);
            i += 1;
        }
        out
    }
}

impl PartialEq for Key {
    fn eq(&self, other: &Key) -> (r: bool) {
        if self.len != other.len {
            return false;
        }
        let mut i: usize = 0;
        while i < 256
            invariant
                i <= 256,
                self.len == other.len,
                forall|j: int| 0 <= j < i ==> self.data@[j] == other.data@[j],
            decreases 256 - i,
        {
            if self.data[i] != other.data[i] {
                return false;
            }
            i += 1;
        }
        proof {
            assert(self.data@ =~= other.data@);
        }
        true
    }
}

impl vstd::std_specs::cmp::PartialEqSpecImpl for Key {
    open spec fn obeys_eq_spec() -> bool {
        true
    }

    open spec fn eq_spec(&self, other: &Key) -> bool {
        self.len == other.len && self.data@ == other.data@
    }
}

impl PartialEq for Value {
    fn eq(&self, other: &Value) -> (r: bool) {
        if self.len != other.len {
            return false;
        }
        let mut i: usize = 0;
        while i < 1024
            invariant
                i <= 1024,
                self.len == other.len,
                forall|j: int| 0 <= j < i ==> self.data@[j] == other.data@[j],
            decreases 1024 - i,
        {
            if self.data[i] != other.data[i] {
                return false;
            }
            i += 1;
        }
        proof {
            assert(self.data@ =~= other.data@);
        }
        true
    }
}

impl vstd::std_specs::cmp::PartialEqSpecImpl for Value {
    open spec fn obeys_eq_spec() -> bool {
        true
    }

    open spec fn eq_spec(&self, other: &Value) -> bool {
        self.len == other.len && self.data@ == other.data@
    }
}

} // verus!

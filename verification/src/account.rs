//! The host's buffers, as the plain values that this crate reads.

use vstd::prelude::*;

verus! {

/// The identity key of a buffer.
pub type Pubkey = [u8; 32];

/// One buffer handed in by the host for the length of an invocation: its key,
/// its two flags and its bytes.
#[derive(Debug, Clone, PartialEq, Eq)]
pub struct RawBuffer {
    pub key: Pubkey,
    pub is_signer: bool,
    pub is_executable: bool,
    pub data: Vec<u8>,
}

/// A buffer as a mathematical value.
pub struct RawBufferView {
    pub key: Seq<u8>,
    pub is_signer: bool,
    pub is_executable: bool,
    pub data: Seq<u8>,
}

impl View for RawBuffer {
    type V = RawBufferView;

    open spec fn view(&self) -> RawBufferView {
        RawBufferView {
            key: self.key@,
            is_signer: self.is_signer,
            is_executable: self.is_executable,
            data: self.data@,
        }
    }
}

impl RawBuffer {
    /// A buffer with the given key, flags and bytes.
    pub fn new(key: Pubkey, is_signer: bool, is_executable: bool, data: Vec<u8>) -> (r: RawBuffer)
        ensures
            r.key == key,
            r.is_signer == is_signer,
            r.is_executable == is_executable,
            r.data == data,
    {
        RawBuffer { key, is_signer, is_executable, data }
    }

    /// The buffer's key.
    pub fn key(&self) -> (r: &Pubkey)
        ensures
            *r == self.key,
    {
        &self.key
    }

    /// Whether the host marked the buffer as an authorizing signer.
    pub fn is_signer(&self) -> (r: bool)
        ensures
            r == self.is_signer,
    {
        self.is_signer
    }

    /// Whether the host marked the buffer as a program.
    pub fn executable(&self) -> (r: bool)
        ensures
            r == self.is_executable,
    {
        self.is_executable
    }

    /// The number of bytes in the buffer.
    pub fn data_len(&self) -> (r: usize)
        ensures
            r == self.data@.len(),
    {
        self.data.len()
    }

    /// Whether the buffer holds no byte.
    pub fn data_is_empty(&self) -> (r: bool)
        ensures
            r == (self.data@.len() == 0),
    {
        self.data.len() == 0
    }
}

/// Whether two keys hold the same bytes.
pub fn same_key(a: &Pubkey, b: &Pubkey) -> (r: bool)
    ensures
        r == (a@ == b@),
{
    let mut i: usize = 0;
    while i < 32
        invariant
            i <= 32,
            forall|j: int| 0 <= j < i ==> a@[j] == b@[j],
        decreases 32 - i,
    {
        if a[i] != b[i] {
            return false;
        }
        i += 1;
    }
    assert(a@ =~= b@);
    true
}

} // verus!

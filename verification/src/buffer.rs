//! A shared, immutable packet buffer.

use bytes::Bytes;
use vstd::prelude::*;

verus! {

/// `bytes::Bytes`, a cheaply cloneable byte string.
#[verifier::external_type_specification]
#[verifier::external_body]
pub struct ExBytes(Bytes);

/// The bytes that a `Bytes` value holds.
pub uninterp spec fn bytes_content(b: Bytes) -> Seq<u8>;

/// `Bytes::from(Vec<u8>)`: holds the bytes of the vector.
#[verifier::external_body]
pub(crate) fn bytes_from_vec(data: Vec<u8>) -> (b: Bytes)
    ensures
        bytes_content(b) == data@,
{
    Bytes::from(data)
}

/// `Bytes`, dereferenced: the bytes it holds, as a slice.
#[verifier::external_body]
pub(crate) fn bytes_as_slice(b: &Bytes) -> (s: &[u8])
    ensures
        s@ == bytes_content(*b),
{
    &b[..]
}

/// `Bytes::clone`: another handle to the same bytes.
pub assume_specification[ <Bytes as Clone>::clone ](b: &Bytes) -> (c: Bytes)
    ensures
        bytes_content(c) == bytes_content(*b),
;

/// A shared, immutable packet buffer.
#[derive(Debug)]
pub struct PacketBuffer {
    data: Bytes,
}

impl View for PacketBuffer {
    type V = Seq<u8>;

    closed spec fn view(&self) -> Seq<u8> {
        bytes_content(self.data)
    }
}

impl Clone for PacketBuffer {
    fn clone(&self) -> (c: Self)
        ensures
            c@ == self@,
    {
        PacketBuffer { data: self.data.clone() }
    }
}

impl From<Vec<u8>> for PacketBuffer {
    fn from(data: Vec<u8>) -> (b: Self)
        ensures
            b@ == data@,
    {
        PacketBuffer::from_vec(data)
    }
}

impl vstd::std_specs::convert::FromSpecImpl<Vec<u8>> for PacketBuffer {
    open spec fn obeys_from_spec() -> bool {
        false
    }

    open spec fn from_spec(data: Vec<u8>) -> Self {
        arbitrary()
    }
}

impl From<Bytes> for PacketBuffer {
    fn from(data: Bytes) -> (b: Self)
        ensures
            b@ == bytes_content(data),
    {
        PacketBuffer::new(data)
    }
}

impl vstd::std_specs::convert::FromSpecImpl<Bytes> for PacketBuffer {
    open spec fn obeys_from_spec() -> bool {
        false
    }

    open spec fn from_spec(data: Bytes) -> Self {
        arbitrary()
    }
}

impl PacketBuffer {
    /// A buffer over shared bytes.
    pub fn new(data: Bytes) -> (b: Self)
        ensures
            b@ == bytes_content(data),
    {
        PacketBuffer { data }
    }

    /// A buffer over the bytes of a vector.
    pub fn from_vec(data: Vec<u8>) -> (b: Self)
        ensures
            b@ == data@,
    {
        PacketBuffer::new(bytes_from_vec(data))
    }

    /// The shared bytes.
    pub fn into_bytes(self) -> (b: Bytes)
        ensures
            bytes_content(b) == self@,
    {
        self.data
    }

    /// A copy of the bytes.
    pub fn to_vec(&self) -> (v: Vec<u8>)
        ensures
            v@ == self@,
    {
        vstd::slice::slice_to_vec(self.as_slice())
    }

    /// The number of bytes.
    pub fn len(&self) -> (n: usize)
        ensures
            n == self@.len(),
    {
        self.as_slice().len()
    }

    /// Whether there are no bytes.
    pub fn is_empty(&self) -> (r: bool)
        ensures
            r == (self@.len() == 0),
    {
        self.as_slice().len() == 0
    }

    /// The bytes.
    pub fn as_slice(&self) -> (s: &[u8])
        ensures
            s@ == self@,
    {
        bytes_as_slice(&self.data)
    }
}

/// Whether two byte strings are equal.
pub fn same_bytes(a: &[u8], b: &[u8]) -> (r: bool)
    ensures
        r == (a@ == b@),
{
    if a.len() != b.len() {
        return false;
    }
    let mut i: usize = 0;
    while i < a.len()
        invariant
            i <= a@.len(),
            a@.len() == b@.len(),
            forall|k: int| 0 <= k < i ==> a@[k] == b@[k],
        decreases a@.len() - i,
    {
        if a[i] != b[i] {
            return false;
        }
        i += 1;
    }
    proof {
        assert(a@ =~= b@);
    }
    true
}

} // verus!

//! A 256-bit content hash, held as four 64-bit limbs so that equality is
//! structural. The crate does not compute hashes itself — hashing belongs to
//! a cryptography collaborator — it only stores, keys by, and compares them.

use vstd::prelude::*;

use crate::codec::{u64_be_bytes, u64_from_be_bytes};
use crate::codec::{lemma_u64_be_bytes_of_read, lemma_u64_be_injective};
use crate::codec::{push_u64_be, read_u64_be};
use crate::errors::StoreError;

verus! {

/// The byte length of a hash.
pub const HASH_LENGTH: usize = 32;

/// A 256-bit hash, big-endian: `w0` holds the most significant bytes.
#[derive(Clone, Copy, Debug, PartialEq, Eq, Structural)]
pub struct HashValue {
    pub w0: u64,
    pub w1: u64,
    pub w2: u64,
    pub w3: u64,
}

impl HashValue {
    /// The 32 bytes of the hash, most significant first.
    pub open spec fn bytes(&self) -> Seq<u8> {
        u64_be_bytes(self.w0) + u64_be_bytes(self.w1) + u64_be_bytes(self.w2) + u64_be_bytes(
            self.w3,
        )
    }

    /// Builds a hash from its four limbs, most significant first.
    pub fn from_words(w0: u64, w1: u64, w2: u64, w3: u64) -> (r: HashValue)
        ensures
            r == (HashValue { w0, w1, w2, w3 }),
    {
        HashValue { w0, w1, w2, w3 }
    }

    /// Reads a hash from exactly 32 bytes; any other length is corruption.
    pub fn from_slice(data: &[u8]) -> (r: Result<HashValue, StoreError>)
        ensures
            r matches Ok(h) ==> h.bytes() == data@,
            data@.len() == 32 <==> r is Ok,
    {
        if data.len() != 32 {
            return Err(StoreError::Corruption);
        }
        let h = HashValue {
            w0: read_u64_be(data, 0),
            w1: read_u64_be(data, 8),
            w2: read_u64_be(data, 16),
            w3: read_u64_be(data, 24),
        };
        proof {
            lemma_u64_be_bytes_of_read(data@.subrange(0, 8));
            lemma_u64_be_bytes_of_read(data@.subrange(8, 16));
            lemma_u64_be_bytes_of_read(data@.subrange(16, 24));
            lemma_u64_be_bytes_of_read(data@.subrange(24, 32));
            assert(h.bytes() =~= data@);
        }
        Ok(h)
    }

    /// The 32 bytes of the hash as a fresh vector.
    pub fn to_vec(&self) -> (r: Vec<u8>)
        ensures
            r@ == self.bytes(),
            r@.len() == 32,
    {
        let mut out: Vec<u8> = Vec::new();
        push_u64_be(&mut out, self.w0);
        push_u64_be(&mut out, self.w1);
        push_u64_be(&mut out, self.w2);
        push_u64_be(&mut out, self.w3);
        proof {
            assert(out@ =~= self.bytes());
        }
        out
    }
}

/// Two hashes with the same bytes are the same hash.
pub proof fn lemma_hash_bytes_injective(a: HashValue, b: HashValue)
    requires
        a.bytes() == b.bytes(),
    ensures
        a == b,
{
    assert(u64_be_bytes(a.w0) =~= b.bytes().subrange(0, 8));
    assert(u64_be_bytes(a.w1) =~= b.bytes().subrange(8, 16));
    assert(u64_be_bytes(a.w2) =~= b.bytes().subrange(16, 24));
    assert(u64_be_bytes(a.w3) =~= b.bytes().subrange(24, 32));
    assert(u64_be_bytes(b.w0) =~= b.bytes().subrange(0, 8));
    assert(u64_be_bytes(b.w1) =~= b.bytes().subrange(8, 16));
    assert(u64_be_bytes(b.w2) =~= b.bytes().subrange(16, 24));
    assert(u64_be_bytes(b.w3) =~= b.bytes().subrange(24, 32));
    lemma_u64_be_injective(a.w0, b.w0);
    lemma_u64_be_injective(a.w1, b.w1);
    lemma_u64_be_injective(a.w2, b.w2);
    lemma_u64_be_injective(a.w3, b.w3);
}

impl View for HashValue {
    type V = HashValue;

    open spec fn view(&self) -> HashValue {
        *self
    }
}

} // verus!

//! Typed key/value codecs over raw bytes, and the fixed-width big-endian
//! integer codec they build on.
//!
//! Both codec traits demand that encoding is injective on valid values and
//! that decoding succeeds exactly on the encodings of valid values; together
//! these give the round-trip law `decode(encode(x)) == x`.

use vstd::prelude::*;

use crate::errors::StoreError;

verus! {

/// The eight bytes of `x` in big-endian order.
pub open spec fn u64_be_bytes(x: u64) -> Seq<u8> {
    seq![
        (x >> 56) as u8,
        (x >> 48) as u8,
        (x >> 40) as u8,
        (x >> 32) as u8,
        (x >> 24) as u8,
        (x >> 16) as u8,
        (x >> 8) as u8,
        x as u8,
    ]
}

/// The integer read from eight big-endian bytes.
pub open spec fn u64_from_be_bytes(s: Seq<u8>) -> u64
    recommends
        s.len() == 8,
{
    ((s[0] as u64) << 56 | (s[1] as u64) << 48 | (s[2] as u64) << 40 | (s[3] as u64) << 32 | (
    s[4] as u64) << 24 | (s[5] as u64) << 16 | (s[6] as u64) << 8 | (s[7] as u64)) as u64
}

/// Reading back the big-endian bytes of `x` recovers `x`.
pub proof fn lemma_u64_be_round_trip(x: u64)
    ensures
        u64_from_be_bytes(u64_be_bytes(x)) == x,
{
    assert((((((x >> 56) as u8) as u64) << 56 | (((x >> 48) as u8) as u64) << 48 | (((x
        >> 40) as u8) as u64) << 40 | (((x >> 32) as u8) as u64) << 32 | (((x >> 24) as u8) as u64)
        << 24 | (((x >> 16) as u8) as u64) << 16 | (((x >> 8) as u8) as u64) << 8 | ((
    x as u8) as u64)) as u64) == x) by (bit_vector);
}

/// Writing the integer read from eight bytes reproduces those bytes.
pub proof fn lemma_u64_be_bytes_of_read(s: Seq<u8>)
    requires
        s.len() == 8,
    ensures
        u64_be_bytes(u64_from_be_bytes(s)) == s,
{
    let b0 = s[0];
    let b1 = s[1];
    let b2 = s[2];
    let b3 = s[3];
    let b4 = s[4];
    let b5 = s[5];
    let b6 = s[6];
    let b7 = s[7];
    let x = ((b0 as u64) << 56 | (b1 as u64) << 48 | (b2 as u64) << 40 | (b3 as u64) << 32 | (
    b4 as u64) << 24 | (b5 as u64) << 16 | (b6 as u64) << 8 | (b7 as u64)) as u64;
    assert((x >> 56) as u8 == b0 && (x >> 48) as u8 == b1 && (x >> 40) as u8 == b2 && (x
        >> 32) as u8 == b3 && (x >> 24) as u8 == b4 && (x >> 16) as u8 == b5 && (x >> 8) as u8 == b6
        && x as u8 == b7) by (bit_vector)
        requires
            x == ((b0 as u64) << 56 | (b1 as u64) << 48 | (b2 as u64) << 40 | (b3 as u64) << 32 | (
            b4 as u64) << 24 | (b5 as u64) << 16 | (b6 as u64) << 8 | (b7 as u64)) as u64,
    ;
    assert(u64_be_bytes(u64_from_be_bytes(s)) =~= s);
}

/// Two integers with the same big-endian bytes are the same integer.
pub proof fn lemma_u64_be_injective(x: u64, y: u64)
    requires
        u64_be_bytes(x) == u64_be_bytes(y),
    ensures
        x == y,
{
    lemma_u64_be_round_trip(x);
    lemma_u64_be_round_trip(y);
}

/// Appends the eight big-endian bytes of `x` to `out`.
pub fn push_u64_be(out: &mut Vec<u8>, x: u64)
    ensures
        final(out)@ == old(out)@ + u64_be_bytes(x),
{
    out.push((x >> 56) as u8);
    out.push((x >> 48) as u8);
    out.push((x >> 40) as u8);
    out.push((x >> 32) as u8);
    out.push((x >> 24) as u8);
    out.push((x >> 16) as u8);
    out.push((x >> 8) as u8);
    out.push(x as u8);
    proof {
        assert(final(out)@ =~= old(out)@ + u64_be_bytes(x));
    }
}

/// The eight big-endian bytes of `x`, alone.
pub fn encode_u64_be(x: u64) -> (r: Vec<u8>)
    ensures
        r@ == u64_be_bytes(x),
        r@.len() == 8,
{
    let mut out: Vec<u8> = Vec::new();
    push_u64_be(&mut out, x);
    proof {
        assert(out@ =~= u64_be_bytes(x));
    }
    out
}

/// Reads a big-endian integer from `data` at `offset`.
pub fn read_u64_be(data: &[u8], offset: usize) -> (r: u64)
    requires
        offset + 8 <= data@.len(),
    ensures
        r == u64_from_be_bytes(data@.subrange(offset as int, offset as int + 8)),
{
    let r = (data[offset] as u64) << 56 | (data[offset + 1] as u64) << 48 | (data[offset
        + 2] as u64) << 40 | (data[offset + 3] as u64) << 32 | (data[offset + 4] as u64) << 24 | (
    data[offset + 5] as u64) << 16 | (data[offset + 6] as u64) << 8 | (data[offset + 7] as u64);
    proof {
        let s = data@.subrange(offset as int, offset as int + 8);
        assert(s[0] == data@[offset as int]);
        assert(s[7] == data@[offset as int + 7]);
    }
    r
}

/// A type that can serve as a storage key: it encodes itself to bytes and is
/// recovered from them. `key_bytes` is the mathematical encoding; encoding is
/// injective on valid keys and decoding succeeds exactly on their encodings.
pub trait KeyCodec: View + Sized {
    /// Which values of the type are well-formed keys.
    spec fn valid_key(&self) -> bool;

    /// The byte encoding of this key.
    spec fn key_bytes(&self) -> Seq<u8>;

    /// Converts `self` to the bytes stored in the engine.
    fn encode_key(&self) -> (r: Result<Vec<u8>, StoreError>)
        ensures
            self.valid_key() ==> r is Ok,
            r matches Ok(b) ==> self.valid_key() && b@ == self.key_bytes(),
    ;

    /// Converts bytes fetched from the engine back to a key.
    fn decode_key(data: &[u8]) -> (r: Result<Self, StoreError>)
        ensures
            r matches Ok(k) ==> k.valid_key() && k.key_bytes() == data@,
            (exists|k: Self| k.valid_key() && k.key_bytes() == data@) ==> r is Ok,
    ;

    /// Encoding is injective up to the key's view.
    proof fn key_bytes_injective(a: Self, b: Self)
        requires
            a.valid_key(),
            b.valid_key(),
            a.key_bytes() == b.key_bytes(),
        ensures
            a@ == b@,
    ;
}

/// A type that can serve as a stored value, under the same laws as `KeyCodec`.
pub trait ValueCodec: View + Sized {
    /// Which values of the type are well-formed.
    spec fn valid_value(&self) -> bool;

    /// The byte encoding of this value.
    spec fn value_bytes(&self) -> Seq<u8>;

    /// Converts `self` to the bytes stored in the engine.
    fn encode_value(&self) -> (r: Result<Vec<u8>, StoreError>)
        ensures
            self.valid_value() ==> r is Ok,
            r matches Ok(b) ==> self.valid_value() && b@ == self.value_bytes(),
    ;

    /// Converts bytes fetched from the engine back to a value.
    fn decode_value(data: &[u8]) -> (r: Result<Self, StoreError>)
        ensures
            r matches Ok(v) ==> v.valid_value() && v.value_bytes() == data@,
            (exists|v: Self| v.valid_value() && v.value_bytes() == data@) ==> r is Ok,
    ;

    /// Encoding is injective up to the value's view.
    proof fn value_bytes_injective(a: Self, b: Self)
        requires
            a.valid_value(),
            b.valid_value(),
            a.value_bytes() == b.value_bytes(),
        ensures
            a@ == b@,
    ;
}

/// Round-trip law for keys: decoding what `encode_key` produced yields the
/// original key again, for every valid key of every key type.
pub fn key_round_trip<K: KeyCodec>(x: &K) -> (r: K)
    requires
        x.valid_key(),
    ensures
        r@ == x@,
        r.valid_key(),
{
    let encoded = match x.encode_key() {
        Ok(b) => b,
        Err(_) => {
            proof {
                assert(false);
            }
            unreached()
        },
    };
    proof {
        assert(exists|k: K| k.valid_key() && k.key_bytes() == encoded@) by {
            assert(x.valid_key() && x.key_bytes() == encoded@);
        }
    }
    let decoded = match K::decode_key(encoded.as_slice()) {
        Ok(k) => k,
        Err(_) => {
            proof {
                assert(false);
            }
            unreached()
        },
    };
    proof {
        K::key_bytes_injective(*x, decoded);
    }
    decoded
}

/// Round-trip law for values: decoding what `encode_value` produced yields
/// the original value again, for every valid value of every value type.
pub fn value_round_trip<V: ValueCodec>(x: &V) -> (r: V)
    requires
        x.valid_value(),
    ensures
        r@ == x@,
        r.valid_value(),
{
    let encoded = match x.encode_value() {
        Ok(b) => b,
        Err(_) => {
            proof {
                assert(false);
            }
            unreached()
        },
    };
    proof {
        assert(exists|v: V| v.valid_value() && v.value_bytes() == encoded@) by {
            assert(x.valid_value() && x.value_bytes() == encoded@);
        }
    }
    let decoded = match V::decode_value(encoded.as_slice()) {
        Ok(v) => v,
        Err(_) => {
            proof {
                assert(false);
            }
            unreached()
        },
    };
    proof {
        V::value_bytes_injective(*x, decoded);
    }
    decoded
}

} // verus!

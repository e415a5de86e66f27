//! The network's prime field, modeled by its canonical encoding.
//!
//! A [`FieldElement`] holds the canonical 32-byte little-endian encoding of an
//! element of the field; which byte strings are canonical is decided by the
//! network's own decoder, behind [`FieldElement::from_bytes_le`]. Everything
//! the rest of the library reads out of a field element — its bytes and its
//! 253-bit little-endian decomposition — is defined here over those bytes.

use vstd::prelude::*;
use crate::configuration::{FIELD_SIZE_IN_BITS, FIELD_SIZE_IN_BYTES};
use snarkvm_console_network::MainnetV0;
use snarkvm_console_types::Field;
use snarkvm_console_types::prelude::FromBytes;

verus! {

/// Whether `b` is the canonical little-endian byte encoding of an element of
/// the network's prime field: exactly the 32-byte strings that the network's
/// field decoder accepts (the value they spell is below the field modulus).
pub uninterp spec fn fe_canonical(b: Seq<u8>) -> bool;

/// Whether `b` is the well-formed encoding of one field element: 32 bytes,
/// canonical. True of the view of every `FieldElement` value.
pub open spec fn fe_wf(b: Seq<u8>) -> bool {
    b.len() == FIELD_SIZE_IN_BYTES && fe_canonical(b)
}

/// Bit `i` of a byte, little-endian: bit 0 is the least significant.
pub open spec fn byte_bit(b: u8, i: u8) -> bool {
    ((b >> i) & 1) == 1
}

/// Bit `i` of a little-endian byte string.
pub open spec fn bytes_bit(b: Seq<u8>, i: int) -> bool {
    byte_bit(b[i / 8], (i % 8) as u8)
}

/// The little-endian bit decomposition of a canonically encoded field
/// element: the first 253 bits of its byte string.
pub open spec fn fe_bits(b: Seq<u8>) -> Seq<bool> {
    Seq::new(FIELD_SIZE_IN_BITS as nat, |i: int| bytes_bit(b, i))
}

/// The little-endian bit decomposition of a `u8` (8 bits).
pub open spec fn u8_bits(x: u8) -> Seq<bool> {
    Seq::new(8, |i: int| byte_bit(x, i as u8))
}

/// The little-endian bit decomposition of a `u16` (16 bits).
pub open spec fn u16_bits(x: u16) -> Seq<bool> {
    Seq::new(16, |i: int| ((x >> (i as u16)) & 1) == 1)
}

/// An element of the network's prime field, held as its canonical 32-byte
/// little-endian encoding. Its view is that byte string.
#[derive(Debug)]
pub struct FieldElement {
    bytes: Vec<u8>,
}

impl View for FieldElement {
    type V = Seq<u8>;

    closed spec fn view(&self) -> Seq<u8> {
        self.bytes@
    }
}

impl FieldElement {
    /// Every field element in existence carries a canonical 32-byte encoding.
    #[verifier::type_invariant]
    pub(crate) open spec fn type_inv(self) -> bool {
        fe_wf(self@)
    }

    /// Decodes a field element from its canonical 32-byte little-endian
    /// encoding; returns `None` exactly on the non-canonical byte strings.
    ///
    /// Relies on `snarkvm_console_types::Field::<MainnetV0>::from_bytes_le`,
    /// which accepts a 32-byte string exactly when the value it spells is
    /// below the field modulus.
    #[verifier::external_body]
    pub fn from_bytes_le(b: &Vec<u8>) -> (r: Option<FieldElement>)
        requires
            b@.len() == FIELD_SIZE_IN_BYTES,
        ensures
            (r is Some) <==> fe_canonical(b@),
            r matches Some(f) ==> f@ == b@,
    {
        match Field::<MainnetV0>::from_bytes_le(b.as_slice()) {
            Ok(_) => Some(FieldElement { bytes: b.clone() }),
            Err(_) => None,
        }
    }

    /// The canonical 32-byte little-endian encoding.
    pub fn to_bytes_le(&self) -> (r: &Vec<u8>)
        ensures
            r@ == self@,
            r@.len() == FIELD_SIZE_IN_BYTES,
    {
        proof {
            use_type_invariant(self);
        }
        &self.bytes
    }

    /// The 253-bit little-endian bit decomposition.
    pub fn to_bits_le(&self) -> (r: Vec<bool>)
        ensures
            r@ == fe_bits(self@),
    {
        let mut r: Vec<bool> = Vec::new();
        self.write_bits_le(&mut r);
        r
    }

    /// Appends the 253-bit little-endian bit decomposition to `out`.
    pub fn write_bits_le(&self, out: &mut Vec<bool>)
        ensures
            final(out)@ == old(out)@ + fe_bits(self@),
    {
        proof {
            use_type_invariant(self);
        }
        let ghost prefix = out@;
        let mut i: usize = 0;
        while i < FIELD_SIZE_IN_BITS
            invariant
                i <= FIELD_SIZE_IN_BITS,
                self.bytes@.len() == FIELD_SIZE_IN_BYTES,
                out@ =~= prefix + fe_bits(self@).take(i as int),
            decreases FIELD_SIZE_IN_BITS - i,
        {
            let byte = self.bytes[i / 8];
            let bit = ((byte >> ((i % 8) as u8)) & 1) == 1;
            proof {
                assert(bit == fe_bits(self@)[i as int]);
                assert(fe_bits(self@).take(i + 1) =~= fe_bits(self@).take(i as int) + seq![bit]);
            }
            out.push(bit);
            i += 1;
        }
        assert(out@ =~= prefix + fe_bits(self@));
    }
}

impl Clone for FieldElement {
    /// Cloning preserves the encoding.
    fn clone(&self) -> (r: Self)
        ensures
            r@ == self@,
    {
        proof {
            use_type_invariant(self);
        }
        FieldElement { bytes: copy_bytes(&self.bytes) }
    }
}

impl PartialEq for FieldElement {
    /// Structural equality: the encodings are equal byte for byte.
    fn eq(&self, other: &Self) -> (r: bool) {
        proof {
            use_type_invariant(self);
            use_type_invariant(other);
        }
        bytes_eq(&self.bytes, &other.bytes)
    }
}

impl vstd::std_specs::cmp::PartialEqSpecImpl for FieldElement {
    open spec fn obeys_eq_spec() -> bool {
        true
    }

    open spec fn eq_spec(&self, other: &Self) -> bool {
        self@ == other@
    }
}

/// Byte-for-byte copy of a byte vector.
pub(crate) fn copy_bytes(v: &Vec<u8>) -> (r: Vec<u8>)
    ensures
        r@ == v@,
{
    let mut r: Vec<u8> = Vec::new();
    let mut i: usize = 0;
    while i < v.len()
        invariant
            i <= v@.len(),
            r@ =~= v@.take(i as int),
        decreases v@.len() - i,
    {
        r.push(v[i]);
        i += 1;
    }
    assert(r@ =~= v@);
    r
}

/// Byte-for-byte comparison of two byte vectors.
pub(crate) fn bytes_eq(a: &Vec<u8>, b: &Vec<u8>) -> (r: bool)
    ensures
        r == (a@ == b@),
{
    if a.len() != b.len() {
        return false;
    }
    let mut i: usize = 0;
    while i < a.len()
        invariant
            i <= a@.len(),
            a@.len() == b@.len(),
            forall|j: int| 0 <= j < i ==> a@[j] == b@[j],
        decreases a@.len() - i,
    {
        if a[i] != b[i] {
            return false;
        }
        i += 1;
    }
    proof {
        assert(a@ =~= b@);
    }
    true
}

/// Appends the 8-bit little-endian bit decomposition of `x` to `out`.
pub fn write_u8_bits_le(x: u8, out: &mut Vec<bool>)
    ensures
        final(out)@ == old(out)@ + u8_bits(x),
{
    let ghost prefix = out@;
    let mut i: u8 = 0;
    while i < 8
        invariant
            i <= 8,
            out@ =~= prefix + u8_bits(x).take(i as int),
        decreases 8 - i,
    {
        let bit = ((x >> i) & 1) == 1;
        proof {
            assert(bit == u8_bits(x)[i as int]);
            assert(u8_bits(x).take(i + 1) =~= u8_bits(x).take(i as int) + seq![bit]);
        }
        out.push(bit);
        i += 1;
    }
    assert(out@ =~= prefix + u8_bits(x));
}

/// Appends the 16-bit little-endian bit decomposition of `x` to `out`.
pub fn write_u16_bits_le(x: u16, out: &mut Vec<bool>)
    ensures
        final(out)@ == old(out)@ + u16_bits(x),
{
    let ghost prefix = out@;
    let mut i: u16 = 0;
    while i < 16
        invariant
            i <= 16,
            out@ =~= prefix + u16_bits(x).take(i as int),
        decreases 16 - i,
    {
        let bit = ((x >> i) & 1) == 1;
        proof {
            assert(bit == u16_bits(x)[i as int]);
            assert(u16_bits(x).take(i + 1) =~= u16_bits(x).take(i as int) + seq![bit]);
        }
        out.push(bit);
        i += 1;
    }
    assert(out@ =~= prefix + u16_bits(x));
}

} // verus!

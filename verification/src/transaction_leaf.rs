//! The leaf of the transaction tree: one transition or function.

use vstd::prelude::*;
use crate::field::{FieldElement, fe_bits, fe_wf, u8_bits, u16_bits, write_u8_bits_le, write_u16_bits_le};

verus! {

/// The abstract content of a transaction leaf.
#[verifier::ext_equal]
pub struct TransactionLeafView {
    pub variant: u8,
    pub index: u16,
    pub id: Seq<u8>,
}

/// The canonical bit encoding of a transaction leaf: the little-endian bits
/// of `variant`, `index` and `id`, concatenated in that order.
pub open spec fn transaction_leaf_bits(v: TransactionLeafView) -> Seq<bool> {
    u8_bits(v.variant) + u16_bits(v.index) + fe_bits(v.id)
}

/// A leaf of the transaction tree: the variant discriminating the leaf kind,
/// the index of the transition within its transaction, and the ID, which
/// equals the root of the transition tree this leaf stands for.
#[derive(Debug)]
pub struct TransactionLeaf {
    variant: u8,
    index: u16,
    id: FieldElement,
}

impl View for TransactionLeaf {
    type V = TransactionLeafView;

    closed spec fn view(&self) -> TransactionLeafView {
        TransactionLeafView { variant: self.variant, index: self.index, id: self.id@ }
    }
}

impl TransactionLeaf {
    /// Every leaf in existence holds a well-formed ID encoding.
    #[verifier::type_invariant]
    pub(crate) open spec fn type_inv(self) -> bool {
        fe_wf(self@.id)
    }

    /// Assembles a transaction leaf from its attributes, in declaration order.
    pub fn new(variant: u8, index: u16, id: FieldElement) -> (r: Self)
        ensures
            r@ == (TransactionLeafView { variant, index, id: id@ }),
    {
        proof {
            use_type_invariant(&id);
        }
        TransactionLeaf { variant, index, id }
    }

    /// The variant discriminating the leaf kind.
    pub fn variant(&self) -> (r: u8)
        ensures
            r == self@.variant,
    {
        self.variant
    }

    /// The index of the transition within its transaction.
    pub fn index(&self) -> (r: u16)
        ensures
            r == self@.index,
    {
        self.index
    }

    /// The ID: the root of the transition tree this leaf stands for.
    pub fn id(&self) -> (r: &FieldElement)
        ensures
            r@ == self@.id,
    {
        &self.id
    }

    /// The canonical little-endian bit encoding, the sole input to hashing.
    pub fn to_bits_le(&self) -> (r: Vec<bool>)
        ensures
            r@ == transaction_leaf_bits(self@),
    {
        let mut r: Vec<bool> = Vec::new();
        write_u8_bits_le(self.variant, &mut r);
        write_u16_bits_le(self.index, &mut r);
        self.id.write_bits_le(&mut r);
        r
    }
}

impl Clone for TransactionLeaf {
    /// Cloning preserves every attribute.
    fn clone(&self) -> (r: Self)
        ensures
            r@ == self@,
    {
        proof {
            use_type_invariant(self);
        }
        TransactionLeaf { variant: self.variant, index: self.index, id: self.id.clone() }
    }
}

impl PartialEq for TransactionLeaf {
    /// Structural equality on all three attributes.
    fn eq(&self, other: &Self) -> (r: bool) {
        self.variant == other.variant && self.index == other.index && self.id == other.id
    }
}

impl vstd::std_specs::cmp::PartialEqSpecImpl for TransactionLeaf {
    open spec fn obeys_eq_spec() -> bool {
        true
    }

    open spec fn eq_spec(&self, other: &Self) -> bool {
        self@ == other@
    }
}

} // verus!

//! The leaf of the block-header tree: one header field.

use vstd::prelude::*;
use crate::field::{FieldElement, fe_bits, fe_wf, u8_bits, write_u8_bits_le};

verus! {

/// The abstract content of a header leaf.
#[verifier::ext_equal]
pub struct HeaderLeafView {
    pub index: u8,
    pub id: Seq<u8>,
}

/// The canonical bit encoding of a header leaf: the little-endian bits of
/// `index` and `id`, concatenated in that order.
pub open spec fn header_leaf_bits(v: HeaderLeafView) -> Seq<bool> {
    u8_bits(v.index) + fe_bits(v.id)
}

/// A leaf of the block-header tree: the index of the header field, and the
/// ID, which equals the transactions root when this leaf is the
/// transactions-root header field.
#[derive(Debug)]
pub struct HeaderLeaf {
    index: u8,
    id: FieldElement,
}

impl View for HeaderLeaf {
    type V = HeaderLeafView;

    closed spec fn view(&self) -> HeaderLeafView {
        HeaderLeafView { index: self.index, id: self.id@ }
    }
}

impl HeaderLeaf {
    /// Every leaf in existence holds a well-formed ID encoding.
    #[verifier::type_invariant]
    pub(crate) open spec fn type_inv(self) -> bool {
        fe_wf(self@.id)
    }

    /// Assembles a header leaf from its attributes, in declaration order.
    pub fn new(index: u8, id: FieldElement) -> (r: Self)
        ensures
            r@ == (HeaderLeafView { index, id: id@ }),
    {
        proof {
            use_type_invariant(&id);
        }
        HeaderLeaf { index, id }
    }

    /// The index of the header field.
    pub fn index(&self) -> (r: u8)
        ensures
            r == self@.index,
    {
        self.index
    }

    /// The ID of the header field.
    pub fn id(&self) -> (r: &FieldElement)
        ensures
            r@ == self@.id,
    {
        &self.id
    }

    /// The canonical little-endian bit encoding, the sole input to hashing.
    pub fn to_bits_le(&self) -> (r: Vec<bool>)
        ensures
            r@ == header_leaf_bits(self@),
    {
        let mut r: Vec<bool> = Vec::new();
        write_u8_bits_le(self.index, &mut r);
        self.id.write_bits_le(&mut r);
        r
    }
}

impl Clone for HeaderLeaf {
    /// Cloning preserves both attributes.
    fn clone(&self) -> (r: Self)
        ensures
            r@ == self@,
    {
        proof {
            use_type_invariant(self);
        }
        HeaderLeaf { index: self.index, id: self.id.clone() }
    }
}

impl PartialEq for HeaderLeaf {
    /// Structural equality on both attributes.
    fn eq(&self, other: &Self) -> (r: bool) {
        self.index == other.index && self.id == other.id
    }
}

impl vstd::std_specs::cmp::PartialEqSpecImpl for HeaderLeaf {
    open spec fn obeys_eq_spec() -> bool {
        true
    }

    open spec fn eq_spec(&self, other: &Self) -> bool {
        self@ == other@
    }
}

} // verus!

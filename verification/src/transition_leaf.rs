//! The leaf of the transition tree: one input or output of a transition.

use vstd::prelude::*;
use crate::field::{FieldElement, fe_bits, fe_wf, u8_bits, write_u8_bits_le};

verus! {

/// The abstract content of a transition leaf.
#[verifier::ext_equal]
pub struct TransitionLeafView {
    pub version: u8,
    pub index: u8,
    pub variant: u8,
    pub id: Seq<u8>,
}

/// The canonical bit encoding of a transition leaf: the little-endian bits of
/// `version`, `index`, `variant` and `id`, concatenated in that order.
pub open spec fn transition_leaf_bits(v: TransitionLeafView) -> Seq<bool> {
    u8_bits(v.version) + u8_bits(v.index) + u8_bits(v.variant) + fe_bits(v.id)
}

/// A leaf of the transition tree: the version of the leaf layout, the index
/// of the input or output within its transition, the variant that tells the
/// kinds of input and output apart, and the commitment ID itself.
#[derive(Debug)]
pub struct TransitionLeaf {
    version: u8,
    index: u8,
    variant: u8,
    id: FieldElement,
}

impl View for TransitionLeaf {
    type V = TransitionLeafView;

    closed spec fn view(&self) -> TransitionLeafView {
        TransitionLeafView {
            version: self.version,
            index: self.index,
            variant: self.variant,
            id: self.id@,
        }
    }
}

impl TransitionLeaf {
    /// Every leaf in existence holds a well-formed ID encoding.
    #[verifier::type_invariant]
    pub(crate) open spec fn type_inv(self) -> bool {
        fe_wf(self@.id)
    }

    /// Assembles a transition leaf from its attributes, in declaration order.
    pub fn new(version: u8, index: u8, variant: u8, id: FieldElement) -> (r: Self)
        ensures
            r@ == (TransitionLeafView { version, index, variant, id: id@ }),
    {
        proof {
            use_type_invariant(&id);
        }
        TransitionLeaf { version, index, variant, id }
    }

    /// The version of the leaf layout.
    pub fn version(&self) -> (r: u8)
        ensures
            r == self@.version,
    {
        self.version
    }

    /// The index of the input or output within its transition.
    pub fn index(&self) -> (r: u8)
        ensures
            r == self@.index,
    {
        self.index
    }

    /// The variant discriminating the input/output kind.
    pub fn variant(&self) -> (r: u8)
        ensures
            r == self@.variant,
    {
        self.variant
    }

    /// The commitment ID.
    pub fn id(&self) -> (r: &FieldElement)
        ensures
            r@ == self@.id,
    {
        &self.id
    }

    /// The canonical little-endian bit encoding, the sole input to hashing.
    pub fn to_bits_le(&self) -> (r: Vec<bool>)
        ensures
            r@ == transition_leaf_bits(self@),
    {
        let mut r: Vec<bool> = Vec::new();
        write_u8_bits_le(self.version, &mut r);
        write_u8_bits_le(self.index, &mut r);
        write_u8_bits_le(self.variant, &mut r);
        self.id.write_bits_le(&mut r);
        r
    }
}

impl Clone for TransitionLeaf {
    /// Cloning preserves every attribute.
    fn clone(&self) -> (r: Self)
        ensures
            r@ == self@,
    {
        proof {
            use_type_invariant(self);
        }
        TransitionLeaf {
            version: self.version,
            index: self.index,
            variant: self.variant,
            id: self.id.clone(),
        }
    }
}

impl PartialEq for TransitionLeaf {
    /// Structural equality on all four attributes.
    fn eq(&self, other: &Self) -> (r: bool) {
        self.version == other.version && self.index == other.index
            && self.variant == other.variant && self.id == other.id
    }
}

impl vstd::std_specs::cmp::PartialEqSpecImpl for TransitionLeaf {
    open spec fn obeys_eq_spec() -> bool {
        true
    }

    open spec fn eq_spec(&self, other: &Self) -> bool {
        self@ == other@
    }
}

} // verus!

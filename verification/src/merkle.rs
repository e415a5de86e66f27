//! Merkle paths, and the trusted boundary to the network's BHP hashing.
//!
//! A [`MerklePath`] is the structural half of a Merkle-inclusion proof: the
//! sibling hashes along the root-to-leaf branch, plus the leaf index. Whether
//! a path actually authenticates a leaf under a root is decided by the
//! network's BHP hash chain, reached through the two trusted wrappers at the
//! bottom of this file.

use vstd::prelude::*;
use crate::configuration::FIELD_SIZE_IN_BYTES;
use crate::field::{FieldElement, fe_canonical, fe_wf};
use snarkvm_console_network::{MainnetV0, Network};
use snarkvm_console_types::{Field, U64};
use snarkvm_console_types::prelude::{FromBytes, ToBytes};

verus! {

/// What the network's BHP Merkle-path check returns for a path of the given
/// depth whose sibling count and leaf index are structurally in range:
/// whether hashing the leaf bits and folding in the siblings, ordered by the
/// bits of `leaf_index`, reproduces `root`.
pub uninterp spec fn bhp_merkle_verifies(
    depth: u8,
    siblings: Seq<Seq<u8>>,
    leaf_index: u64,
    root: Seq<u8>,
    leaf: Seq<bool>,
) -> bool;

/// What the network's BHP-1024 hash returns on `bits`: the canonical byte
/// encoding of the digest field element.
pub uninterp spec fn bhp1024_hash(bits: Seq<bool>) -> Seq<u8>;

/// Whether every sibling is the well-formed encoding of a field element.
/// True of the view of every `MerklePath` value.
pub open spec fn sibs_wf(s: Seq<Seq<u8>>) -> bool {
    forall|j: int| 0 <= j < s.len() ==> fe_wf(#[trigger] s[j])
}

/// Whether a leaf index fits in a tree of the given depth.
pub open spec fn index_in_range(leaf_index: u64, depth: u8) -> bool {
    depth >= 64 || leaf_index < (1u64 << (depth as u64))
}

/// The abstract content of a Merkle path: the leaf index and the canonical
/// byte encodings of the sibling hashes, in root-to-leaf order.
#[verifier::ext_equal]
pub struct MerklePathView {
    pub leaf_index: u64,
    pub siblings: Seq<Seq<u8>>,
}

/// Whether `path` is a valid depth-`depth` Merkle-inclusion proof of the leaf
/// with bit encoding `leaf` under the root encoded by `root`: the path is
/// structurally in range for that depth, and the BHP hash chain checks out.
pub open spec fn merkle_path_ok(depth: u8, path: MerklePathView, root: Seq<u8>, leaf: Seq<bool>) -> bool {
    &&& path.siblings.len() == depth
    &&& index_in_range(path.leaf_index, depth)
    &&& bhp_merkle_verifies(depth, path.siblings, path.leaf_index, root, leaf)
}

/// A Merkle path: the sibling hashes along one root-to-leaf branch, and the
/// index of the leaf. Carries no validity of its own; it is judged against a
/// root and a leaf by the constructor checks in `state_path`.
#[derive(Debug)]
pub struct MerklePath {
    leaf_index: u64,
    siblings: Vec<FieldElement>,
}

impl View for MerklePath {
    type V = MerklePathView;

    closed spec fn view(&self) -> MerklePathView {
        MerklePathView {
            leaf_index: self.leaf_index,
            siblings: self.siblings@.map_values(|f: FieldElement| f@),
        }
    }
}

impl MerklePath {
    /// Every path in existence holds well-formed sibling encodings.
    #[verifier::type_invariant]
    pub(crate) open spec fn type_inv(self) -> bool {
        sibs_wf(self@.siblings)
    }

    /// Assembles a path from its leaf index and sibling hashes.
    pub fn new(leaf_index: u64, siblings: Vec<FieldElement>) -> (r: Self)
        ensures
            r@.leaf_index == leaf_index,
            r@.siblings == siblings@.map_values(|f: FieldElement| f@),
    {
        let mut i: usize = 0;
        while i < siblings.len()
            invariant
                i <= siblings@.len(),
                forall|j: int| 0 <= j < i ==> fe_wf((#[trigger] siblings@[j])@),
            decreases siblings@.len() - i,
        {
            let s = &siblings[i];
            proof {
                use_type_invariant(s);
            }
            i += 1;
        }
        let r = MerklePath { leaf_index, siblings };
        proof {
            assert(r@.siblings =~= siblings@.map_values(|f: FieldElement| f@));
        }
        r
    }

    /// The index of the leaf this path authenticates.
    pub fn leaf_index(&self) -> (r: u64)
        ensures
            r == self@.leaf_index,
    {
        self.leaf_index
    }

    /// The sibling hashes, in root-to-leaf order.
    pub fn siblings(&self) -> (r: &Vec<FieldElement>)
        ensures
            r@.map_values(|f: FieldElement| f@) == self@.siblings,
    {
        &self.siblings
    }
}

impl Clone for MerklePath {
    /// Cloning preserves the leaf index and the siblings.
    fn clone(&self) -> (r: Self)
        ensures
            r@ == self@,
    {
        proof {
            use_type_invariant(self);
        }
        let mut siblings: Vec<FieldElement> = Vec::new();
        let mut i: usize = 0;
        while i < self.siblings.len()
            invariant
                i <= self.siblings@.len(),
                siblings@.len() == i,
                forall|j: int| 0 <= j < i ==> (#[trigger] siblings@[j])@ == self.siblings@[j]@,
            decreases self.siblings@.len() - i,
        {
            siblings.push(self.siblings[i].clone());
            i += 1;
        }
        proof {
            assert(siblings@.map_values(|f: FieldElement| f@) =~= self@.siblings);
        }
        let r = MerklePath { leaf_index: self.leaf_index, siblings };
        proof {
            assert(r@ =~= self@);
        }
        r
    }
}

impl PartialEq for MerklePath {
    /// Structural equality: same leaf index, same siblings.
    fn eq(&self, other: &Self) -> (r: bool) {
        if self.leaf_index != other.leaf_index {
            return false;
        }
        if self.siblings.len() != other.siblings.len() {
            proof {
                assert(self@.siblings.len() != other@.siblings.len());
            }
            return false;
        }
        let ghost a = self@.siblings;
        let ghost b = other@.siblings;
        let mut i: usize = 0;
        while i < self.siblings.len()
            invariant
                i <= self.siblings@.len(),
                self.siblings@.len() == other.siblings@.len(),
                a == self@.siblings,
                b == other@.siblings,
                a.len() == self.siblings@.len(),
                b.len() == other.siblings@.len(),
                forall|j: int| 0 <= j < i ==> a[j] == b[j],
            decreases self.siblings@.len() - i,
        {
            if !(self.siblings[i] == other.siblings[i]) {
                proof {
                    assert(a[i as int] != b[i as int]);
                }
                return false;
            }
            i += 1;
        }
        proof {
            assert(a =~= b);
            assert(self@ =~= other@);
        }
        true
    }
}

impl vstd::std_specs::cmp::PartialEqSpecImpl for MerklePath {
    open spec fn obeys_eq_spec() -> bool {
        true
    }

    open spec fn eq_spec(&self, other: &Self) -> bool {
        self@ == other@
    }
}

/// Runs the network's depth-`DEPTH` BHP Merkle-path check.
///
/// Relies on `MainnetV0::verify_merkle_path_bhp::<DEPTH>` (and on
/// `MerklePath::try_from`, which rejects a sibling count other than `DEPTH`
/// and a leaf index of `DEPTH` or more bits): the call returns `false` on any
/// structurally out-of-range path, and otherwise reports whether the BHP hash
/// chain from the leaf bits through the siblings reproduces the root.
#[verifier::external_body]
pub(crate) fn verify_merkle_path_bhp<const DEPTH: u8>(
    path: &MerklePath,
    root: &FieldElement,
    leaf: &Vec<bool>,
) -> (r: bool)
    requires
        1 <= DEPTH <= 64,
    ensures
        r == (path@.siblings.len() == DEPTH && index_in_range(path@.leaf_index, DEPTH)
            && bhp_merkle_verifies(DEPTH, path@.siblings, path@.leaf_index, root@, leaf@)),
        r == merkle_path_ok(DEPTH, path@, root@, leaf@),
{
    let siblings: Vec<Field<MainnetV0>> = path
        .siblings
        .iter()
        .map(|f| Field::from_bytes_le(f.to_bytes_le().as_slice()).unwrap())
        .collect();
    let root = Field::<MainnetV0>::from_bytes_le(root.to_bytes_le().as_slice()).unwrap();
    match snarkvm_console_collections::merkle_tree::MerklePath::<MainnetV0, DEPTH>::try_from((
        U64::new(path.leaf_index),
        siblings,
    )) {
        Ok(p) => MainnetV0::verify_merkle_path_bhp::<DEPTH>(&p, &root, leaf),
        Err(_) => false,
    }
}

/// Hashes up to 1024 bits with the network's BHP-1024 hash.
///
/// Relies on `MainnetV0::hash_bhp1024`, whose BHP-1024 hasher accepts any
/// input of up to 1043 bits and returns a field element of the network;
/// the digest depends on the input bits alone.
#[verifier::external_body]
pub(crate) fn hash_bhp1024(bits: &Vec<bool>) -> (r: FieldElement)
    requires
        bits@.len() <= 1024,
    ensures
        r@ == bhp1024_hash(bits@),
        r@.len() == FIELD_SIZE_IN_BYTES,
        fe_canonical(r@),
{
    let digest = MainnetV0::hash_bhp1024(bits.as_slice()).unwrap();
    FieldElement::from_bytes_le(&digest.to_bytes_le().unwrap()).unwrap()
}

} // verus!

//! The state path itself: thirteen fields, six construction checks, one
//! verifying constructor.
//!
//! A [`StatePath`] binds a transition leaf to a global state root through
//! five Merkle-inclusion proofs and one block-hash identity. The constructor
//! [`StatePath::from`] runs the six checks in order, from the transition tree
//! up to the state root, and returns the first failure; it is the only way an
//! instance comes into existence, so every instance satisfies all six.

use vstd::prelude::*;
use crate::configuration::{
    BLOCKS_DEPTH, HEADER_DEPTH, TRANSACTIONS_DEPTH, TRANSACTION_DEPTH, TRANSITION_DEPTH,
};
use crate::field::{FieldElement, fe_bits, fe_wf};
use crate::header_leaf::{HeaderLeaf, HeaderLeafView, header_leaf_bits};
use crate::merkle::{
    MerklePath, MerklePathView, bhp1024_hash, hash_bhp1024, merkle_path_ok, sibs_wf,
    verify_merkle_path_bhp,
};
use crate::transaction_leaf::{TransactionLeaf, TransactionLeafView, transaction_leaf_bits};
use crate::transition_leaf::{TransitionLeaf, TransitionLeafView, transition_leaf_bits};

verus! {

/// The abstract content of a state path: the views of its thirteen fields,
/// in declaration order.
#[verifier::ext_equal]
pub struct StatePathView {
    pub state_root: Seq<u8>,
    pub block_path: MerklePathView,
    pub block_hash: Seq<u8>,
    pub previous_block_hash: Seq<u8>,
    pub header_root: Seq<u8>,
    pub header_path: MerklePathView,
    pub header_leaf: HeaderLeafView,
    pub transactions_path: MerklePathView,
    pub transaction_id: Seq<u8>,
    pub transaction_path: MerklePathView,
    pub transaction_leaf: TransactionLeafView,
    pub transition_path: MerklePathView,
    pub transition_leaf: TransitionLeafView,
}

/// Check 1: the transition path proves the transition leaf under the
/// transaction leaf's ID (the root of the transition tree).
pub open spec fn transition_check(v: StatePathView) -> bool {
    merkle_path_ok(
        TRANSITION_DEPTH,
        v.transition_path,
        v.transaction_leaf.id,
        transition_leaf_bits(v.transition_leaf),
    )
}

/// Check 2: the transaction path proves the transaction leaf under the
/// transaction ID.
pub open spec fn transaction_check(v: StatePathView) -> bool {
    merkle_path_ok(
        TRANSACTION_DEPTH,
        v.transaction_path,
        v.transaction_id,
        transaction_leaf_bits(v.transaction_leaf),
    )
}

/// Check 3: the transactions path proves the transaction ID under the header
/// leaf's ID (the transactions root).
pub open spec fn transactions_check(v: StatePathView) -> bool {
    merkle_path_ok(
        TRANSACTIONS_DEPTH,
        v.transactions_path,
        v.header_leaf.id,
        fe_bits(v.transaction_id),
    )
}

/// Check 4: the header path proves the header leaf under the header root.
pub open spec fn header_check(v: StatePathView) -> bool {
    merkle_path_ok(HEADER_DEPTH, v.header_path, v.header_root, header_leaf_bits(v.header_leaf))
}

/// Check 5: the block hash is the BHP-1024 hash of the previous block hash's
/// bits followed by the header root's bits.
pub open spec fn block_hash_check(v: StatePathView) -> bool {
    v.block_hash == bhp1024_hash(fe_bits(v.previous_block_hash) + fe_bits(v.header_root))
}

/// Check 6: the block path proves the block hash under the state root.
pub open spec fn block_path_check(v: StatePathView) -> bool {
    merkle_path_ok(BLOCKS_DEPTH, v.block_path, v.state_root, fe_bits(v.block_hash))
}

/// All six construction checks at once: what it means for the thirteen
/// fields to form a sound state path.
pub open spec fn all_checks(v: StatePathView) -> bool {
    &&& transition_check(v)
    &&& transaction_check(v)
    &&& transactions_check(v)
    &&& header_check(v)
    &&& block_hash_check(v)
    &&& block_path_check(v)
}

/// Whether every field element a state-path content carries is well-formed:
/// the five anchors, the three leaf IDs, and every path sibling. True of the
/// view of every `StatePath` value.
pub open spec fn view_wf(v: StatePathView) -> bool {
    &&& fe_wf(v.state_root)
    &&& sibs_wf(v.block_path.siblings)
    &&& fe_wf(v.block_hash)
    &&& fe_wf(v.previous_block_hash)
    &&& fe_wf(v.header_root)
    &&& sibs_wf(v.header_path.siblings)
    &&& fe_wf(v.header_leaf.id)
    &&& sibs_wf(v.transactions_path.siblings)
    &&& fe_wf(v.transaction_id)
    &&& sibs_wf(v.transaction_path.siblings)
    &&& fe_wf(v.transaction_leaf.id)
    &&& sibs_wf(v.transition_path.siblings)
    &&& fe_wf(v.transition_leaf.id)
}

/// The abstract content of a state-path error.
#[verifier::ext_equal]
pub enum StatePathErrorView {
    TransitionPathInvalid { transition_leaf_id: Seq<u8>, transaction_leaf_id: Seq<u8> },
    TransactionPathInvalid { transaction_leaf_id: Seq<u8>, transaction_id: Seq<u8> },
    TransactionsPathInvalid { transaction_id: Seq<u8>, header_leaf_id: Seq<u8> },
    HeaderPathInvalid { header_leaf_id: Seq<u8>, block_hash: Seq<u8> },
    BlockHashMismatch { computed: Seq<u8>, stated: Seq<u8> },
    BlockPathInvalid { block_hash: Seq<u8>, state_root: Seq<u8> },
    Deserialization,
}

/// The error a failed construction or decoding reports. Each verification
/// kind carries the two identifiers of the failed check, innermost first, for
/// operator diagnosis.
#[derive(Debug)]
pub enum StatePathError {
    /// Check 1 failed: the transition leaf does not belong to the transaction
    /// leaf's transition tree.
    TransitionPathInvalid { transition_leaf_id: FieldElement, transaction_leaf_id: FieldElement },
    /// Check 2 failed: the transaction leaf does not belong to the
    /// transaction.
    TransactionPathInvalid { transaction_leaf_id: FieldElement, transaction_id: FieldElement },
    /// Check 3 failed: the transaction does not belong to the header leaf's
    /// transactions tree.
    TransactionsPathInvalid { transaction_id: FieldElement, header_leaf_id: FieldElement },
    /// Check 4 failed: the header leaf does not belong to the block header.
    HeaderPathInvalid { header_leaf_id: FieldElement, block_hash: FieldElement },
    /// Check 5 failed: the stated block hash differs from the hash computed
    /// over the previous block hash and the header root.
    BlockHashMismatch { computed: FieldElement, stated: FieldElement },
    /// Check 6 failed: the block hash does not belong to the state root's
    /// block tree.
    BlockPathInvalid { block_hash: FieldElement, state_root: FieldElement },
    /// Malformed byte or text input: a short read, a depth other than the
    /// configured one, a non-canonical field element, or trailing input.
    Deserialization,
}

impl View for StatePathError {
    type V = StatePathErrorView;

    open spec fn view(&self) -> StatePathErrorView {
        match self {
            StatePathError::TransitionPathInvalid { transition_leaf_id, transaction_leaf_id } =>
                StatePathErrorView::TransitionPathInvalid {
                    transition_leaf_id: transition_leaf_id@,
                    transaction_leaf_id: transaction_leaf_id@,
                },
            StatePathError::TransactionPathInvalid { transaction_leaf_id, transaction_id } =>
                StatePathErrorView::TransactionPathInvalid {
                    transaction_leaf_id: transaction_leaf_id@,
                    transaction_id: transaction_id@,
                },
            StatePathError::TransactionsPathInvalid { transaction_id, header_leaf_id } =>
                StatePathErrorView::TransactionsPathInvalid {
                    transaction_id: transaction_id@,
                    header_leaf_id: header_leaf_id@,
                },
            StatePathError::HeaderPathInvalid { header_leaf_id, block_hash } =>
                StatePathErrorView::HeaderPathInvalid {
                    header_leaf_id: header_leaf_id@,
                    block_hash: block_hash@,
                },
            StatePathError::BlockHashMismatch { computed, stated } =>
                StatePathErrorView::BlockHashMismatch { computed: computed@, stated: stated@ },
            StatePathError::BlockPathInvalid { block_hash, state_root } =>
                StatePathErrorView::BlockPathInvalid {
                    block_hash: block_hash@,
                    state_root: state_root@,
                },
            StatePathError::Deserialization => StatePathErrorView::Deserialization,
        }
    }
}

/// The error the constructor reports on the given fields: that of the first
/// of checks 1 through 6 to fail, with the two identifiers of that check.
/// Meaningful only when `all_checks(v)` does not hold.
pub open spec fn first_failing_error(v: StatePathView) -> StatePathErrorView {
    if !transition_check(v) {
        StatePathErrorView::TransitionPathInvalid {
            transition_leaf_id: v.transition_leaf.id,
            transaction_leaf_id: v.transaction_leaf.id,
        }
    } else if !transaction_check(v) {
        StatePathErrorView::TransactionPathInvalid {
            transaction_leaf_id: v.transaction_leaf.id,
            transaction_id: v.transaction_id,
        }
    } else if !transactions_check(v) {
        StatePathErrorView::TransactionsPathInvalid {
            transaction_id: v.transaction_id,
            header_leaf_id: v.header_leaf.id,
        }
    } else if !header_check(v) {
        StatePathErrorView::HeaderPathInvalid {
            header_leaf_id: v.header_leaf.id,
            block_hash: v.block_hash,
        }
    } else if !block_hash_check(v) {
        StatePathErrorView::BlockHashMismatch {
            computed: bhp1024_hash(fe_bits(v.previous_block_hash) + fe_bits(v.header_root)),
            stated: v.block_hash,
        }
    } else {
        StatePathErrorView::BlockPathInvalid { block_hash: v.block_hash, state_root: v.state_root }
    }
}

/// Tamper localization for the transition leaf: replacing it touches check
/// 1 alone, so if the altered fields no longer pass all checks, the error
/// reported is the transition path's, carrying the altered leaf's ID.
pub proof fn lemma_tamper_transition_leaf(v: StatePathView, leaf: TransitionLeafView)
    requires
        all_checks(v),
    ensures
        ({
            let v2 = StatePathView { transition_leaf: leaf, ..v };
            !all_checks(v2) ==> first_failing_error(v2)
                == (StatePathErrorView::TransitionPathInvalid {
                transition_leaf_id: leaf.id,
                transaction_leaf_id: v.transaction_leaf.id,
            })
        }),
{
}

/// Tamper localization for the header leaf, ID kept: a header leaf with the
/// same ID but another index touches check 4 alone — checks 1 through 3 do
/// not read the index — so if the altered fields no longer pass all checks,
/// the error reported is the header path's.
pub proof fn lemma_swap_header_leaf(v: StatePathView, leaf: HeaderLeafView)
    requires
        all_checks(v),
        leaf.id == v.header_leaf.id,
    ensures
        ({
            let v2 = StatePathView { header_leaf: leaf, ..v };
            !all_checks(v2) ==> first_failing_error(v2)
                == (StatePathErrorView::HeaderPathInvalid {
                header_leaf_id: leaf.id,
                block_hash: v.block_hash,
            })
        }),
{
}

/// Tamper localization for the previous block hash: replacing it touches
/// check 5 alone — check 6 reads only the block hash, block path and state
/// root — so if the altered fields no longer pass all checks, the error
/// reported is the block-hash mismatch, carrying the recomputed and the
/// stated hash.
pub proof fn lemma_tamper_previous_block_hash(v: StatePathView, p: Seq<u8>)
    requires
        all_checks(v),
    ensures
        ({
            let v2 = StatePathView { previous_block_hash: p, ..v };
            !all_checks(v2) ==> first_failing_error(v2)
                == (StatePathErrorView::BlockHashMismatch {
                computed: bhp1024_hash(fe_bits(p) + fe_bits(v.header_root)),
                stated: v.block_hash,
            })
        }),
{
}

/// Tamper localization for the state root: replacing it touches check 6
/// alone, so if the altered fields no longer pass all checks, the error
/// reported is the block path's.
pub proof fn lemma_tamper_state_root(v: StatePathView, r: Seq<u8>)
    requires
        all_checks(v),
    ensures
        ({
            let v2 = StatePathView { state_root: r, ..v };
            !all_checks(v2) ==> first_failing_error(v2)
                == (StatePathErrorView::BlockPathInvalid {
                block_hash: v.block_hash,
                state_root: r,
            })
        }),
{
}

/// A state path: the certificate that one transition leaf belongs, through
/// five Merkle trees and one block-hash identity, to a global state root.
/// Immutable after construction; every instance satisfies all six checks.
#[derive(Debug)]
pub struct StatePath {
    state_root: FieldElement,
    block_path: MerklePath,
    block_hash: FieldElement,
    previous_block_hash: FieldElement,
    header_root: FieldElement,
    header_path: MerklePath,
    header_leaf: HeaderLeaf,
    transactions_path: MerklePath,
    transaction_id: FieldElement,
    transaction_path: MerklePath,
    transaction_leaf: TransactionLeaf,
    transition_path: MerklePath,
    transition_leaf: TransitionLeaf,
}

impl View for StatePath {
    type V = StatePathView;

    closed spec fn view(&self) -> StatePathView {
        StatePathView {
            state_root: self.state_root@,
            block_path: self.block_path@,
            block_hash: self.block_hash@,
            previous_block_hash: self.previous_block_hash@,
            header_root: self.header_root@,
            header_path: self.header_path@,
            header_leaf: self.header_leaf@,
            transactions_path: self.transactions_path@,
            transaction_id: self.transaction_id@,
            transaction_path: self.transaction_path@,
            transaction_leaf: self.transaction_leaf@,
            transition_path: self.transition_path@,
            transition_leaf: self.transition_leaf@,
        }
    }
}

impl StatePath {
    /// Every state path in existence satisfies all six checks.
    #[verifier::type_invariant]
    pub(crate) open spec fn type_inv(self) -> bool {
        all_checks(self@) && view_wf(self@)
    }

    /// Initializes a new state path from its thirteen fields, running checks
    /// 1 through 6 in order: on success the fields are moved into the new
    /// record unchanged; on failure the error of the first failing check is
    /// returned, carrying that check's two identifiers.
    pub fn from(
        state_root: FieldElement,
        block_path: MerklePath,
        block_hash: FieldElement,
        previous_block_hash: FieldElement,
        header_root: FieldElement,
        header_path: MerklePath,
        header_leaf: HeaderLeaf,
        transactions_path: MerklePath,
        transaction_id: FieldElement,
        transaction_path: MerklePath,
        transaction_leaf: TransactionLeaf,
        transition_path: MerklePath,
        transition_leaf: TransitionLeaf,
    ) -> (r: Result<StatePath, StatePathError>)
        ensures
            ({
                let v = StatePathView {
                    state_root: state_root@,
                    block_path: block_path@,
                    block_hash: block_hash@,
                    previous_block_hash: previous_block_hash@,
                    header_root: header_root@,
                    header_path: header_path@,
                    header_leaf: header_leaf@,
                    transactions_path: transactions_path@,
                    transaction_id: transaction_id@,
                    transaction_path: transaction_path@,
                    transaction_leaf: transaction_leaf@,
                    transition_path: transition_path@,
                    transition_leaf: transition_leaf@,
                };
                match r {
                    Ok(sp) => all_checks(v) && view_wf(v) && sp@ == v,
                    Err(e) => !all_checks(v) && e@ == first_failing_error(v),
                }
            }),
    {
        let ghost v = StatePathView {
            state_root: state_root@,
            block_path: block_path@,
            block_hash: block_hash@,
            previous_block_hash: previous_block_hash@,
            header_root: header_root@,
            header_path: header_path@,
            header_leaf: header_leaf@,
            transactions_path: transactions_path@,
            transaction_id: transaction_id@,
            transaction_path: transaction_path@,
            transaction_leaf: transaction_leaf@,
            transition_path: transition_path@,
            transition_leaf: transition_leaf@,
        };
        proof {
            use_type_invariant(&state_root);
            use_type_invariant(&block_path);
            use_type_invariant(&block_hash);
            use_type_invariant(&previous_block_hash);
            use_type_invariant(&header_root);
            use_type_invariant(&header_path);
            use_type_invariant(&header_leaf);
            use_type_invariant(&transactions_path);
            use_type_invariant(&transaction_id);
            use_type_invariant(&transaction_path);
            use_type_invariant(&transaction_leaf);
            use_type_invariant(&transition_path);
            use_type_invariant(&transition_leaf);
        }
        // Check 1: the transition path is valid.
        let transition_bits = transition_leaf.to_bits_le();
        if !verify_merkle_path_bhp::<TRANSITION_DEPTH>(
            &transition_path,
            transaction_leaf.id(),
            &transition_bits,
        ) {
            return Err(StatePathError::TransitionPathInvalid {
                transition_leaf_id: transition_leaf.id().clone(),
                transaction_leaf_id: transaction_leaf.id().clone(),
            });
        }
        // Check 2: the transaction path is valid.
        let transaction_bits = transaction_leaf.to_bits_le();
        if !verify_merkle_path_bhp::<TRANSACTION_DEPTH>(
            &transaction_path,
            &transaction_id,
            &transaction_bits,
        ) {
            return Err(StatePathError::TransactionPathInvalid {
                transaction_leaf_id: transaction_leaf.id().clone(),
                transaction_id: transaction_id.clone(),
            });
        }
        // Check 3: the transactions path is valid.
        let transaction_id_bits = transaction_id.to_bits_le();
        if !verify_merkle_path_bhp::<TRANSACTIONS_DEPTH>(
            &transactions_path,
            header_leaf.id(),
            &transaction_id_bits,
        ) {
            return Err(StatePathError::TransactionsPathInvalid {
                transaction_id: transaction_id.clone(),
                header_leaf_id: header_leaf.id().clone(),
            });
        }
        // Check 4: the header path is valid.
        let header_bits = header_leaf.to_bits_le();
        if !verify_merkle_path_bhp::<HEADER_DEPTH>(&header_path, &header_root, &header_bits) {
            return Err(StatePathError::HeaderPathInvalid {
                header_leaf_id: header_leaf.id().clone(),
                block_hash: block_hash.clone(),
            });
        }
        // Check 5: the block hash is correct.
        let mut preimage = previous_block_hash.to_bits_le();
        header_root.write_bits_le(&mut preimage);
        let computed = hash_bhp1024(&preimage);
        if !(computed == block_hash) {
            return Err(StatePathError::BlockHashMismatch { computed, stated: block_hash });
        }
        // Check 6: the state root is correct.
        let block_hash_bits = block_hash.to_bits_le();
        if !verify_merkle_path_bhp::<BLOCKS_DEPTH>(&block_path, &state_root, &block_hash_bits) {
            return Err(StatePathError::BlockPathInvalid {
                block_hash: block_hash.clone(),
                state_root: state_root.clone(),
            });
        }
        let sp = StatePath {
            state_root,
            block_path,
            block_hash,
            previous_block_hash,
            header_root,
            header_path,
            header_leaf,
            transactions_path,
            transaction_id,
            transaction_path,
            transaction_leaf,
            transition_path,
            transition_leaf,
        };
        proof {
            assert(sp@ =~= v);
        }
        Ok(sp)
    }

    /// Returns the state root.
    pub fn state_root(&self) -> (r: &FieldElement)
        ensures
            r@ == self@.state_root,
    {
        &self.state_root
    }

    /// Returns the block path.
    pub fn block_path(&self) -> (r: &MerklePath)
        ensures
            r@ == self@.block_path,
    {
        &self.block_path
    }

    /// Returns the block hash.
    pub fn block_hash(&self) -> (r: &FieldElement)
        ensures
            r@ == self@.block_hash,
    {
        &self.block_hash
    }

    /// Returns the previous block hash.
    pub fn previous_block_hash(&self) -> (r: &FieldElement)
        ensures
            r@ == self@.previous_block_hash,
    {
        &self.previous_block_hash
    }

    /// Returns the block header root.
    pub fn header_root(&self) -> (r: &FieldElement)
        ensures
            r@ == self@.header_root,
    {
        &self.header_root
    }

    /// Returns the header path.
    pub fn header_path(&self) -> (r: &MerklePath)
        ensures
            r@ == self@.header_path,
    {
        &self.header_path
    }

    /// Returns the header leaf.
    pub fn header_leaf(&self) -> (r: &HeaderLeaf)
        ensures
            r@ == self@.header_leaf,
    {
        &self.header_leaf
    }

    /// Returns the transactions path.
    pub fn transactions_path(&self) -> (r: &MerklePath)
        ensures
            r@ == self@.transactions_path,
    {
        &self.transactions_path
    }

    /// Returns the transaction ID.
    pub fn transaction_id(&self) -> (r: &FieldElement)
        ensures
            r@ == self@.transaction_id,
    {
        &self.transaction_id
    }

    /// Returns the Merkle path for the transaction leaf.
    pub fn transaction_path(&self) -> (r: &MerklePath)
        ensures
            r@ == self@.transaction_path,
    {
        &self.transaction_path
    }

    /// Returns the transaction leaf.
    pub fn transaction_leaf(&self) -> (r: &TransactionLeaf)
        ensures
            r@ == self@.transaction_leaf,
    {
        &self.transaction_leaf
    }

    /// Returns the Merkle path for the transition leaf.
    pub fn transition_path(&self) -> (r: &MerklePath)
        ensures
            r@ == self@.transition_path,
    {
        &self.transition_path
    }

    /// Returns the transition leaf.
    pub fn transition_leaf(&self) -> (r: &TransitionLeaf)
        ensures
            r@ == self@.transition_leaf,
    {
        &self.transition_leaf
    }
}

impl Clone for StatePath {
    /// Cloning preserves all thirteen fields.
    fn clone(&self) -> (r: Self)
        ensures
            r@ == self@,
    {
        proof {
            use_type_invariant(self);
        }
        let state_root = self.state_root.clone();
        let block_path = self.block_path.clone();
        let block_hash = self.block_hash.clone();
        let previous_block_hash = self.previous_block_hash.clone();
        let header_root = self.header_root.clone();
        let header_path = self.header_path.clone();
        let header_leaf = self.header_leaf.clone();
        let transactions_path = self.transactions_path.clone();
        let transaction_id = self.transaction_id.clone();
        let transaction_path = self.transaction_path.clone();
        let transaction_leaf = self.transaction_leaf.clone();
        let transition_path = self.transition_path.clone();
        let transition_leaf = self.transition_leaf.clone();
        proof {
            assert((StatePathView {
                state_root: state_root@,
                block_path: block_path@,
                block_hash: block_hash@,
                previous_block_hash: previous_block_hash@,
                header_root: header_root@,
                header_path: header_path@,
                header_leaf: header_leaf@,
                transactions_path: transactions_path@,
                transaction_id: transaction_id@,
                transaction_path: transaction_path@,
                transaction_leaf: transaction_leaf@,
                transition_path: transition_path@,
                transition_leaf: transition_leaf@,
            }) =~= self@);
        }
        StatePath {
            state_root,
            block_path,
            block_hash,
            previous_block_hash,
            header_root,
            header_path,
            header_leaf,
            transactions_path,
            transaction_id,
            transaction_path,
            transaction_leaf,
            transition_path,
            transition_leaf,
        }
    }
}

impl PartialEq for StatePath {
    /// Structural equality on all thirteen fields.
    fn eq(&self, other: &Self) -> (r: bool) {
        let r = self.state_root == other.state_root && self.block_path == other.block_path
            && self.block_hash == other.block_hash
            && self.previous_block_hash == other.previous_block_hash
            && self.header_root == other.header_root && self.header_path == other.header_path
            && self.header_leaf == other.header_leaf
            && self.transactions_path == other.transactions_path
            && self.transaction_id == other.transaction_id
            && self.transaction_path == other.transaction_path
            && self.transaction_leaf == other.transaction_leaf
            && self.transition_path == other.transition_path
            && self.transition_leaf == other.transition_leaf;
        proof {
            if r {
                assert(self@ =~= other@);
            }
        }
        r
    }
}

impl vstd::std_specs::cmp::PartialEqSpecImpl for StatePath {
    open spec fn obeys_eq_spec() -> bool {
        true
    }

    open spec fn eq_spec(&self, other: &Self) -> bool {
        self@ == other@
    }
}

} // verus!

use snarkvm_console_network::prelude::{FromBytes, TestRng, ToBits, ToBytes, Uniform};
use snarkvm_console_network::{MainnetV0, Network};
use snarkvm_console_types::Field;
use state_path::configuration::{
    BLOCKS_DEPTH, HEADER_DEPTH, TRANSACTIONS_DEPTH, TRANSACTION_DEPTH, TRANSITION_DEPTH,
};
use state_path::{
    FieldElement, HeaderLeaf, MerklePath, StatePath, StatePathError, TransactionLeaf,
    TransitionLeaf,
};

fn fe_from_field(f: &Field<MainnetV0>) -> FieldElement {
    FieldElement::from_bytes_le(&f.to_bytes_le().unwrap()).unwrap()
}

fn field_from_fe(f: &FieldElement) -> Field<MainnetV0> {
    Field::<MainnetV0>::from_bytes_le(f.to_bytes_le()).unwrap()
}

fn rand_fe(rng: &mut TestRng) -> FieldElement {
    fe_from_field(&Field::<MainnetV0>::rand(rng))
}

fn convert_path<const D: u8>(
    p: &snarkvm_console_collections::merkle_tree::MerklePath<MainnetV0, D>,
) -> MerklePath {
    let siblings: Vec<FieldElement> = p.siblings().iter().map(fe_from_field).collect();
    MerklePath::new(*p.leaf_index(), siblings)
}

struct SampleFields {
    state_root: FieldElement,
    block_path: MerklePath,
    block_hash: FieldElement,
    previous_block_hash: FieldElement,
    header_root: FieldElement,
    header_path: MerklePath,
    header_leaf: HeaderLeaf,
    transactions_path: MerklePath,
    transaction_id: FieldElement,
    transaction_path: MerklePath,
    transaction_leaf: TransactionLeaf,
    transition_path: MerklePath,
    transition_leaf: TransitionLeaf,
}

impl SampleFields {
    fn build(self) -> Result<StatePath, StatePathError> {
        StatePath::from(
            self.state_root,
            self.block_path,
            self.block_hash,
            self.previous_block_hash,
            self.header_root,
            self.header_path,
            self.header_leaf,
            self.transactions_path,
            self.transaction_id,
            self.transaction_path,
            self.transaction_leaf,
            self.transition_path,
            self.transition_leaf,
        )
    }
}

/// Samples a consistent set of state-path fields: each of the five trees is
/// built from a single leaf, and the block hash is derived from the previous
/// block hash and the header root.
fn sample_fields(rng: &mut TestRng) -> SampleFields {
    // Construct the transition path and transition leaf.
    let transition_leaf = TransitionLeaf::new(0, 0, u8::rand(rng), rand_fe(rng));
    let transition_tree = MainnetV0::merkle_tree_bhp::<TRANSITION_DEPTH>(&[transition_leaf
        .to_bits_le()])
        .unwrap();
    let transition_id = fe_from_field(transition_tree.root());
    let transition_path =
        convert_path(&transition_tree.prove(0, &transition_leaf.to_bits_le()).unwrap());

    // Construct the transaction path and transaction leaf.
    let transaction_leaf = TransactionLeaf::new(u8::rand(rng), 0, transition_id);
    let transaction_tree = MainnetV0::merkle_tree_bhp::<TRANSACTION_DEPTH>(&[transaction_leaf
        .to_bits_le()])
        .unwrap();
    let transaction_id = fe_from_field(transaction_tree.root());
    let transaction_path =
        convert_path(&transaction_tree.prove(0, &transaction_leaf.to_bits_le()).unwrap());

    // Construct the transactions path.
    let transactions_tree =
        MainnetV0::merkle_tree_bhp::<TRANSACTIONS_DEPTH>(&[transaction_id.to_bits_le()]).unwrap();
    let transactions_root = fe_from_field(transactions_tree.root());
    let transactions_path =
        convert_path(&transactions_tree.prove(0, &transaction_id.to_bits_le()).unwrap());

    // Construct the block header path.
    let header_leaf = HeaderLeaf::new(0, transactions_root);
    let header_tree =
        MainnetV0::merkle_tree_bhp::<HEADER_DEPTH>(&[header_leaf.to_bits_le()]).unwrap();
    let header_root = fe_from_field(header_tree.root());
    let header_path = convert_path(&header_tree.prove(0, &header_leaf.to_bits_le()).unwrap());

    // Derive the block hash from the previous block hash and the header root.
    let previous_block_hash = rand_fe(rng);
    let mut preimage = previous_block_hash.to_bits_le();
    preimage.extend(header_root.to_bits_le());
    let block_hash = fe_from_field(&MainnetV0::hash_bhp1024(&preimage).unwrap());

    // Construct the state root and block path.
    let block_tree =
        MainnetV0::merkle_tree_bhp::<BLOCKS_DEPTH>(&[block_hash.to_bits_le()]).unwrap();
    let state_root = fe_from_field(block_tree.root());
    let block_path = convert_path(&block_tree.prove(0, &block_hash.to_bits_le()).unwrap());

    SampleFields {
        state_root,
        block_path,
        block_hash,
        previous_block_hash,
        header_root,
        header_path,
        header_leaf,
        transactions_path,
        transaction_id,
        transaction_path,
        transaction_leaf,
        transition_path,
        transition_leaf,
    }
}

fn sample_state_path(rng: &mut TestRng) -> StatePath {
    sample_fields(rng).build().unwrap()
}

fn refields(sp: &StatePath) -> SampleFields {
    SampleFields {
        state_root: sp.state_root().clone(),
        block_path: sp.block_path().clone(),
        block_hash: sp.block_hash().clone(),
        previous_block_hash: sp.previous_block_hash().clone(),
        header_root: sp.header_root().clone(),
        header_path: sp.header_path().clone(),
        header_leaf: sp.header_leaf().clone(),
        transactions_path: sp.transactions_path().clone(),
        transaction_id: sp.transaction_id().clone(),
        transaction_path: sp.transaction_path().clone(),
        transaction_leaf: sp.transaction_leaf().clone(),
        transition_path: sp.transition_path().clone(),
        transition_leaf: sp.transition_leaf().clone(),
    }
}

#[test]
fn test_happy_path_single_leaf_trees() {
    let rng = &mut TestRng::default();
    let sp = sample_state_path(rng);
    let bytes = sp.to_bytes_le();
    let decoded = StatePath::from_bytes_le(&bytes).unwrap();
    assert_eq!(sp, decoded);
}

#[test]
fn test_construction_returns_the_given_fields() {
    let rng = &mut TestRng::default();
    let sp = sample_state_path(rng);
    let rebuilt = refields(&sp).build().unwrap();
    assert_eq!(sp, rebuilt);
}

#[test]
fn test_accessors_return_the_given_values() {
    let rng = &mut TestRng::default();
    let f = sample_fields(rng);
    let state_root = f.state_root.clone();
    let block_hash = f.block_hash.clone();
    let previous_block_hash = f.previous_block_hash.clone();
    let header_root = f.header_root.clone();
    let header_leaf = f.header_leaf.clone();
    let transaction_id = f.transaction_id.clone();
    let transaction_leaf = f.transaction_leaf.clone();
    let transition_leaf = f.transition_leaf.clone();
    let block_path = f.block_path.clone();
    let header_path = f.header_path.clone();
    let transactions_path = f.transactions_path.clone();
    let transaction_path = f.transaction_path.clone();
    let transition_path = f.transition_path.clone();
    let sp = f.build().unwrap();
    assert_eq!(sp.state_root(), &state_root);
    assert_eq!(sp.block_path(), &block_path);
    assert_eq!(sp.block_hash(), &block_hash);
    assert_eq!(sp.previous_block_hash(), &previous_block_hash);
    assert_eq!(sp.header_root(), &header_root);
    assert_eq!(sp.header_path(), &header_path);
    assert_eq!(sp.header_leaf(), &header_leaf);
    assert_eq!(sp.transactions_path(), &transactions_path);
    assert_eq!(sp.transaction_id(), &transaction_id);
    assert_eq!(sp.transaction_path(), &transaction_path);
    assert_eq!(sp.transaction_leaf(), &transaction_leaf);
    assert_eq!(sp.transition_path(), &transition_path);
    assert_eq!(sp.transition_leaf(), &transition_leaf);
}

#[test]
fn test_serialize_is_deterministic() {
    let rng = &mut TestRng::default();
    let sp = sample_state_path(rng);
    assert_eq!(sp.to_bytes_le(), sp.to_bytes_le());
}

#[test]
fn test_byte_round_trip_twice() {
    let rng = &mut TestRng::default();
    let sp = sample_state_path(rng);
    let bytes = sp.to_bytes_le();
    let decoded = StatePath::from_bytes_le(&bytes).unwrap();
    assert_eq!(bytes, decoded.to_bytes_le());
}

#[test]
fn test_text_round_trip() {
    let rng = &mut TestRng::default();
    let sp = sample_state_path(rng);
    let text = sp.to_text();
    let parsed = StatePath::from_text(text.as_str()).unwrap();
    assert_eq!(sp, parsed);
}

#[test]
fn test_text_round_trip_stability() {
    let rng = &mut TestRng::default();
    let sp = sample_state_path(rng);
    let first = sp.to_text();
    let parsed = StatePath::from_text(first.as_str()).unwrap();
    let second = parsed.to_text();
    assert_eq!(first, second);
}

#[test]
fn test_wrong_transition_leaf() {
    let rng = &mut TestRng::default();
    let sp = sample_state_path(rng);
    let mut f = refields(&sp);
    f.transition_leaf = TransitionLeaf::new(
        sp.transition_leaf().version(),
        sp.transition_leaf().index(),
        sp.transition_leaf().variant(),
        rand_fe(rng),
    );
    assert!(matches!(f.build(), Err(StatePathError::TransitionPathInvalid { .. })));
}

#[test]
fn test_wrong_transaction_leaf_variant() {
    let rng = &mut TestRng::default();
    let sp = sample_state_path(rng);
    let mut f = refields(&sp);
    f.transaction_leaf = TransactionLeaf::new(
        sp.transaction_leaf().variant().wrapping_add(1),
        sp.transaction_leaf().index(),
        sp.transaction_leaf().id().clone(),
    );
    assert!(matches!(f.build(), Err(StatePathError::TransactionPathInvalid { .. })));
}

#[test]
fn test_wrong_header_leaf_id() {
    let rng = &mut TestRng::default();
    let sp = sample_state_path(rng);
    let mut f = refields(&sp);
    f.header_leaf = HeaderLeaf::new(sp.header_leaf().index(), rand_fe(rng));
    assert!(matches!(f.build(), Err(StatePathError::TransactionsPathInvalid { .. })));
}

#[test]
fn test_swapped_header_leaves() {
    let rng = &mut TestRng::default();
    let sp = sample_state_path(rng);
    // A header leaf distinct from the original but with the same ID: checks
    // 1 through 3 still pass, and the header path no longer proves the leaf.
    let mut f = refields(&sp);
    f.header_leaf = HeaderLeaf::new(
        sp.header_leaf().index().wrapping_add(1),
        sp.header_leaf().id().clone(),
    );
    assert!(matches!(f.build(), Err(StatePathError::HeaderPathInvalid { .. })));
}

#[test]
fn test_wrong_previous_block_hash() {
    let rng = &mut TestRng::default();
    let sp = sample_state_path(rng);
    let mut f = refields(&sp);
    f.previous_block_hash = rand_fe(rng);
    // Check 5 fires before check 6: the kind is the hash mismatch, not the
    // block path.
    assert!(matches!(f.build(), Err(StatePathError::BlockHashMismatch { .. })));
}

#[test]
fn test_wrong_state_root() {
    let rng = &mut TestRng::default();
    let sp = sample_state_path(rng);
    let mut f = refields(&sp);
    f.state_root = rand_fe(rng);
    assert!(matches!(f.build(), Err(StatePathError::BlockPathInvalid { .. })));
}

#[test]
fn test_truncated_bytes_are_rejected() {
    let rng = &mut TestRng::default();
    let sp = sample_state_path(rng);
    let mut bytes = sp.to_bytes_le();
    bytes.pop();
    assert!(matches!(
        StatePath::from_bytes_le(&bytes),
        Err(StatePathError::Deserialization)
    ));
}

#[test]
fn test_trailing_bytes_are_rejected() {
    let rng = &mut TestRng::default();
    let sp = sample_state_path(rng);
    let mut bytes = sp.to_bytes_le();
    bytes.push(0);
    assert!(matches!(
        StatePath::from_bytes_le(&bytes),
        Err(StatePathError::Deserialization)
    ));
}

#[test]
fn test_non_canonical_field_bytes_are_rejected() {
    let rng = &mut TestRng::default();
    let sp = sample_state_path(rng);
    let mut bytes = sp.to_bytes_le();
    // Overwrite the state root with an encoding above the field modulus.
    for byte in bytes.iter_mut().take(32) {
        *byte = 0xff;
    }
    assert!(matches!(
        StatePath::from_bytes_le(&bytes),
        Err(StatePathError::Deserialization)
    ));
}

#[test]
fn test_garbage_text_is_rejected() {
    assert!(matches!(
        StatePath::from_text("not a state path"),
        Err(StatePathError::Deserialization)
    ));
    assert!(matches!(StatePath::from_text(""), Err(StatePathError::Deserialization)));
}

#[test]
fn test_field_element_rejects_non_canonical_bytes() {
    let all_ones = vec![0xffu8; 32];
    assert!(FieldElement::from_bytes_le(&all_ones).is_none());
    let zero = vec![0u8; 32];
    let fe = FieldElement::from_bytes_le(&zero).unwrap();
    assert_eq!(fe.to_bytes_le(), &zero);
}

#[test]
fn test_field_element_bits_match_the_network() {
    let rng = &mut TestRng::default();
    let field = Field::<MainnetV0>::rand(rng);
    let fe = fe_from_field(&field);
    assert_eq!(fe.to_bits_le(), field.to_bits_le());
    assert_eq!(fe.to_bits_le().len(), 253);
}

#[test]
fn test_transition_leaf_bit_layout() {
    let rng = &mut TestRng::default();
    let id = rand_fe(rng);
    let leaf = TransitionLeaf::new(1, 2, 3, id.clone());
    let bits = leaf.to_bits_le();
    assert_eq!(bits.len(), 8 + 8 + 8 + 253);
    // version = 1: bit 0 set, bits 1..8 clear.
    assert!(bits[0]);
    assert!(!bits[1]);
    // index = 2: bit 9 set.
    assert!(!bits[8]);
    assert!(bits[9]);
    // variant = 3: bits 16 and 17 set.
    assert!(bits[16]);
    assert!(bits[17]);
    assert!(!bits[18]);
    assert_eq!(&bits[24..], &id.to_bits_le()[..]);
}

#[test]
fn test_transaction_leaf_bit_layout() {
    let rng = &mut TestRng::default();
    let id = rand_fe(rng);
    let leaf = TransactionLeaf::new(5, 0x0102, id.clone());
    let bits = leaf.to_bits_le();
    assert_eq!(bits.len(), 8 + 16 + 253);
    // variant = 5: bits 0 and 2 set.
    assert!(bits[0]);
    assert!(!bits[1]);
    assert!(bits[2]);
    // index = 0x0102, little-endian: bit 1 (value 2) and bit 8 (value 256).
    assert!(bits[8 + 1]);
    assert!(bits[8 + 8]);
    assert_eq!(&bits[24..], &id.to_bits_le()[..]);
}

#[test]
fn test_header_leaf_bit_layout() {
    let rng = &mut TestRng::default();
    let id = rand_fe(rng);
    let leaf = HeaderLeaf::new(4, id.clone());
    let bits = leaf.to_bits_le();
    assert_eq!(bits.len(), 8 + 253);
    assert!(!bits[0]);
    assert!(bits[2]);
    assert_eq!(&bits[8..], &id.to_bits_le()[..]);
}

#[test]
fn test_byte_layout_starts_with_state_root() {
    let rng = &mut TestRng::default();
    let sp = sample_state_path(rng);
    let bytes = sp.to_bytes_le();
    assert_eq!(&bytes[..32], &sp.state_root().to_bytes_le()[..]);
    // Then the block path: its sibling count, which is the block tree depth.
    assert_eq!(bytes[32], BLOCKS_DEPTH);
}

#[test]
fn test_merkle_path_accessors() {
    let rng = &mut TestRng::default();
    let sibs = vec![rand_fe(rng), rand_fe(rng)];
    let path = MerklePath::new(7, sibs.clone());
    assert_eq!(path.leaf_index(), 7);
    assert_eq!(path.siblings(), &sibs);
}

#[test]
fn test_leaf_accessors() {
    let rng = &mut TestRng::default();
    let id = rand_fe(rng);
    let tn = TransitionLeaf::new(9, 8, 7, id.clone());
    assert_eq!(tn.version(), 9);
    assert_eq!(tn.index(), 8);
    assert_eq!(tn.variant(), 7);
    assert_eq!(tn.id(), &id);
    let tx = TransactionLeaf::new(3, 515, id.clone());
    assert_eq!(tx.variant(), 3);
    assert_eq!(tx.index(), 515);
    assert_eq!(tx.id(), &id);
    let hl = HeaderLeaf::new(2, id.clone());
    assert_eq!(hl.index(), 2);
    assert_eq!(hl.id(), &id);
}

#[test]
fn test_error_carries_the_offending_identifiers() {
    let rng = &mut TestRng::default();
    let sp = sample_state_path(rng);
    let bad_id = rand_fe(rng);
    let mut f = refields(&sp);
    f.transition_leaf = TransitionLeaf::new(
        sp.transition_leaf().version(),
        sp.transition_leaf().index(),
        sp.transition_leaf().variant(),
        bad_id.clone(),
    );
    match f.build() {
        Err(StatePathError::TransitionPathInvalid { transition_leaf_id, transaction_leaf_id }) => {
            assert_eq!(transition_leaf_id, bad_id);
            assert_eq!(&transaction_leaf_id, sp.transaction_leaf().id());
        }
        other => panic!("expected a transition path error, got {:?}", other.map(|_| ())),
    }
}

#[test]
fn test_block_hash_mismatch_carries_computed_and_stated() {
    let rng = &mut TestRng::default();
    let sp = sample_state_path(rng);
    let mut f = refields(&sp);
    let stated = rand_fe(rng);
    f.block_hash = stated.clone();
    match f.build() {
        Err(StatePathError::BlockHashMismatch { computed, stated: reported }) => {
            assert_eq!(&computed, sp.block_hash());
            assert_eq!(reported, stated);
        }
        other => panic!("expected a block hash mismatch, got {:?}", other.map(|_| ())),
    }
}

#[test]
fn test_distinct_paths_serialize_differently() {
    let rng = &mut TestRng::default();
    let a = sample_state_path(rng);
    let b = sample_state_path(rng);
    assert_ne!(a, b);
    assert_ne!(a.to_bytes_le(), b.to_bytes_le());
    assert_ne!(a.to_text(), b.to_text());
}

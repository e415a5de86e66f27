//! A state-path authenticator: a certificate that binds one transition leaf
//! (an input or output commitment of a program execution) to a global state
//! root, by chaining five Merkle-inclusion proofs and one block-hash identity.
//!
//! The network's field arithmetic and BHP hashing are supplied by the snarkVM
//! console crates; everything structural — bit encodings, the six construction
//! checks, the byte and text codecs — is defined and verified here.

pub mod bytes;
pub mod configuration;
pub mod field;
pub mod header_leaf;
pub mod merkle;
pub mod state_path;
pub mod text;
pub mod transaction_leaf;
pub mod transition_leaf;

pub use field::FieldElement;
pub use header_leaf::HeaderLeaf;
pub use merkle::MerklePath;
pub use state_path::{StatePath, StatePathError};
pub use transaction_leaf::TransactionLeaf;
pub use transition_leaf::TransitionLeaf;

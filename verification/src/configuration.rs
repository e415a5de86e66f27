//! Network-parameterized constants: the byte and bit width of a field element,
//! and the depth of each of the five Merkle trees a state path traverses.

use vstd::prelude::*;

verus! {

/// Number of bytes in the canonical little-endian encoding of a field element.
pub const FIELD_SIZE_IN_BYTES: usize = 32;

/// Number of bits in the little-endian bit decomposition of a field element.
pub const FIELD_SIZE_IN_BITS: usize = 253;

/// Depth of the block tree (leaves are block hashes, indexed by height).
pub const BLOCKS_DEPTH: u8 = 32;

/// Depth of the block-header tree (one leaf per header field).
pub const HEADER_DEPTH: u8 = 3;

/// Depth of the transactions tree (leaves are transaction IDs).
pub const TRANSACTIONS_DEPTH: u8 = 16;

/// Depth of the transaction tree (leaves are transitions or functions).
pub const TRANSACTION_DEPTH: u8 = 5;

/// Depth of the transition tree (leaves are input/output commitments).
pub const TRANSITION_DEPTH: u8 = 5;

} // verus!

//! The fixed-layout binary codec for a state path.
//!
//! A state path serializes as the concatenation, in field declaration order,
//! of: each anchor field element as its canonical 32 bytes; each Merkle path
//! as a sibling count (`u8`), the siblings in root-to-leaf order, and the
//! leaf index (`u64`, little-endian); and each leaf as its attributes in
//! declaration order (`u8` and little-endian `u16` scalars, then the ID).
//! Decoding reads the same layout, rejects a short read, a sibling count
//! above the configured depth, a non-canonical field element or trailing
//! bytes, and hands the decoded fields to the verifying constructor.

use vstd::prelude::*;
use crate::configuration::{
    BLOCKS_DEPTH, FIELD_SIZE_IN_BYTES, HEADER_DEPTH, TRANSACTIONS_DEPTH, TRANSACTION_DEPTH,
    TRANSITION_DEPTH,
};
use crate::field::{FieldElement, fe_canonical, fe_wf};
use crate::header_leaf::{HeaderLeaf, HeaderLeafView};
use crate::state_path::StatePathError;
use crate::transaction_leaf::TransactionLeaf;
use crate::transition_leaf::TransitionLeaf;
use crate::merkle::{MerklePath, MerklePathView};
use crate::merkle::sibs_wf;
use crate::state_path::{StatePath, StatePathView, view_wf};

verus! {

/// The two little-endian bytes of a `u16`.
pub open spec fn ser_u16(x: u16) -> Seq<u8> {
    seq![x as u8, (x >> 8u16) as u8]
}

/// The eight little-endian bytes of a `u64`.
pub open spec fn ser_u64(x: u64) -> Seq<u8> {
    Seq::new(8, |i: int| (x >> ((8 * i) as u64)) as u8)
}

/// The concatenation of a sequence of byte strings, in order.
pub open spec fn concat_all(s: Seq<Seq<u8>>) -> Seq<u8>
    decreases s.len(),
{
    if s.len() == 0 {
        Seq::empty()
    } else {
        s[0] + concat_all(s.drop_first())
    }
}

/// The encoding of a Merkle path: sibling count, siblings, leaf index.
pub open spec fn ser_path(p: MerklePathView) -> Seq<u8> {
    seq![p.siblings.len() as u8] + (concat_all(p.siblings) + ser_u64(p.leaf_index))
}

/// The encoding of a header leaf: `index`, then `id`.
pub open spec fn ser_header_leaf(l: HeaderLeafView) -> Seq<u8> {
    seq![l.index] + l.id
}

/// The encoding of a transaction leaf: `variant`, `index`, then `id`.
pub open spec fn ser_transaction_leaf(l: crate::transaction_leaf::TransactionLeafView) -> Seq<u8> {
    seq![l.variant] + (ser_u16(l.index) + l.id)
}

/// The encoding of a transition leaf: `version`, `index`, `variant`, `id`.
pub open spec fn ser_transition_leaf(l: crate::transition_leaf::TransitionLeafView) -> Seq<u8> {
    seq![l.version] + (seq![l.index] + (seq![l.variant] + l.id))
}

/// The full encoding of a state path, in field declaration order.
pub open spec fn spec_serialize(v: StatePathView) -> Seq<u8> {
    v.state_root + (ser_path(v.block_path) + (v.block_hash + (v.previous_block_hash + (v.header_root
        + (ser_path(v.header_path) + (ser_header_leaf(v.header_leaf)
        + (ser_path(v.transactions_path) + (v.transaction_id + (ser_path(v.transaction_path)
        + (ser_transaction_leaf(v.transaction_leaf) + (ser_path(v.transition_path)
        + ser_transition_leaf(v.transition_leaf))))))))))))
}

/// Reads one field element: 32 bytes that must be canonical.
pub open spec fn p_fe(b: Seq<u8>) -> Option<(Seq<u8>, Seq<u8>)> {
    if b.len() >= FIELD_SIZE_IN_BYTES && fe_canonical(b.take(FIELD_SIZE_IN_BYTES as int)) {
        Some((b.take(FIELD_SIZE_IN_BYTES as int), b.skip(FIELD_SIZE_IN_BYTES as int)))
    } else {
        None
    }
}

/// Reads one byte.
pub open spec fn p_u8(b: Seq<u8>) -> Option<(u8, Seq<u8>)> {
    if b.len() >= 1 {
        Some((b[0], b.skip(1)))
    } else {
        None
    }
}

/// The `u16` two little-endian bytes spell.
pub open spec fn u16_from(lo: u8, hi: u8) -> u16 {
    (lo as u16) | ((hi as u16) << 8u16)
}

/// Reads one little-endian `u16`.
pub open spec fn p_u16(b: Seq<u8>) -> Option<(u16, Seq<u8>)> {
    if b.len() >= 2 {
        Some((u16_from(b[0], b[1]), b.skip(2)))
    } else {
        None
    }
}

/// The `u64` eight little-endian bytes spell.
pub open spec fn u64_from(b: Seq<u8>) -> u64 {
    (b[0] as u64) | ((b[1] as u64) << 8u64) | ((b[2] as u64) << 16u64)
        | ((b[3] as u64) << 24u64) | ((b[4] as u64) << 32u64) | ((b[5] as u64) << 40u64)
        | ((b[6] as u64) << 48u64) | ((b[7] as u64) << 56u64)
}

/// Reads one little-endian `u64`.
pub open spec fn p_u64(b: Seq<u8>) -> Option<(u64, Seq<u8>)> {
    if b.len() >= 8 {
        Some((u64_from(b.take(8)), b.skip(8)))
    } else {
        None
    }
}

/// Reads `n` sibling field elements.
pub open spec fn p_sibs(b: Seq<u8>, n: nat) -> Option<(Seq<Seq<u8>>, Seq<u8>)>
    decreases n,
{
    if n == 0 {
        Some((Seq::empty(), b))
    } else {
        match p_fe(b) {
            None => None,
            Some((f, rest)) => match p_sibs(rest, (n - 1) as nat) {
                None => None,
                Some((s, rest2)) => Some((seq![f] + s, rest2)),
            },
        }
    }
}

/// Reads one Merkle path of the given configured depth: the sibling count
/// (rejected when above the depth), the siblings, the leaf index.
pub open spec fn p_path(b: Seq<u8>, depth: u8) -> Option<(MerklePathView, Seq<u8>)> {
    match p_u8(b) {
        None => None,
        Some((n, rest)) => if n > depth {
            None
        } else {
            match p_sibs(rest, n as nat) {
                None => None,
                Some((siblings, rest2)) => match p_u64(rest2) {
                    None => None,
                    Some((leaf_index, rest3)) => Some(
                        (MerklePathView { leaf_index, siblings }, rest3),
                    ),
                },
            }
        },
    }
}

/// Reads one header leaf.
pub open spec fn p_header_leaf(b: Seq<u8>) -> Option<(HeaderLeafView, Seq<u8>)> {
    match p_u8(b) {
        None => None,
        Some((index, rest)) => match p_fe(rest) {
            None => None,
            Some((id, rest2)) => Some((HeaderLeafView { index, id }, rest2)),
        },
    }
}

/// Reads one transaction leaf.
pub open spec fn p_transaction_leaf(b: Seq<u8>) -> Option<
    (crate::transaction_leaf::TransactionLeafView, Seq<u8>),
> {
    match p_u8(b) {
        None => None,
        Some((variant, rest)) => match p_u16(rest) {
            None => None,
            Some((index, rest2)) => match p_fe(rest2) {
                None => None,
                Some((id, rest3)) => Some(
                    (crate::transaction_leaf::TransactionLeafView { variant, index, id }, rest3),
                ),
            },
        },
    }
}

/// Reads one transition leaf.
pub open spec fn p_transition_leaf(b: Seq<u8>) -> Option<
    (crate::transition_leaf::TransitionLeafView, Seq<u8>),
> {
    match p_u8(b) {
        None => None,
        Some((version, rest)) => match p_u8(rest) {
            None => None,
            Some((index, rest2)) => match p_u8(rest2) {
                None => None,
                Some((variant, rest3)) => match p_fe(rest3) {
                    None => None,
                    Some((id, rest4)) => Some(
                        (
                            crate::transition_leaf::TransitionLeafView {
                                version,
                                index,
                                variant,
                                id,
                            },
                            rest4,
                        ),
                    ),
                },
            },
        },
    }
}

/// The structural decoding of a full state-path encoding: the thirteen
/// fields in declaration order, with nothing left over. Canonicity of every
/// field element and the depth bound of every path are part of decoding;
/// checks 1 through 6 are not.
pub open spec fn spec_parse(b: Seq<u8>) -> Option<StatePathView> {
    match p_fe(b) {
        None => None,
        Some((state_root, b1)) => match p_path(b1, BLOCKS_DEPTH) {
            None => None,
            Some((block_path, b2)) => match p_fe(b2) {
                None => None,
                Some((block_hash, b3)) => match p_fe(b3) {
                    None => None,
                    Some((previous_block_hash, b4)) => match p_fe(b4) {
                        None => None,
                        Some((header_root, b5)) => match p_path(b5, HEADER_DEPTH) {
                            None => None,
                            Some((header_path, b6)) => match p_header_leaf(b6) {
                                None => None,
                                Some((header_leaf, b7)) => match p_path(b7, TRANSACTIONS_DEPTH) {
                                    None => None,
                                    Some((transactions_path, b8)) => match p_fe(b8) {
                                        None => None,
                                        Some((transaction_id, b9)) => match p_path(
                                            b9,
                                            TRANSACTION_DEPTH,
                                        ) {
                                            None => None,
                                            Some((transaction_path, b10)) => match p_transaction_leaf(
                                                b10,
                                            ) {
                                                None => None,
                                                Some((transaction_leaf, b11)) => match p_path(
                                                    b11,
                                                    TRANSITION_DEPTH,
                                                ) {
                                                    None => None,
                                                    Some((transition_path, b12)) => match p_transition_leaf(
                                                        b12,
                                                    ) {
                                                        None => None,
                                                        Some((transition_leaf, b13)) => if b13.len()
                                                            == 0 {
                                                            Some(
                                                                StatePathView {
                                                                    state_root,
                                                                    block_path,
                                                                    block_hash,
                                                                    previous_block_hash,
                                                                    header_root,
                                                                    header_path,
                                                                    header_leaf,
                                                                    transactions_path,
                                                                    transaction_id,
                                                                    transaction_path,
                                                                    transaction_leaf,
                                                                    transition_path,
                                                                    transition_leaf,
                                                                },
                                                            )
                                                        } else {
                                                            None
                                                        },
                                                    },
                                                },
                                            },
                                        },
                                    },
                                },
                            },
                        },
                    },
                },
            },
        },
    }
}

/// Splitting a concatenation at the length of its first part recovers the
/// two parts.
proof fn lemma_split_concat(a: Seq<u8>, b: Seq<u8>)
    ensures
        (a + b).take(a.len() as int) == a,
        (a + b).skip(a.len() as int) == b,
{
    assert((a + b).take(a.len() as int) =~= a);
    assert((a + b).skip(a.len() as int) =~= b);
}

/// Reading a field element off the front of its own encoding succeeds.
proof fn lemma_p_fe(f: Seq<u8>, rest: Seq<u8>)
    requires
        fe_wf(f),
    ensures
        p_fe(f + rest) == Some((f, rest)),
{
    lemma_split_concat(f, rest);
}

/// Reading a `u64` off the front of its own encoding recovers it.
proof fn lemma_p_u64(x: u64, rest: Seq<u8>)
    ensures
        p_u64(ser_u64(x) + rest) == Some((x, rest)),
{
    lemma_split_concat(ser_u64(x), rest);
    let t = (ser_u64(x) + rest).take(8);
    assert(t == ser_u64(x));
    assert(u64_from(ser_u64(x)) == x) by {
        assert(ser_u64(x)[0] == (x >> 0u64) as u8);
        assert(ser_u64(x)[1] == (x >> 8u64) as u8);
        assert(ser_u64(x)[2] == (x >> 16u64) as u8);
        assert(ser_u64(x)[3] == (x >> 24u64) as u8);
        assert(ser_u64(x)[4] == (x >> 32u64) as u8);
        assert(ser_u64(x)[5] == (x >> 40u64) as u8);
        assert(ser_u64(x)[6] == (x >> 48u64) as u8);
        assert(ser_u64(x)[7] == (x >> 56u64) as u8);
        assert((((x >> 0u64) as u8) as u64) | ((((x >> 8u64) as u8) as u64) << 8u64)
            | ((((x >> 16u64) as u8) as u64) << 16u64) | ((((x >> 24u64) as u8) as u64) << 24u64)
            | ((((x >> 32u64) as u8) as u64) << 32u64) | ((((x >> 40u64) as u8) as u64) << 40u64)
            | ((((x >> 48u64) as u8) as u64) << 48u64) | ((((x >> 56u64) as u8) as u64) << 56u64)
            == x) by (bit_vector);
    }
}

/// Reading a `u16` off the front of its own encoding recovers it.
proof fn lemma_p_u16(x: u16, rest: Seq<u8>)
    ensures
        p_u16(ser_u16(x) + rest) == Some((x, rest)),
{
    lemma_split_concat(ser_u16(x), rest);
    assert((ser_u16(x) + rest)[0] == x as u8);
    assert((ser_u16(x) + rest)[1] == (x >> 8u16) as u8);
    assert((ser_u16(x) + rest).skip(2) =~= rest);
    assert(u16_from(x as u8, (x >> 8u16) as u8) == x) by (bit_vector);
}

/// Reading one byte off the front recovers it.
proof fn lemma_p_u8(x: u8, rest: Seq<u8>)
    ensures
        p_u8(seq![x] + rest) == Some((x, rest)),
{
    assert((seq![x] + rest)[0] == x);
    assert((seq![x] + rest).skip(1) =~= rest);
}

/// Reading `n` siblings off the front of their own concatenation recovers
/// them.
proof fn lemma_p_sibs(s: Seq<Seq<u8>>, rest: Seq<u8>)
    requires
        sibs_wf(s),
    ensures
        p_sibs(concat_all(s) + rest, s.len()) == Some((s, rest)),
    decreases s.len(),
{
    if s.len() == 0 {
        assert(concat_all(s) + rest =~= rest);
    } else {
        let tail = s.drop_first();
        assert(concat_all(s) == s[0] + concat_all(tail));
        assert(concat_all(s) + rest =~= s[0] + (concat_all(tail) + rest));
        lemma_p_fe(s[0], concat_all(tail) + rest);
        lemma_p_sibs(tail, rest);
        assert(seq![s[0]] + tail =~= s);
    }
}

/// Reading a Merkle path off the front of its own encoding recovers it.
proof fn lemma_p_path(p: MerklePathView, depth: u8, rest: Seq<u8>)
    requires
        sibs_wf(p.siblings),
        p.siblings.len() == depth,
    ensures
        p_path(ser_path(p) + rest, depth) == Some((p, rest)),
{
    let n: u8 = p.siblings.len() as u8;
    let body = concat_all(p.siblings) + ser_u64(p.leaf_index);
    assert(ser_path(p) + rest =~= seq![n] + (body + rest));
    lemma_p_u8(n, body + rest);
    assert(body + rest =~= concat_all(p.siblings) + (ser_u64(p.leaf_index) + rest));
    lemma_p_sibs(p.siblings, ser_u64(p.leaf_index) + rest);
    lemma_p_u64(p.leaf_index, rest);
}

/// Reading a header leaf off the front of its own encoding recovers it.
proof fn lemma_p_header_leaf(l: HeaderLeafView, rest: Seq<u8>)
    requires
        fe_wf(l.id),
    ensures
        p_header_leaf(ser_header_leaf(l) + rest) == Some((l, rest)),
{
    assert(ser_header_leaf(l) + rest =~= seq![l.index] + (l.id + rest));
    lemma_p_u8(l.index, l.id + rest);
    lemma_p_fe(l.id, rest);
}

/// Reading a transaction leaf off the front of its own encoding recovers it.
proof fn lemma_p_transaction_leaf(l: crate::transaction_leaf::TransactionLeafView, rest: Seq<u8>)
    requires
        fe_wf(l.id),
    ensures
        p_transaction_leaf(ser_transaction_leaf(l) + rest) == Some((l, rest)),
{
    assert(ser_transaction_leaf(l) + rest =~= seq![l.variant] + ((ser_u16(l.index) + (l.id
        + rest))));
    lemma_p_u8(l.variant, ser_u16(l.index) + (l.id + rest));
    lemma_p_u16(l.index, l.id + rest);
    lemma_p_fe(l.id, rest);
}

/// Reading a transition leaf off the front of its own encoding recovers it.
proof fn lemma_p_transition_leaf(l: crate::transition_leaf::TransitionLeafView, rest: Seq<u8>)
    requires
        fe_wf(l.id),
    ensures
        p_transition_leaf(ser_transition_leaf(l) + rest) == Some((l, rest)),
{
    assert(ser_transition_leaf(l) + rest =~= seq![l.version] + (seq![l.index] + (seq![l.variant]
        + (l.id + rest))));
    lemma_p_u8(l.version, seq![l.index] + (seq![l.variant] + (l.id + rest)));
    lemma_p_u8(l.index, seq![l.variant] + (l.id + rest));
    lemma_p_u8(l.variant, l.id + rest);
    lemma_p_fe(l.id, rest);
}

/// Byte round-trip, decoding half: structurally decoding the encoding of any
/// well-formed state-path content recovers that content exactly. With
/// [`lemma_serialize_injective`] this pins the codec down: the encoding is
/// deterministic, injective, and inverted by the decoder.
pub proof fn lemma_parse_serialize(v: StatePathView)
    requires
        view_wf(v),
        crate::state_path::all_checks(v),
    ensures
        spec_parse(spec_serialize(v)) == Some(v),
{
    let empty: Seq<u8> = Seq::empty();
    let r13 = ser_transition_leaf(v.transition_leaf);
    let r12 = ser_path(v.transition_path) + r13;
    let r11 = ser_transaction_leaf(v.transaction_leaf) + r12;
    let r10 = ser_path(v.transaction_path) + r11;
    let r9 = v.transaction_id + r10;
    let r8 = ser_path(v.transactions_path) + r9;
    let r7 = ser_header_leaf(v.header_leaf) + r8;
    let r6 = ser_path(v.header_path) + r7;
    let r5 = v.header_root + r6;
    let r4 = v.previous_block_hash + r5;
    let r3 = v.block_hash + r4;
    let r2 = ser_path(v.block_path) + r3;
    let whole = v.state_root + r2;
    assert(spec_serialize(v) == whole);
    lemma_p_fe(v.state_root, r2);
    lemma_p_path(v.block_path, BLOCKS_DEPTH, r3);
    lemma_p_fe(v.block_hash, r4);
    lemma_p_fe(v.previous_block_hash, r5);
    lemma_p_fe(v.header_root, r6);
    lemma_p_path(v.header_path, HEADER_DEPTH, r7);
    lemma_p_header_leaf(v.header_leaf, r8);
    lemma_p_path(v.transactions_path, TRANSACTIONS_DEPTH, r9);
    lemma_p_fe(v.transaction_id, r10);
    lemma_p_path(v.transaction_path, TRANSACTION_DEPTH, r11);
    lemma_p_transaction_leaf(v.transaction_leaf, r12);
    lemma_p_path(v.transition_path, TRANSITION_DEPTH, r13);
    assert(r13 == ser_transition_leaf(v.transition_leaf) + empty) by {
        assert(ser_transition_leaf(v.transition_leaf) + empty =~= r13);
    }
    lemma_p_transition_leaf(v.transition_leaf, empty);
    assert(spec_parse(whole) == Some(v)) by {
        assert(v =~= (StatePathView {
            state_root: v.state_root,
            block_path: v.block_path,
            block_hash: v.block_hash,
            previous_block_hash: v.previous_block_hash,
            header_root: v.header_root,
            header_path: v.header_path,
            header_leaf: v.header_leaf,
            transactions_path: v.transactions_path,
            transaction_id: v.transaction_id,
            transaction_path: v.transaction_path,
            transaction_leaf: v.transaction_leaf,
            transition_path: v.transition_path,
            transition_leaf: v.transition_leaf,
        }));
    }
}

/// The encoding is injective: two well-formed state-path contents with the
/// same encoding are the same content.
pub proof fn lemma_serialize_injective(v1: StatePathView, v2: StatePathView)
    requires
        view_wf(v1),
        crate::state_path::all_checks(v1),
        view_wf(v2),
        crate::state_path::all_checks(v2),
        spec_serialize(v1) == spec_serialize(v2),
    ensures
        v1 == v2,
{
    lemma_parse_serialize(v1);
    lemma_parse_serialize(v2);
}


/// Appending an element to a sequence of byte strings appends its bytes to
/// the concatenation.
proof fn lemma_concat_all_push(s: Seq<Seq<u8>>, x: Seq<u8>)
    ensures
        concat_all(s.push(x)) == concat_all(s) + x,
    decreases s.len(),
{
    if s.len() == 0 {
        assert(s.push(x)[0] == x);
        assert(s.push(x).drop_first() =~= Seq::<Seq<u8>>::empty());
        assert(concat_all(Seq::<Seq<u8>>::empty()) == Seq::<u8>::empty());
        assert(concat_all(s.push(x)) == x + Seq::<u8>::empty());
        assert(concat_all(s) + x =~= x + Seq::<u8>::empty());
        assert(concat_all(s.push(x)) =~= concat_all(s) + x);
    } else {
        assert(s.push(x)[0] == s[0]);
        assert(s.push(x).drop_first() =~= s.drop_first().push(x));
        lemma_concat_all_push(s.drop_first(), x);
        assert(concat_all(s.push(x)) =~= concat_all(s) + x);
    }
}

/// Appends the bytes of `src` to `out`.
fn write_bytes(src: &Vec<u8>, out: &mut Vec<u8>)
    ensures
        final(out)@ == old(out)@ + src@,
{
    let ghost prefix = out@;
    let mut i: usize = 0;
    while i < src.len()
        invariant
            i <= src@.len(),
            out@ =~= prefix + src@.take(i as int),
        decreases src@.len() - i,
    {
        out.push(src[i]);
        i += 1;
        assert(out@ =~= prefix + src@.take(i as int));
    }
    assert(out@ =~= prefix + src@);
}

/// Appends the eight little-endian bytes of `x` to `out`.
fn write_u64_le(x: u64, out: &mut Vec<u8>)
    ensures
        final(out)@ == old(out)@ + ser_u64(x),
{
    let ghost prefix = out@;
    out.push((x >> 0u64) as u8);
    out.push((x >> 8u64) as u8);
    out.push((x >> 16u64) as u8);
    out.push((x >> 24u64) as u8);
    out.push((x >> 32u64) as u8);
    out.push((x >> 40u64) as u8);
    out.push((x >> 48u64) as u8);
    out.push((x >> 56u64) as u8);
    assert(out@ =~= prefix + ser_u64(x));
}

/// Appends the encoding of a Merkle path to `out`.
fn write_path(p: &MerklePath, out: &mut Vec<u8>)
    requires
        p@.siblings.len() < 256,
    ensures
        final(out)@ == old(out)@ + ser_path(p@),
{
    let ghost prefix = out@;
    let sibs = p.siblings();
    out.push(sibs.len() as u8);
    let mut i: usize = 0;
    while i < sibs.len()
        invariant
            i <= sibs@.len(),
            sibs@.map_values(|f: FieldElement| f@) == p@.siblings,
            p@.siblings.len() < 256,
            out@ =~= prefix + seq![p@.siblings.len() as u8]
                + concat_all(p@.siblings.take(i as int)),
        decreases sibs@.len() - i,
    {
        let fe = &sibs[i];
        write_bytes(fe.to_bytes_le(), out);
        i += 1;
        proof {
            lemma_concat_all_push(p@.siblings.take(i - 1), p@.siblings[i - 1]);
            assert(p@.siblings.take(i as int) =~= p@.siblings.take(i - 1).push(
                p@.siblings[i - 1],
            ));
            assert(out@ =~= prefix + seq![p@.siblings.len() as u8]
                + concat_all(p@.siblings.take(i as int)));
        }
    }
    proof {
        assert(p@.siblings.take(sibs@.len() as int) =~= p@.siblings);
    }
    write_u64_le(p.leaf_index(), out);
    assert(out@ =~= prefix + ser_path(p@));
}

impl StatePath {
    /// Serializes this state path into its fixed binary layout. The output
    /// decodes back to this very state path.
    #[verifier::rlimit(100)]
    pub fn to_bytes_le(&self) -> (r: Vec<u8>)
        ensures
            r@ == spec_serialize(self@),
            spec_parse(r@) == Some(self@),
    {
        proof {
            use_type_invariant(self);
            lemma_parse_serialize(self@);
        }
        let mut out: Vec<u8> = Vec::new();
        write_bytes(self.state_root().to_bytes_le(), &mut out);
        write_path(self.block_path(), &mut out);
        write_bytes(self.block_hash().to_bytes_le(), &mut out);
        write_bytes(self.previous_block_hash().to_bytes_le(), &mut out);
        write_bytes(self.header_root().to_bytes_le(), &mut out);
        write_path(self.header_path(), &mut out);
        out.push(self.header_leaf().index());
        write_bytes(self.header_leaf().id().to_bytes_le(), &mut out);
        write_path(self.transactions_path(), &mut out);
        write_bytes(self.transaction_id().to_bytes_le(), &mut out);
        write_path(self.transaction_path(), &mut out);
        out.push(self.transaction_leaf().variant());
        let tl_index = self.transaction_leaf().index();
        out.push(tl_index as u8);
        out.push((tl_index >> 8u16) as u8);
        write_bytes(self.transaction_leaf().id().to_bytes_le(), &mut out);
        write_path(self.transition_path(), &mut out);
        out.push(self.transition_leaf().version());
        out.push(self.transition_leaf().index());
        out.push(self.transition_leaf().variant());
        write_bytes(self.transition_leaf().id().to_bytes_le(), &mut out);
        assert(out@ =~= spec_serialize(self@));
        out
    }
}


/// Reads one field element at `pos`; `None` on a short or non-canonical read.
fn read_fe(b: &Vec<u8>, pos: usize) -> (r: Option<(FieldElement, usize)>)
    requires
        pos <= b@.len(),
    ensures
        (match r {
            Some(t) => {
                &&& p_fe(b@.skip(pos as int)) == Some((t.0@, b@.skip(t.1 as int)))
                &&& t.1 == pos + FIELD_SIZE_IN_BYTES
                &&& t.1 <= b@.len()
            },
            None => p_fe(b@.skip(pos as int)) is None,
        }),
{
    if b.len() - pos < FIELD_SIZE_IN_BYTES {
        return None;
    }
    let blen = b.len();
    let mut tmp: Vec<u8> = Vec::new();
    let mut i: usize = 0;
    while i < FIELD_SIZE_IN_BYTES
        invariant
            pos + FIELD_SIZE_IN_BYTES <= b@.len(),
            blen == b@.len(),
            i <= FIELD_SIZE_IN_BYTES,
            tmp@ =~= b@.subrange(pos as int, pos + i),
        decreases FIELD_SIZE_IN_BYTES - i,
    {
        tmp.push(b[pos + i]);
        i += 1;
        assert(tmp@ =~= b@.subrange(pos as int, pos + i));
    }
    proof {
        assert(tmp@ =~= b@.skip(pos as int).take(FIELD_SIZE_IN_BYTES as int));
    }
    match FieldElement::from_bytes_le(&tmp) {
        Some(f) => {
            proof {
                assert(b@.skip(pos as int).skip(FIELD_SIZE_IN_BYTES as int) =~= b@.skip(
                    pos + FIELD_SIZE_IN_BYTES,
                ));
            }
            Some((f, pos + FIELD_SIZE_IN_BYTES))
        },
        None => None,
    }
}

/// Reads one byte at `pos`.
fn read_u8(b: &Vec<u8>, pos: usize) -> (r: Option<(u8, usize)>)
    requires
        pos <= b@.len(),
    ensures
        (match r {
            Some(t) => {
                &&& p_u8(b@.skip(pos as int)) == Some((t.0, b@.skip(t.1 as int)))
                &&& t.1 == pos + 1
                &&& t.1 <= b@.len()
            },
            None => p_u8(b@.skip(pos as int)) is None,
        }),
{
    if pos < b.len() {
        let x = b[pos];
        proof {
            assert(b@.skip(pos as int)[0] == x);
            assert(b@.skip(pos as int).skip(1) =~= b@.skip(pos + 1));
        }
        Some((x, pos + 1))
    } else {
        None
    }
}

/// Reads one little-endian `u16` at `pos`.
fn read_u16(b: &Vec<u8>, pos: usize) -> (r: Option<(u16, usize)>)
    requires
        pos <= b@.len(),
    ensures
        (match r {
            Some(t) => {
                &&& p_u16(b@.skip(pos as int)) == Some((t.0, b@.skip(t.1 as int)))
                &&& t.1 == pos + 2
                &&& t.1 <= b@.len()
            },
            None => p_u16(b@.skip(pos as int)) is None,
        }),
{
    if b.len() - pos < 2 {
        return None;
    }
    let lo = b[pos];
    let hi = b[pos + 1];
    let x: u16 = (lo as u16) | ((hi as u16) << 8u16);
    proof {
        assert(b@.skip(pos as int)[0] == lo);
        assert(b@.skip(pos as int)[1] == hi);
        assert(b@.skip(pos as int).skip(2) =~= b@.skip(pos + 2));
    }
    Some((x, pos + 2))
}

/// Reads one little-endian `u64` at `pos`.
fn read_u64(b: &Vec<u8>, pos: usize) -> (r: Option<(u64, usize)>)
    requires
        pos <= b@.len(),
    ensures
        (match r {
            Some(t) => {
                &&& p_u64(b@.skip(pos as int)) == Some((t.0, b@.skip(t.1 as int)))
                &&& t.1 == pos + 8
                &&& t.1 <= b@.len()
            },
            None => p_u64(b@.skip(pos as int)) is None,
        }),
{
    if b.len() - pos < 8 {
        return None;
    }
    let x: u64 = (b[pos] as u64) | ((b[pos + 1] as u64) << 8u64) | ((b[pos + 2] as u64)
        << 16u64) | ((b[pos + 3] as u64) << 24u64) | ((b[pos + 4] as u64) << 32u64) | ((b[pos
        + 5] as u64) << 40u64) | ((b[pos + 6] as u64) << 48u64) | ((b[pos + 7] as u64) << 56u64);
    proof {
        let t = b@.skip(pos as int).take(8);
        assert(t[0] == b@[pos as int]);
        assert(t[1] == b@[pos + 1]);
        assert(t[2] == b@[pos + 2]);
        assert(t[3] == b@[pos + 3]);
        assert(t[4] == b@[pos + 4]);
        assert(t[5] == b@[pos + 5]);
        assert(t[6] == b@[pos + 6]);
        assert(t[7] == b@[pos + 7]);
        assert(b@.skip(pos as int).skip(8) =~= b@.skip(pos + 8));
    }
    Some((x, pos + 8))
}

/// Reads `n` sibling field elements at `pos`.
fn read_sibs(b: &Vec<u8>, pos: usize, n: u8) -> (r: Option<(Vec<FieldElement>, usize)>)
    requires
        pos <= b@.len(),
    ensures
        (match r {
            Some(t) => {
                &&& p_sibs(b@.skip(pos as int), n as nat) == Some(
                    (t.0@.map_values(|f: FieldElement| f@), b@.skip(t.1 as int)),
                )
                &&& pos <= t.1 <= b@.len()
            },
            None => p_sibs(b@.skip(pos as int), n as nat) is None,
        }),
    decreases n,
{
    if n == 0 {
        let v: Vec<FieldElement> = Vec::new();
        proof {
            assert(v@.map_values(|f: FieldElement| f@) =~= Seq::<Seq<u8>>::empty());
        }
        Some((v, pos))
    } else {
        match read_fe(b, pos) {
            None => None,
            Some((f, p1)) => match read_sibs(b, p1, n - 1) {
                None => None,
                Some((mut v, p2)) => {
                    let ghost tail = v@.map_values(|f: FieldElement| f@);
                    v.insert(0, f);
                    proof {
                        assert(v@.map_values(|f: FieldElement| f@) =~= seq![f@] + tail);
                    }
                    Some((v, p2))
                },
            },
        }
    }
}

/// Reads one Merkle path of the given configured depth at `pos`.
fn read_path(b: &Vec<u8>, pos: usize, depth: u8) -> (r: Option<(MerklePath, usize)>)
    requires
        pos <= b@.len(),
    ensures
        (match r {
            Some(t) => {
                &&& p_path(b@.skip(pos as int), depth) == Some((t.0@, b@.skip(t.1 as int)))
                &&& pos <= t.1 <= b@.len()
            },
            None => p_path(b@.skip(pos as int), depth) is None,
        }),
{
    match read_u8(b, pos) {
        None => None,
        Some((n, p1)) => {
            if n > depth {
                return None;
            }
            match read_sibs(b, p1, n) {
                None => None,
                Some((siblings, p2)) => match read_u64(b, p2) {
                    None => None,
                    Some((leaf_index, p3)) => {
                        let ghost sib_views = siblings@.map_values(|f: FieldElement| f@);
                        let path = MerklePath::new(leaf_index, siblings);
                        proof {
                            assert(path@ =~= (MerklePathView {
                                leaf_index,
                                siblings: sib_views,
                            }));
                        }
                        Some((path, p3))
                    },
                },
            }
        },
    }
}

impl StatePath {
    /// Deserializes a state path from its fixed binary layout, then runs the
    /// six construction checks: exactly the encodings of sound state paths
    /// decode to `Ok`; a structurally malformed input is rejected as a
    /// deserialization error, and a structurally sound one whose checks fail
    /// is rejected with the first failing check's error.
    #[verifier::rlimit(100)]
    pub fn from_bytes_le(b: &Vec<u8>) -> (r: Result<StatePath, StatePathError>)
        ensures
            (match spec_parse(b@) {
                Some(v) => match r {
                    Ok(sp) => crate::state_path::all_checks(v) && sp@ == v,
                    Err(e) => !crate::state_path::all_checks(v) && e@
                        == crate::state_path::first_failing_error(v),
                },
                None => r matches Err(e) && e@
                    == crate::state_path::StatePathErrorView::Deserialization,
            }),
    {
        proof {
            assert(b@.skip(0) =~= b@);
        }
        let r0 = read_fe(b, 0);
        let (state_root, pos) = match r0 {
            Some(t) => t,
            None => {
                return Err(StatePathError::Deserialization);
            },
        };
        let (block_path, pos) = match read_path(b, pos, BLOCKS_DEPTH) {
            Some(t) => t,
            None => {
                return Err(StatePathError::Deserialization);
            },
        };
        let (block_hash, pos) = match read_fe(b, pos) {
            Some(t) => t,
            None => {
                return Err(StatePathError::Deserialization);
            },
        };
        let (previous_block_hash, pos) = match read_fe(b, pos) {
            Some(t) => t,
            None => {
                return Err(StatePathError::Deserialization);
            },
        };
        let (header_root, pos) = match read_fe(b, pos) {
            Some(t) => t,
            None => {
                return Err(StatePathError::Deserialization);
            },
        };
        let (header_path, pos) = match read_path(b, pos, HEADER_DEPTH) {
            Some(t) => t,
            None => {
                return Err(StatePathError::Deserialization);
            },
        };
        let (hl_index, pos) = match read_u8(b, pos) {
            Some(t) => t,
            None => {
                return Err(StatePathError::Deserialization);
            },
        };
        let (hl_id, pos) = match read_fe(b, pos) {
            Some(t) => t,
            None => {
                return Err(StatePathError::Deserialization);
            },
        };
        let header_leaf = HeaderLeaf::new(hl_index, hl_id);
        let (transactions_path, pos) = match read_path(b, pos, TRANSACTIONS_DEPTH) {
            Some(t) => t,
            None => {
                return Err(StatePathError::Deserialization);
            },
        };
        let (transaction_id, pos) = match read_fe(b, pos) {
            Some(t) => t,
            None => {
                return Err(StatePathError::Deserialization);
            },
        };
        let (transaction_path, pos) = match read_path(b, pos, TRANSACTION_DEPTH) {
            Some(t) => t,
            None => {
                return Err(StatePathError::Deserialization);
            },
        };
        let (txl_variant, pos) = match read_u8(b, pos) {
            Some(t) => t,
            None => {
                return Err(StatePathError::Deserialization);
            },
        };
        let (txl_index, pos) = match read_u16(b, pos) {
            Some(t) => t,
            None => {
                return Err(StatePathError::Deserialization);
            },
        };
        let (txl_id, pos) = match read_fe(b, pos) {
            Some(t) => t,
            None => {
                return Err(StatePathError::Deserialization);
            },
        };
        let transaction_leaf = TransactionLeaf::new(txl_variant, txl_index, txl_id);
        let (transition_path, pos) = match read_path(b, pos, TRANSITION_DEPTH) {
            Some(t) => t,
            None => {
                return Err(StatePathError::Deserialization);
            },
        };
        let (tnl_version, pos) = match read_u8(b, pos) {
            Some(t) => t,
            None => {
                return Err(StatePathError::Deserialization);
            },
        };
        let (tnl_index, pos) = match read_u8(b, pos) {
            Some(t) => t,
            None => {
                return Err(StatePathError::Deserialization);
            },
        };
        let (tnl_variant, pos) = match read_u8(b, pos) {
            Some(t) => t,
            None => {
                return Err(StatePathError::Deserialization);
            },
        };
        let (tnl_id, pos) = match read_fe(b, pos) {
            Some(t) => t,
            None => {
                return Err(StatePathError::Deserialization);
            },
        };
        let transition_leaf = TransitionLeaf::new(tnl_version, tnl_index, tnl_variant, tnl_id);
        if pos != b.len() {
            proof {
                assert(b@.skip(pos as int).len() != 0);
            }
            return Err(StatePathError::Deserialization);
        }
        proof {
            assert(b@.skip(pos as int).len() == 0);
        }
        StatePath::from(
            state_root,
            block_path,
            block_hash,
            previous_block_hash,
            header_root,
            header_path,
            header_leaf,
            transactions_path,
            transaction_id,
            transaction_path,
            transaction_leaf,
            transition_path,
            transition_leaf,
        )
    }
}

} // verus!

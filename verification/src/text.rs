//! The human-readable text codec for a state path.
//!
//! A state path prints as a line-oriented record: one token per line, in
//! field declaration order — each anchor field element in the network's own
//! text form, each Merkle path as its sibling count, its siblings and its
//! leaf index, each leaf as its scalar attributes in decimal and its ID.
//! Parsing reads the same layout back and hands the fields to the verifying
//! constructor, so the text form, like the byte form, only ever yields sound
//! state paths.

use vstd::prelude::*;
use crate::configuration::{
    BLOCKS_DEPTH, HEADER_DEPTH, TRANSACTIONS_DEPTH, TRANSACTION_DEPTH, TRANSITION_DEPTH,
};
use crate::field::FieldElement;
use crate::header_leaf::{HeaderLeaf, HeaderLeafView};
use crate::merkle::{MerklePath, MerklePathView};
use crate::state_path::{StatePath, StatePathError, StatePathView};
use snarkvm_console_network::MainnetV0;
use snarkvm_console_types::Field;
use snarkvm_console_types::prelude::{FromBytes, ToBytes};
use core::str::FromStr;

verus! {

/// What the network's field-element printer returns on the canonical
/// encoding `b`: the decimal text form of the element, with its type suffix.
pub uninterp spec fn fe_text(b: Seq<u8>) -> Seq<char>;

/// What the network's field-element parser returns on the text `s`: the
/// canonical encoding of the element it spells, or `None` when `s` spells no
/// field element.
pub uninterp spec fn fe_of_text(s: Seq<char>) -> Option<Seq<u8>>;

/// The decimal value of a digit character, `-1` for any other character.
pub open spec fn char_digit(c: char) -> int {
    if c == '0' { 0 } else if c == '1' { 1 } else if c == '2' { 2 } else if c == '3' { 3 }
    else if c == '4' { 4 } else if c == '5' { 5 } else if c == '6' { 6 } else if c == '7' { 7 }
    else if c == '8' { 8 } else if c == '9' { 9 } else { -1 }
}

/// The digit character of a value below ten.
pub open spec fn digit_char(d: int) -> char {
    if d == 0 { '0' } else if d == 1 { '1' } else if d == 2 { '2' } else if d == 3 { '3' }
    else if d == 4 { '4' } else if d == 5 { '5' } else if d == 6 { '6' } else if d == 7 { '7' }
    else if d == 8 { '8' } else { '9' }
}

/// Whether `c` is a decimal digit.
pub open spec fn is_digit(c: char) -> bool {
    char_digit(c) >= 0
}

/// Whether `s` consists of decimal digits only.
pub open spec fn all_digits(s: Seq<char>) -> bool {
    forall|i: int| 0 <= i < s.len() ==> is_digit(#[trigger] s[i])
}

/// Whether `s` contains no line break.
pub open spec fn no_nl(s: Seq<char>) -> bool {
    forall|i: int| 0 <= i < s.len() ==> #[trigger] s[i] != '\n'
}

/// The canonical decimal spelling of `n`: no leading zeros.
pub open spec fn dec_digits(n: nat) -> Seq<char>
    decreases n,
{
    if n < 10 {
        seq![digit_char(n as int)]
    } else {
        dec_digits(n / 10).push(digit_char((n % 10) as int))
    }
}

/// The value a digit string spells; meaningful under `all_digits`.
pub open spec fn dec_val(s: Seq<char>) -> int
    decreases s.len(),
{
    if s.len() == 0 {
        0
    } else {
        dec_val(s.drop_last()) * 10 + char_digit(s.last())
    }
}

/// The value of a digit string is never negative.
proof fn lemma_dec_val_nonneg(s: Seq<char>)
    requires
        all_digits(s),
    ensures
        dec_val(s) >= 0,
    decreases s.len(),
{
    if s.len() > 0 {
        assert(all_digits(s.drop_last()));
        lemma_dec_val_nonneg(s.drop_last());
    }
}

/// A digit string is worth at least any of its prefixes.
proof fn lemma_dec_val_prefix(s: Seq<char>, i: int)
    requires
        all_digits(s),
        0 <= i <= s.len(),
    ensures
        dec_val(s.take(i)) <= dec_val(s),
    decreases s.len() - i,
{
    if i == s.len() {
        assert(s.take(i) =~= s);
    } else {
        assert(s.take(i + 1).drop_last() =~= s.take(i));
        assert(s.take(i + 1).last() == s[i]);
        assert(all_digits(s.take(i)));
        lemma_dec_val_nonneg(s.take(i));
        assert(dec_val(s.take(i)) <= dec_val(s.take(i + 1)));
        lemma_dec_val_prefix(s, i + 1);
    }
}

/// The canonical decimal spelling is made of digits, is nonempty, holds no
/// line break, and spells its own value back.
proof fn lemma_dec_digits(n: nat)
    ensures
        all_digits(dec_digits(n)),
        no_nl(dec_digits(n)),
        dec_digits(n).len() >= 1,
        dec_val(dec_digits(n)) == n,
    decreases n,
{
    if n < 10 {
        assert(dec_digits(n) == seq![digit_char(n as int)]);
        assert(char_digit(digit_char(n as int)) == n);
        assert(dec_val(dec_digits(n)) == dec_val(seq![digit_char(n as int)].drop_last()) * 10
            + char_digit(digit_char(n as int)));
        assert(seq![digit_char(n as int)].drop_last() =~= Seq::<char>::empty());
    } else {
        lemma_dec_digits(n / 10);
        let s = dec_digits(n);
        assert(s == dec_digits(n / 10).push(digit_char((n % 10) as int)));
        assert(s.drop_last() =~= dec_digits(n / 10));
        assert(s.last() == digit_char((n % 10) as int));
        assert(char_digit(digit_char((n % 10) as int)) == n % 10);
        assert(dec_val(s) == (n / 10) * 10 + (n % 10));
        assert(forall|i: int| 0 <= i < s.len() ==> is_digit(#[trigger] s[i]));
        assert(forall|i: int| 0 <= i < s.len() ==> #[trigger] s[i] != '\n');
    }
}

/// One token: the characters up to the next line break, which is consumed.
pub open spec fn p_tok(s: Seq<char>) -> Option<(Seq<char>, Seq<char>)>
    decreases s.len(),
{
    if s.len() == 0 {
        None
    } else if s[0] == '\n' {
        Some((Seq::empty(), s.drop_first()))
    } else {
        match p_tok(s.drop_first()) {
            None => None,
            Some((t, r)) => Some((seq![s[0]] + t, r)),
        }
    }
}

/// A token followed by its line break: how every token is written.
pub open spec fn ser_tok(t: Seq<char>) -> Seq<char> {
    t + seq!['\n']
}

/// Reading a token off the front of a break-free token's own encoding
/// recovers it.
proof fn lemma_p_tok(t: Seq<char>, rest: Seq<char>)
    requires
        no_nl(t),
    ensures
        p_tok(ser_tok(t) + rest) == Some((t, rest)),
    decreases t.len(),
{
    let s = ser_tok(t) + rest;
    if t.len() == 0 {
        assert(s[0] == '\n');
        assert(s.drop_first() =~= rest);
        assert(p_tok(s) == Some((Seq::<char>::empty(), rest)));
        assert(Seq::<char>::empty() =~= t);
    } else {
        assert(s[0] == t[0]);
        assert(s[0] != '\n');
        assert(s.len() > 0);
        assert(no_nl(t.drop_first()));
        lemma_p_tok(t.drop_first(), rest);
        assert(s.drop_first() =~= ser_tok(t.drop_first()) + rest);
        assert(p_tok(s.drop_first()) == Some((t.drop_first(), rest)));
        assert(seq![s[0]] + t.drop_first() =~= t);
    }
}

/// Reads one field element token.
pub open spec fn t_fe(s: Seq<char>) -> Option<(Seq<u8>, Seq<char>)> {
    match p_tok(s) {
        None => None,
        Some((tok, r)) => match fe_of_text(tok) {
            None => None,
            Some(b) => Some((b, r)),
        },
    }
}

/// Reads one decimal token as a `u64`.
pub open spec fn t_u64(s: Seq<char>) -> Option<(u64, Seq<char>)> {
    match p_tok(s) {
        None => None,
        Some((tok, r)) => if tok.len() > 0 && all_digits(tok) && dec_val(tok) <= u64::MAX {
            Some((dec_val(tok) as u64, r))
        } else {
            None
        },
    }
}

/// Reads one decimal token as a `u8`.
pub open spec fn t_u8(s: Seq<char>) -> Option<(u8, Seq<char>)> {
    match t_u64(s) {
        None => None,
        Some((x, r)) => if x <= u8::MAX as u64 {
            Some((x as u8, r))
        } else {
            None
        },
    }
}

/// Reads one decimal token as a `u16`.
pub open spec fn t_u16(s: Seq<char>) -> Option<(u16, Seq<char>)> {
    match t_u64(s) {
        None => None,
        Some((x, r)) => if x <= u16::MAX as u64 {
            Some((x as u16, r))
        } else {
            None
        },
    }
}

/// Reads `n` sibling field-element tokens.
pub open spec fn t_sibs(s: Seq<char>, n: nat) -> Option<(Seq<Seq<u8>>, Seq<char>)>
    decreases n,
{
    if n == 0 {
        Some((Seq::empty(), s))
    } else {
        match t_fe(s) {
            None => None,
            Some((f, rest)) => match t_sibs(rest, (n - 1) as nat) {
                None => None,
                Some((sibs, rest2)) => Some((seq![f] + sibs, rest2)),
            },
        }
    }
}

/// Reads one Merkle path of the given configured depth: the sibling count
/// (rejected when above the depth), the siblings, the leaf index.
pub open spec fn t_path(s: Seq<char>, depth: u8) -> Option<(MerklePathView, Seq<char>)> {
    match t_u8(s) {
        None => None,
        Some((n, rest)) => if n > depth {
            None
        } else {
            match t_sibs(rest, n as nat) {
                None => None,
                Some((siblings, rest2)) => match t_u64(rest2) {
                    None => None,
                    Some((leaf_index, rest3)) => Some(
                        (MerklePathView { leaf_index, siblings }, rest3),
                    ),
                },
            }
        },
    }
}

/// The text of one field element token, with its line break.
pub open spec fn ser_fe_text(b: Seq<u8>) -> Seq<char> {
    ser_tok(fe_text(b))
}

/// The text of one decimal token, with its line break.
pub open spec fn ser_dec(n: nat) -> Seq<char> {
    ser_tok(dec_digits(n))
}

/// The text of a path's siblings, one token each.
pub open spec fn ser_sibs_text(sibs: Seq<Seq<u8>>) -> Seq<char>
    decreases sibs.len(),
{
    if sibs.len() == 0 {
        Seq::empty()
    } else {
        ser_fe_text(sibs[0]) + ser_sibs_text(sibs.drop_first())
    }
}

/// The text of a Merkle path: count, siblings, leaf index.
pub open spec fn ser_path_text(p: MerklePathView) -> Seq<char> {
    ser_dec(p.siblings.len()) + (ser_sibs_text(p.siblings) + ser_dec(p.leaf_index as nat))
}

/// The full text of a state path: one token per line, in field declaration
/// order.
pub open spec fn spec_display(v: StatePathView) -> Seq<char> {
    ser_fe_text(v.state_root) + (ser_path_text(v.block_path) + (ser_fe_text(v.block_hash)
        + (ser_fe_text(v.previous_block_hash) + (ser_fe_text(v.header_root)
        + (ser_path_text(v.header_path) + (ser_dec(v.header_leaf.index as nat)
        + (ser_fe_text(v.header_leaf.id) + (ser_path_text(v.transactions_path)
        + (ser_fe_text(v.transaction_id) + (ser_path_text(v.transaction_path)
        + (ser_dec(v.transaction_leaf.variant as nat) + (ser_dec(v.transaction_leaf.index as nat)
        + (ser_fe_text(v.transaction_leaf.id) + (ser_path_text(v.transition_path)
        + (ser_dec(v.transition_leaf.version as nat) + (ser_dec(v.transition_leaf.index as nat)
        + (ser_dec(v.transition_leaf.variant as nat) + ser_fe_text(
        v.transition_leaf.id,
    ))))))))))))))))))
}

/// The structural decoding of a full state-path text: the thirteen fields in
/// declaration order, with nothing left over.
pub open spec fn spec_parse_text(s: Seq<char>) -> Option<StatePathView> {
    match t_fe(s) {
        None => None,
        Some((state_root, s1)) => match t_path(s1, BLOCKS_DEPTH) {
            None => None,
            Some((block_path, s2)) => match t_fe(s2) {
                None => None,
                Some((block_hash, s3)) => match t_fe(s3) {
                    None => None,
                    Some((previous_block_hash, s4)) => match t_fe(s4) {
                        None => None,
                        Some((header_root, s5)) => match t_path(s5, HEADER_DEPTH) {
                            None => None,
                            Some((header_path, s6)) => match t_u8(s6) {
                                None => None,
                                Some((hl_index, s7)) => match t_fe(s7) {
                                    None => None,
                                    Some((hl_id, s8)) => match t_path(s8, TRANSACTIONS_DEPTH) {
                                        None => None,
                                        Some((transactions_path, s9)) => match t_fe(s9) {
                                            None => None,
                                            Some((transaction_id, s10)) => match t_path(
                                                s10,
                                                TRANSACTION_DEPTH,
                                            ) {
                                                None => None,
                                                Some((transaction_path, s11)) => match t_u8(s11) {
                                                    None => None,
                                                    Some((txl_variant, s12)) => match t_u16(s12) {
                                                        None => None,
                                                        Some((txl_index, s13)) => match t_fe(s13) {
                                                            None => None,
                                                            Some((txl_id, s14)) => match t_path(
                                                                s14,
                                                                TRANSITION_DEPTH,
                                                            ) {
                                                                None => None,
                                                                Some((transition_path, s15)) => match t_u8(
                                                                    s15,
                                                                ) {
                                                                    None => None,
                                                                    Some((tnl_version, s16)) => match t_u8(
                                                                        s16,
                                                                    ) {
                                                                        None => None,
                                                                        Some((tnl_index, s17)) => match t_u8(
                                                                            s17,
                                                                        ) {
                                                                            None => None,
                                                                            Some(
                                                                                (tnl_variant, s18),
                                                                            ) => match t_fe(s18) {
                                                                                None => None,
                                                                                Some(
                                                                                    (tnl_id, s19),
                                                                                ) => if s19.len()
                                                                                    == 0 {
                                                                                    Some(
                                                                                        StatePathView {
                                                                                            state_root,
                                                                                            block_path,
                                                                                            block_hash,
                                                                                            previous_block_hash,
                                                                                            header_root,
                                                                                            header_path,
                                                                                            header_leaf: HeaderLeafView {
                                                                                                index: hl_index,
                                                                                                id: hl_id,
                                                                                            },
                                                                                            transactions_path,
                                                                                            transaction_id,
                                                                                            transaction_path,
                                                                                            transaction_leaf: crate::transaction_leaf::TransactionLeafView {
                                                                                                variant: txl_variant,
                                                                                                index: txl_index,
                                                                                                id: txl_id,
                                                                                            },
                                                                                            transition_path,
                                                                                            transition_leaf: crate::transition_leaf::TransitionLeafView {
                                                                                                version: tnl_version,
                                                                                                index: tnl_index,
                                                                                                variant: tnl_variant,
                                                                                                id: tnl_id,
                                                                                            },
                                                                                        },
                                                                                    )
                                                                                } else {
                                                                                    None
                                                                                },
                                                                            },
                                                                        },
                                                                    },
                                                                },
                                                            },
                                                        },
                                                    },
                                                },
                                            },
                                        },
                                    },
                                },
                            },
                        },
                    },
                },
            },
        },
    }
}


/// The facts the network's field-element printer establishes for one
/// element: its text is break-free and parses back to the element.
pub open spec fn fe_text_fact(b: Seq<u8>) -> bool {
    no_nl(fe_text(b)) && fe_of_text(fe_text(b)) == Some(b)
}

/// Decodes a field element from the network's text form.
///
/// Relies on `snarkvm_console_types::Field::<MainnetV0>::from_str`: which
/// element a text spells (or that it spells none) is a function of the text
/// alone.
#[verifier::external_body]
fn fe_from_text(s: &str) -> (r: Option<FieldElement>)
    ensures
        (r is Some) <==> (fe_of_text(s@) is Some),
        r matches Some(f) ==> Some(f@) == fe_of_text(s@),
{
    match Field::<MainnetV0>::from_str(s) {
        Ok(f) => Some(FieldElement::from_bytes_le(&f.to_bytes_le().unwrap()).unwrap()),
        Err(_) => None,
    }
}

/// Prints a field element in the network's text form.
///
/// Relies on `Display` and `FromStr` of
/// `snarkvm_console_types::Field::<MainnetV0>`: the text is the element's
/// decimal value followed by the type suffix — nonempty, free of line
/// breaks, a function of the element alone — and parsing that text returns
/// the element.
#[verifier::external_body]
fn fe_to_text(f: &FieldElement) -> (r: String)
    ensures
        r@ == fe_text(f@),
        no_nl(r@),
        fe_of_text(r@) == Some(f@),
{
    let field = Field::<MainnetV0>::from_bytes_le(f.to_bytes_le().as_slice()).unwrap();
    format!("{field}")
}

/// Appends one character to a string.
///
/// Relies on `String::push`.
#[verifier::external_body]
fn push_char(s: &mut String, c: char)
    ensures
        final(s)@ == old(s)@ + seq![c],
{
    s.push(c);
}

/// The characters of a string slice, in order.
///
/// Relies on `str::chars`.
#[verifier::external_body]
fn str_chars(s: &str) -> (r: Vec<char>)
    ensures
        r@ == s@,
{
    s.chars().collect()
}

/// Builds a string from characters.
fn chars_to_string(v: &Vec<char>) -> (r: String)
    ensures
        r@ == v@,
{
    let mut r = String::new();
    let mut i: usize = 0;
    while i < v.len()
        invariant
            i <= v@.len(),
            r@ =~= v@.take(i as int),
        decreases v@.len() - i,
    {
        push_char(&mut r, v[i]);
        i += 1;
        assert(r@ =~= v@.take(i as int));
    }
    assert(r@ =~= v@);
    r
}

/// The digit character of a value below ten.
fn digit_to_char(d: u8) -> (r: char)
    requires
        d < 10,
    ensures
        r == digit_char(d as int),
{
    match d {
        0 => '0',
        1 => '1',
        2 => '2',
        3 => '3',
        4 => '4',
        5 => '5',
        6 => '6',
        7 => '7',
        8 => '8',
        _ => '9',
    }
}

/// The value of a digit character.
fn char_to_digit(c: char) -> (r: Option<u8>)
    ensures
        char_digit(c) >= 0 ==> r == Some(char_digit(c) as u8),
        char_digit(c) < 0 ==> r is None,
{
    match c {
        '0' => Some(0),
        '1' => Some(1),
        '2' => Some(2),
        '3' => Some(3),
        '4' => Some(4),
        '5' => Some(5),
        '6' => Some(6),
        '7' => Some(7),
        '8' => Some(8),
        '9' => Some(9),
        _ => None,
    }
}

/// Appends the canonical decimal spelling of `n`.
fn write_dec_digits(n: u64, out: &mut String)
    ensures
        final(out)@ == old(out)@ + dec_digits(n as nat),
    decreases n,
{
    if n < 10 {
        push_char(out, digit_to_char(n as u8));
        assert(out@ =~= old(out)@ + dec_digits(n as nat));
    } else {
        write_dec_digits(n / 10, out);
        push_char(out, digit_to_char((n % 10) as u8));
        assert(out@ =~= old(out)@ + dec_digits(n as nat));
    }
}

/// Appends one decimal token and its line break.
fn write_dec(n: u64, out: &mut String)
    ensures
        final(out)@ == old(out)@ + ser_dec(n as nat),
{
    write_dec_digits(n, out);
    push_char(out, '\n');
    assert(out@ =~= old(out)@ + ser_dec(n as nat));
}

/// Appends one field-element token and its line break.
fn write_fe_text(f: &FieldElement, out: &mut String)
    ensures
        final(out)@ == old(out)@ + ser_fe_text(f@),
        fe_text_fact(f@),
{
    let t = fe_to_text(f);
    out.append(t.as_str());
    push_char(out, '\n');
    assert(out@ =~= old(out)@ + ser_fe_text(f@));
}

/// Whether the printer facts hold for every sibling.
pub open spec fn sibs_text_fact(s: Seq<Seq<u8>>) -> bool {
    forall|j: int| 0 <= j < s.len() ==> fe_text_fact(#[trigger] s[j])
}

/// Appending a sibling appends its token to the siblings' text.
proof fn lemma_ser_sibs_push(s: Seq<Seq<u8>>, x: Seq<u8>)
    ensures
        ser_sibs_text(s.push(x)) == ser_sibs_text(s) + ser_fe_text(x),
    decreases s.len(),
{
    if s.len() == 0 {
        assert(s.push(x)[0] == x);
        assert(s.push(x).drop_first() =~= Seq::<Seq<u8>>::empty());
        assert(ser_sibs_text(Seq::<Seq<u8>>::empty()) == Seq::<char>::empty());
        assert(ser_sibs_text(s.push(x)) == ser_fe_text(x) + Seq::<char>::empty());
        assert(ser_sibs_text(s) + ser_fe_text(x) =~= ser_fe_text(x) + Seq::<char>::empty());
    } else {
        assert(s.push(x)[0] == s[0]);
        assert(s.push(x).drop_first() =~= s.drop_first().push(x));
        lemma_ser_sibs_push(s.drop_first(), x);
        assert(ser_sibs_text(s.push(x)) =~= ser_sibs_text(s) + ser_fe_text(x));
    }
}

/// Appends the text of a Merkle path: count, siblings, leaf index.
fn write_path_text(p: &MerklePath, out: &mut String)
    ensures
        final(out)@ == old(out)@ + ser_path_text(p@),
        sibs_text_fact(p@.siblings),
{
    let ghost prefix = out@;
    let sibs = p.siblings();
    write_dec(sibs.len() as u64, out);
    let mut i: usize = 0;
    while i < sibs.len()
        invariant
            i <= sibs@.len(),
            sibs@.map_values(|f: FieldElement| f@) == p@.siblings,
            out@ =~= prefix + ser_dec(p@.siblings.len()) + ser_sibs_text(
                p@.siblings.take(i as int),
            ),
            forall|j: int| 0 <= j < i ==> fe_text_fact(#[trigger] p@.siblings[j]),
        decreases sibs@.len() - i,
    {
        let fe = &sibs[i];
        write_fe_text(fe, out);
        i += 1;
        proof {
            lemma_ser_sibs_push(p@.siblings.take(i - 1), p@.siblings[i - 1]);
            assert(p@.siblings.take(i as int) =~= p@.siblings.take(i - 1).push(
                p@.siblings[i - 1],
            ));
            assert(out@ =~= prefix + ser_dec(p@.siblings.len()) + ser_sibs_text(
                p@.siblings.take(i as int),
            ));
        }
    }
    proof {
        assert(p@.siblings.take(sibs@.len() as int) =~= p@.siblings);
    }
    write_dec(p.leaf_index(), out);
    assert(out@ =~= prefix + ser_path_text(p@));
}

/// Reading a field-element token off the front of its own text recovers the
/// element.
proof fn lemma_t_fe_ser(b: Seq<u8>, rest: Seq<char>)
    requires
        fe_text_fact(b),
    ensures
        t_fe(ser_fe_text(b) + rest) == Some((b, rest)),
{
    lemma_p_tok(fe_text(b), rest);
    assert(ser_fe_text(b) + rest =~= ser_tok(fe_text(b)) + rest);
}

/// Reading a decimal token off the front of its own text recovers the value.
proof fn lemma_t_u64_ser(n: u64, rest: Seq<char>)
    ensures
        t_u64(ser_dec(n as nat) + rest) == Some((n, rest)),
{
    lemma_dec_digits(n as nat);
    lemma_p_tok(dec_digits(n as nat), rest);
    assert(ser_dec(n as nat) + rest =~= ser_tok(dec_digits(n as nat)) + rest);
}

/// The same, through the `u8` reader.
proof fn lemma_t_u8_ser(n: u8, rest: Seq<char>)
    ensures
        t_u8(ser_dec(n as nat) + rest) == Some((n, rest)),
{
    lemma_t_u64_ser(n as u64, rest);
}

/// The same, through the `u16` reader.
proof fn lemma_t_u16_ser(n: u16, rest: Seq<char>)
    ensures
        t_u16(ser_dec(n as nat) + rest) == Some((n, rest)),
{
    lemma_t_u64_ser(n as u64, rest);
}

/// Reading `n` sibling tokens off the front of their own text recovers them.
proof fn lemma_t_sibs_ser(s: Seq<Seq<u8>>, rest: Seq<char>)
    requires
        sibs_text_fact(s),
    ensures
        t_sibs(ser_sibs_text(s) + rest, s.len()) == Some((s, rest)),
    decreases s.len(),
{
    if s.len() == 0 {
        assert(ser_sibs_text(s) + rest =~= rest);
    } else {
        let tail = s.drop_first();
        assert(ser_sibs_text(s) == ser_fe_text(s[0]) + ser_sibs_text(tail));
        assert(ser_sibs_text(s) + rest =~= ser_fe_text(s[0]) + (ser_sibs_text(tail) + rest));
        lemma_t_fe_ser(s[0], ser_sibs_text(tail) + rest);
        assert(sibs_text_fact(tail));
        lemma_t_sibs_ser(tail, rest);
        assert(seq![s[0]] + tail =~= s);
    }
}

/// Reading a Merkle path off the front of its own text recovers it.
proof fn lemma_t_path_ser(p: MerklePathView, depth: u8, rest: Seq<char>)
    requires
        sibs_text_fact(p.siblings),
        p.siblings.len() == depth,
    ensures
        t_path(ser_path_text(p) + rest, depth) == Some((p, rest)),
{
    let body = ser_sibs_text(p.siblings) + ser_dec(p.leaf_index as nat);
    assert(ser_path_text(p) + rest =~= ser_dec(p.siblings.len()) + (body + rest));
    lemma_t_u8_ser(p.siblings.len() as u8, body + rest);
    assert(body + rest =~= ser_sibs_text(p.siblings) + (ser_dec(p.leaf_index as nat) + rest));
    lemma_t_sibs_ser(p.siblings, ser_dec(p.leaf_index as nat) + rest);
    lemma_t_u64_ser(p.leaf_index, rest);
}

/// Text round-trip, decoding half: parsing the printed text of any state
/// path whose field elements the printer has certified recovers that state
/// path's content exactly.
proof fn lemma_parse_display(v: StatePathView)
    requires
        crate::state_path::all_checks(v),
        fe_text_fact(v.state_root),
        sibs_text_fact(v.block_path.siblings),
        fe_text_fact(v.block_hash),
        fe_text_fact(v.previous_block_hash),
        fe_text_fact(v.header_root),
        sibs_text_fact(v.header_path.siblings),
        fe_text_fact(v.header_leaf.id),
        sibs_text_fact(v.transactions_path.siblings),
        fe_text_fact(v.transaction_id),
        sibs_text_fact(v.transaction_path.siblings),
        fe_text_fact(v.transaction_leaf.id),
        sibs_text_fact(v.transition_path.siblings),
        fe_text_fact(v.transition_leaf.id),
    ensures
        spec_parse_text(spec_display(v)) == Some(v),
{
    let empty: Seq<char> = Seq::empty();
    let r18 = ser_fe_text(v.transition_leaf.id);
    let r17 = ser_dec(v.transition_leaf.variant as nat) + r18;
    let r16 = ser_dec(v.transition_leaf.index as nat) + r17;
    let r15 = ser_dec(v.transition_leaf.version as nat) + r16;
    let r14 = ser_path_text(v.transition_path) + r15;
    let r13 = ser_fe_text(v.transaction_leaf.id) + r14;
    let r12 = ser_dec(v.transaction_leaf.index as nat) + r13;
    let r11 = ser_dec(v.transaction_leaf.variant as nat) + r12;
    let r10 = ser_path_text(v.transaction_path) + r11;
    let r9 = ser_fe_text(v.transaction_id) + r10;
    let r8 = ser_path_text(v.transactions_path) + r9;
    let r7 = ser_fe_text(v.header_leaf.id) + r8;
    let r6 = ser_dec(v.header_leaf.index as nat) + r7;
    let r5 = ser_path_text(v.header_path) + r6;
    let r4 = ser_fe_text(v.header_root) + r5;
    let r3 = ser_fe_text(v.previous_block_hash) + r4;
    let r2 = ser_fe_text(v.block_hash) + r3;
    let r1 = ser_path_text(v.block_path) + r2;
    let whole = ser_fe_text(v.state_root) + r1;
    assert(spec_display(v) == whole);
    lemma_t_fe_ser(v.state_root, r1);
    lemma_t_path_ser(v.block_path, BLOCKS_DEPTH, r2);
    lemma_t_fe_ser(v.block_hash, r3);
    lemma_t_fe_ser(v.previous_block_hash, r4);
    lemma_t_fe_ser(v.header_root, r5);
    lemma_t_path_ser(v.header_path, HEADER_DEPTH, r6);
    lemma_t_u8_ser(v.header_leaf.index, r7);
    lemma_t_fe_ser(v.header_leaf.id, r8);
    lemma_t_path_ser(v.transactions_path, TRANSACTIONS_DEPTH, r9);
    lemma_t_fe_ser(v.transaction_id, r10);
    lemma_t_path_ser(v.transaction_path, TRANSACTION_DEPTH, r11);
    lemma_t_u8_ser(v.transaction_leaf.variant, r12);
    lemma_t_u16_ser(v.transaction_leaf.index, r13);
    lemma_t_fe_ser(v.transaction_leaf.id, r14);
    lemma_t_path_ser(v.transition_path, TRANSITION_DEPTH, r15);
    lemma_t_u8_ser(v.transition_leaf.version, r16);
    lemma_t_u8_ser(v.transition_leaf.index, r17);
    lemma_t_u8_ser(v.transition_leaf.variant, r18);
    assert(r18 == ser_fe_text(v.transition_leaf.id) + empty) by {
        assert(ser_fe_text(v.transition_leaf.id) + empty =~= r18);
    }
    lemma_t_fe_ser(v.transition_leaf.id, empty);
    assert(spec_parse_text(whole) == Some(v)) by {
        assert(v =~= (StatePathView {
            state_root: v.state_root,
            block_path: v.block_path,
            block_hash: v.block_hash,
            previous_block_hash: v.previous_block_hash,
            header_root: v.header_root,
            header_path: v.header_path,
            header_leaf: HeaderLeafView { index: v.header_leaf.index, id: v.header_leaf.id },
            transactions_path: v.transactions_path,
            transaction_id: v.transaction_id,
            transaction_path: v.transaction_path,
            transaction_leaf: crate::transaction_leaf::TransactionLeafView {
                variant: v.transaction_leaf.variant,
                index: v.transaction_leaf.index,
                id: v.transaction_leaf.id,
            },
            transition_path: v.transition_path,
            transition_leaf: crate::transition_leaf::TransitionLeafView {
                version: v.transition_leaf.version,
                index: v.transition_leaf.index,
                variant: v.transition_leaf.variant,
                id: v.transition_leaf.id,
            },
        }));
    }
}

/// The tokens of a state path, written one after another, concatenate to
/// its full text.
#[verifier::rlimit(100)]
proof fn lemma_display_chain(v: StatePathView, s: Seq<char>)
    requires
        s == Seq::<char>::empty() + ser_fe_text(v.state_root) + ser_path_text(v.block_path)
            + ser_fe_text(v.block_hash) + ser_fe_text(v.previous_block_hash)
            + ser_fe_text(v.header_root) + ser_path_text(v.header_path)
            + ser_dec(v.header_leaf.index as nat) + ser_fe_text(v.header_leaf.id)
            + ser_path_text(v.transactions_path) + ser_fe_text(v.transaction_id)
            + ser_path_text(v.transaction_path) + ser_dec(v.transaction_leaf.variant as nat)
            + ser_dec(v.transaction_leaf.index as nat) + ser_fe_text(v.transaction_leaf.id)
            + ser_path_text(v.transition_path) + ser_dec(v.transition_leaf.version as nat)
            + ser_dec(v.transition_leaf.index as nat) + ser_dec(v.transition_leaf.variant as nat)
            + ser_fe_text(v.transition_leaf.id),
    ensures
        s == spec_display(v),
{
    let c1 = ser_fe_text(v.state_root);
    let c2 = ser_path_text(v.block_path);
    let c3 = ser_fe_text(v.block_hash);
    let c4 = ser_fe_text(v.previous_block_hash);
    let c5 = ser_fe_text(v.header_root);
    let c6 = ser_path_text(v.header_path);
    let c7 = ser_dec(v.header_leaf.index as nat);
    let c8 = ser_fe_text(v.header_leaf.id);
    let c9 = ser_path_text(v.transactions_path);
    let c10 = ser_fe_text(v.transaction_id);
    let c11 = ser_path_text(v.transaction_path);
    let c12 = ser_dec(v.transaction_leaf.variant as nat);
    let c13 = ser_dec(v.transaction_leaf.index as nat);
    let c14 = ser_fe_text(v.transaction_leaf.id);
    let c15 = ser_path_text(v.transition_path);
    let c16 = ser_dec(v.transition_leaf.version as nat);
    let c17 = ser_dec(v.transition_leaf.index as nat);
    let c18 = ser_dec(v.transition_leaf.variant as nat);
    let c19 = ser_fe_text(v.transition_leaf.id);
    let e = Seq::<char>::empty();
    let l0 = e;
    let l1 = l0 + c1;
    let l2 = l1 + c2;
    let l3 = l2 + c3;
    let l4 = l3 + c4;
    let l5 = l4 + c5;
    let l6 = l5 + c6;
    let l7 = l6 + c7;
    let l8 = l7 + c8;
    let l9 = l8 + c9;
    let l10 = l9 + c10;
    let l11 = l10 + c11;
    let l12 = l11 + c12;
    let l13 = l12 + c13;
    let l14 = l13 + c14;
    let l15 = l14 + c15;
    let l16 = l15 + c16;
    let l17 = l16 + c17;
    let l18 = l17 + c18;
    let l19 = l18 + c19;
    assert(s == l19);
    let t19 = c19;
    let t18 = c18 + t19;
    let t17 = c17 + t18;
    let t16 = c16 + t17;
    let t15 = c15 + t16;
    let t14 = c14 + t15;
    let t13 = c13 + t14;
    let t12 = c12 + t13;
    let t11 = c11 + t12;
    let t10 = c10 + t11;
    let t9 = c9 + t10;
    let t8 = c8 + t9;
    let t7 = c7 + t8;
    let t6 = c6 + t7;
    let t5 = c5 + t6;
    let t4 = c4 + t5;
    let t3 = c3 + t4;
    let t2 = c2 + t3;
    let t1 = c1 + t2;
    assert(l18 + t19 == l19);
    assert(l17 + t18 =~= l18 + t19);
    assert(l16 + t17 =~= l17 + t18);
    assert(l15 + t16 =~= l16 + t17);
    assert(l14 + t15 =~= l15 + t16);
    assert(l13 + t14 =~= l14 + t15);
    assert(l12 + t13 =~= l13 + t14);
    assert(l11 + t12 =~= l12 + t13);
    assert(l10 + t11 =~= l11 + t12);
    assert(l9 + t10 =~= l10 + t11);
    assert(l8 + t9 =~= l9 + t10);
    assert(l7 + t8 =~= l8 + t9);
    assert(l6 + t7 =~= l7 + t8);
    assert(l5 + t6 =~= l6 + t7);
    assert(l4 + t5 =~= l5 + t6);
    assert(l3 + t4 =~= l4 + t5);
    assert(l2 + t3 =~= l3 + t4);
    assert(l1 + t2 =~= l2 + t3);
    assert(l0 + t1 =~= l1 + t2);
    assert(l0 + t1 =~= t1);
    assert(t1 == spec_display(v));
    assert(s == spec_display(v));
}

impl StatePath {
    /// Prints this state path as its line-oriented text record. The output
    /// parses back to this very state path.
    #[verifier::rlimit(100)]
    pub fn to_text(&self) -> (r: String)
        ensures
            r@ == spec_display(self@),
            spec_parse_text(r@) == Some(self@),
    {
        proof {
            use_type_invariant(self);
        }
        let mut out = String::new();
        write_fe_text(self.state_root(), &mut out);
        write_path_text(self.block_path(), &mut out);
        write_fe_text(self.block_hash(), &mut out);
        write_fe_text(self.previous_block_hash(), &mut out);
        write_fe_text(self.header_root(), &mut out);
        write_path_text(self.header_path(), &mut out);
        write_dec(self.header_leaf().index() as u64, &mut out);
        write_fe_text(self.header_leaf().id(), &mut out);
        write_path_text(self.transactions_path(), &mut out);
        write_fe_text(self.transaction_id(), &mut out);
        write_path_text(self.transaction_path(), &mut out);
        write_dec(self.transaction_leaf().variant() as u64, &mut out);
        write_dec(self.transaction_leaf().index() as u64, &mut out);
        write_fe_text(self.transaction_leaf().id(), &mut out);
        write_path_text(self.transition_path(), &mut out);
        write_dec(self.transition_leaf().version() as u64, &mut out);
        write_dec(self.transition_leaf().index() as u64, &mut out);
        write_dec(self.transition_leaf().variant() as u64, &mut out);
        write_fe_text(self.transition_leaf().id(), &mut out);
        proof {
            lemma_display_chain(self@, out@);
            lemma_parse_display(self@);
        }
        out
    }
}


/// A break-free prefix passes through the token reader unchanged.
proof fn lemma_p_tok_prepend(seg: Seq<char>, rest: Seq<char>)
    requires
        no_nl(seg),
    ensures
        p_tok(seg + rest) == (match p_tok(rest) {
            None => None::<(Seq<char>, Seq<char>)>,
            Some((t, r)) => Some((seg + t, r)),
        }),
    decreases seg.len(),
{
    if seg.len() == 0 {
        assert(seg + rest =~= rest);
        match p_tok(rest) {
            None => {},
            Some((t, r)) => {
                assert(seg + t =~= t);
            },
        }
    } else {
        let s = seg + rest;
        assert(s[0] == seg[0]);
        assert(s[0] != '\n');
        assert(s.len() > 0);
        assert(no_nl(seg.drop_first()));
        lemma_p_tok_prepend(seg.drop_first(), rest);
        assert(s.drop_first() =~= seg.drop_first() + rest);
        match p_tok(rest) {
            None => {},
            Some((t, r)) => {
                assert(seq![s[0]] + (seg.drop_first() + t) =~= seg + t);
            },
        }
    }
}

/// Reads one token at `pos`: the characters up to the next line break.
fn read_token(s: &Vec<char>, pos: usize) -> (r: Option<(Vec<char>, usize)>)
    requires
        pos <= s@.len(),
    ensures
        (match r {
            Some(t) => {
                &&& p_tok(s@.skip(pos as int)) == Some((t.0@, s@.skip(t.1 as int)))
                &&& pos < t.1 <= s@.len()
            },
            None => p_tok(s@.skip(pos as int)) is None,
        }),
{
    let mut tok: Vec<char> = Vec::new();
    let mut i: usize = pos;
    let slen = s.len();
    while i < slen
        invariant
            pos <= i <= s@.len(),
            slen == s@.len(),
            tok@ =~= s@.subrange(pos as int, i as int),
            no_nl(tok@),
        decreases s@.len() - i,
    {
        let c = s[i];
        if c == '\n' {
            proof {
                assert(s@.skip(i as int)[0] == '\n');
                assert(s@.skip(i as int).drop_first() =~= s@.skip(i + 1));
                assert(p_tok(s@.skip(i as int)) == Some(
                    (Seq::<char>::empty(), s@.skip(i + 1)),
                ));
                lemma_p_tok_prepend(tok@, s@.skip(i as int));
                assert(s@.skip(pos as int) =~= tok@ + s@.skip(i as int));
                assert(tok@ + Seq::<char>::empty() =~= tok@);
            }
            return Some((tok, i + 1));
        }
        tok.push(c);
        i += 1;
        assert(tok@ =~= s@.subrange(pos as int, i as int));
    }
    proof {
        assert(s@.skip(i as int).len() == 0);
        assert(p_tok(s@.skip(i as int)) is None);
        lemma_p_tok_prepend(tok@, s@.skip(i as int));
        assert(s@.skip(pos as int) =~= tok@ + s@.skip(i as int));
    }
    None
}

/// Parses a whole token as a decimal value.
fn parse_dec(tok: &Vec<char>) -> (r: Option<u64>)
    ensures
        r == (if tok@.len() > 0 && all_digits(tok@) && dec_val(tok@) <= u64::MAX {
            Some(dec_val(tok@) as u64)
        } else {
            None::<u64>
        }),
{
    if tok.len() == 0 {
        return None;
    }
    let mut acc: u64 = 0;
    let mut i: usize = 0;
    while i < tok.len()
        invariant
            i <= tok@.len(),
            tok@.len() > 0,
            all_digits(tok@.take(i as int)),
            acc == dec_val(tok@.take(i as int)),
        decreases tok@.len() - i,
    {
        let c = tok[i];
        let d = match char_to_digit(c) {
            Some(d) => d,
            None => {
                proof {
                    assert(!is_digit(tok@[i as int]));
                    assert(!all_digits(tok@));
                }
                return None;
            },
        };
        proof {
            assert(tok@.take(i + 1).drop_last() =~= tok@.take(i as int));
            assert(tok@.take(i + 1).last() == tok@[i as int]);
            assert(all_digits(tok@.take(i + 1)));
        }
        if acc > (u64::MAX - d as u64) / 10 {
            proof {
                let q = (u64::MAX - d as u64) / 10;
                assert(acc * 10 + d > u64::MAX) by (nonlinear_arith)
                    requires
                        acc > (u64::MAX - d as u64) / 10,
                        d < 10,
                        q == (u64::MAX - d as u64) / 10,
                {
                }
                assert(dec_val(tok@.take(i + 1)) == acc * 10 + d);
                if all_digits(tok@) {
                    lemma_dec_val_prefix(tok@, i + 1);
                    assert(dec_val(tok@) > u64::MAX);
                }
            }
            return None;
        }
        proof {
            assert(acc * 10 + d <= u64::MAX) by (nonlinear_arith)
                requires
                    acc <= (u64::MAX - d as u64) / 10,
                    d < 10,
            {
            }
        }
        acc = acc * 10 + d as u64;
        i += 1;
    }
    proof {
        assert(tok@.take(i as int) =~= tok@);
    }
    Some(acc)
}

/// Reads one field-element token at `pos`.
fn read_fe_text(s: &Vec<char>, pos: usize) -> (r: Option<(FieldElement, usize)>)
    requires
        pos <= s@.len(),
    ensures
        (match r {
            Some(t) => {
                &&& t_fe(s@.skip(pos as int)) == Some((t.0@, s@.skip(t.1 as int)))
                &&& pos < t.1 <= s@.len()
            },
            None => t_fe(s@.skip(pos as int)) is None,
        }),
{
    match read_token(s, pos) {
        None => None,
        Some((tok, p1)) => {
            let st = chars_to_string(&tok);
            match fe_from_text(st.as_str()) {
                None => None,
                Some(f) => Some((f, p1)),
            }
        },
    }
}

/// Reads one decimal token at `pos` as a `u64`.
fn read_dec(s: &Vec<char>, pos: usize) -> (r: Option<(u64, usize)>)
    requires
        pos <= s@.len(),
    ensures
        (match r {
            Some(t) => {
                &&& t_u64(s@.skip(pos as int)) == Some((t.0, s@.skip(t.1 as int)))
                &&& pos < t.1 <= s@.len()
            },
            None => t_u64(s@.skip(pos as int)) is None,
        }),
{
    match read_token(s, pos) {
        None => None,
        Some((tok, p1)) => match parse_dec(&tok) {
            None => None,
            Some(x) => Some((x, p1)),
        },
    }
}

/// Reads one decimal token at `pos` as a `u8`.
fn read_dec_u8(s: &Vec<char>, pos: usize) -> (r: Option<(u8, usize)>)
    requires
        pos <= s@.len(),
    ensures
        (match r {
            Some(t) => {
                &&& t_u8(s@.skip(pos as int)) == Some((t.0, s@.skip(t.1 as int)))
                &&& pos < t.1 <= s@.len()
            },
            None => t_u8(s@.skip(pos as int)) is None,
        }),
{
    match read_dec(s, pos) {
        None => None,
        Some((x, p1)) => {
            if x <= u8::MAX as u64 {
                Some((x as u8, p1))
            } else {
                None
            }
        },
    }
}

/// Reads one decimal token at `pos` as a `u16`.
fn read_dec_u16(s: &Vec<char>, pos: usize) -> (r: Option<(u16, usize)>)
    requires
        pos <= s@.len(),
    ensures
        (match r {
            Some(t) => {
                &&& t_u16(s@.skip(pos as int)) == Some((t.0, s@.skip(t.1 as int)))
                &&& pos < t.1 <= s@.len()
            },
            None => t_u16(s@.skip(pos as int)) is None,
        }),
{
    match read_dec(s, pos) {
        None => None,
        Some((x, p1)) => {
            if x <= u16::MAX as u64 {
                Some((x as u16, p1))
            } else {
                None
            }
        },
    }
}

/// Reads `n` sibling tokens at `pos`.
fn read_sibs_text(s: &Vec<char>, pos: usize, n: u8) -> (r: Option<(Vec<FieldElement>, usize)>)
    requires
        pos <= s@.len(),
    ensures
        (match r {
            Some(t) => {
                &&& t_sibs(s@.skip(pos as int), n as nat) == Some(
                    (t.0@.map_values(|f: FieldElement| f@), s@.skip(t.1 as int)),
                )
                &&& pos <= t.1 <= s@.len()
            },
            None => t_sibs(s@.skip(pos as int), n as nat) is None,
        }),
    decreases n,
{
    if n == 0 {
        let v: Vec<FieldElement> = Vec::new();
        proof {
            assert(v@.map_values(|f: FieldElement| f@) =~= Seq::<Seq<u8>>::empty());
        }
        Some((v, pos))
    } else {
        match read_fe_text(s, pos) {
            None => None,
            Some((f, p1)) => match read_sibs_text(s, p1, n - 1) {
                None => None,
                Some((mut v, p2)) => {
                    let ghost tail = v@.map_values(|f: FieldElement| f@);
                    v.insert(0, f);
                    proof {
                        assert(v@.map_values(|f: FieldElement| f@) =~= seq![f@] + tail);
                    }
                    Some((v, p2))
                },
            },
        }
    }
}

/// Reads one Merkle path of the given configured depth at `pos`.
fn read_path_text(s: &Vec<char>, pos: usize, depth: u8) -> (r: Option<(MerklePath, usize)>)
    requires
        pos <= s@.len(),
    ensures
        (match r {
            Some(t) => {
                &&& t_path(s@.skip(pos as int), depth) == Some((t.0@, s@.skip(t.1 as int)))
                &&& pos <= t.1 <= s@.len()
            },
            None => t_path(s@.skip(pos as int), depth) is None,
        }),
{
    match read_dec_u8(s, pos) {
        None => None,
        Some((n, p1)) => {
            if n > depth {
                return None;
            }
            match read_sibs_text(s, p1, n) {
                None => None,
                Some((siblings, p2)) => match read_dec(s, p2) {
                    None => None,
                    Some((leaf_index, p3)) => {
                        let ghost sib_views = siblings@.map_values(|f: FieldElement| f@);
                        let path = MerklePath::new(leaf_index, siblings);
                        proof {
                            assert(path@ =~= (MerklePathView {
                                leaf_index,
                                siblings: sib_views,
                            }));
                        }
                        Some((path, p3))
                    },
                },
            }
        },
    }
}

impl StatePath {
    /// Parses a state path from its line-oriented text record, then runs the
    /// six construction checks: exactly the printed texts of sound state
    /// paths parse to `Ok`; a structurally malformed text is rejected as a
    /// deserialization error, and a structurally sound one whose checks fail
    /// is rejected with the first failing check's error.
    #[verifier::rlimit(100)]
    pub fn from_text(s: &str) -> (r: Result<StatePath, StatePathError>)
        ensures
            (match spec_parse_text(s@) {
                Some(v) => match r {
                    Ok(sp) => crate::state_path::all_checks(v) && sp@ == v,
                    Err(e) => !crate::state_path::all_checks(v) && e@
                        == crate::state_path::first_failing_error(v),
                },
                None => r matches Err(e) && e@
                    == crate::state_path::StatePathErrorView::Deserialization,
            }),
    {
        let chars = str_chars(s);
        proof {
            assert(chars@.skip(0) =~= chars@);
        }
        let (state_root, pos) = match read_fe_text(&chars, 0) {
            Some(t) => t,
            None => {
                return Err(StatePathError::Deserialization);
            },
        };
        let (block_path, pos) = match read_path_text(&chars, pos, BLOCKS_DEPTH) {
            Some(t) => t,
            None => {
                return Err(StatePathError::Deserialization);
            },
        };
        let (block_hash, pos) = match read_fe_text(&chars, pos) {
            Some(t) => t,
            None => {
                return Err(StatePathError::Deserialization);
            },
        };
        let (previous_block_hash, pos) = match read_fe_text(&chars, pos) {
            Some(t) => t,
            None => {
                return Err(StatePathError::Deserialization);
            },
        };
        let (header_root, pos) = match read_fe_text(&chars, pos) {
            Some(t) => t,
            None => {
                return Err(StatePathError::Deserialization);
            },
        };
        let (header_path, pos) = match read_path_text(&chars, pos, HEADER_DEPTH) {
            Some(t) => t,
            None => {
                return Err(StatePathError::Deserialization);
            },
        };
        let (hl_index, pos) = match read_dec_u8(&chars, pos) {
            Some(t) => t,
            None => {
                return Err(StatePathError::Deserialization);
            },
        };
        let (hl_id, pos) = match read_fe_text(&chars, pos) {
            Some(t) => t,
            None => {
                return Err(StatePathError::Deserialization);
            },
        };
        let header_leaf = HeaderLeaf::new(hl_index, hl_id);
        let (transactions_path, pos) = match read_path_text(&chars, pos, TRANSACTIONS_DEPTH) {
            Some(t) => t,
            None => {
                return Err(StatePathError::Deserialization);
            },
        };
        let (transaction_id, pos) = match read_fe_text(&chars, pos) {
            Some(t) => t,
            None => {
                return Err(StatePathError::Deserialization);
            },
        };
        let (transaction_path, pos) = match read_path_text(&chars, pos, TRANSACTION_DEPTH) {
            Some(t) => t,
            None => {
                return Err(StatePathError::Deserialization);
            },
        };
        let (txl_variant, pos) = match read_dec_u8(&chars, pos) {
            Some(t) => t,
            None => {
                return Err(StatePathError::Deserialization);
            },
        };
        let (txl_index, pos) = match read_dec_u16(&chars, pos) {
            Some(t) => t,
            None => {
                return Err(StatePathError::Deserialization);
            },
        };
        let (txl_id, pos) = match read_fe_text(&chars, pos) {
            Some(t) => t,
            None => {
                return Err(StatePathError::Deserialization);
            },
        };
        let transaction_leaf = crate::transaction_leaf::TransactionLeaf::new(
            txl_variant,
            txl_index,
            txl_id,
        );
        let (transition_path, pos) = match read_path_text(&chars, pos, TRANSITION_DEPTH) {
            Some(t) => t,
            None => {
                return Err(StatePathError::Deserialization);
            },
        };
        let (tnl_version, pos) = match read_dec_u8(&chars, pos) {
            Some(t) => t,
            None => {
                return Err(StatePathError::Deserialization);
            },
        };
        let (tnl_index, pos) = match read_dec_u8(&chars, pos) {
            Some(t) => t,
            None => {
                return Err(StatePathError::Deserialization);
            },
        };
        let (tnl_variant, pos) = match read_dec_u8(&chars, pos) {
            Some(t) => t,
            None => {
                return Err(StatePathError::Deserialization);
            },
        };
        let (tnl_id, pos) = match read_fe_text(&chars, pos) {
            Some(t) => t,
            None => {
                return Err(StatePathError::Deserialization);
            },
        };
        let transition_leaf = crate::transition_leaf::TransitionLeaf::new(
            tnl_version,
            tnl_index,
            tnl_variant,
            tnl_id,
        );
        if pos != chars.len() {
            proof {
                assert(chars@.skip(pos as int).len() != 0);
            }
            return Err(StatePathError::Deserialization);
        }
        proof {
            assert(chars@.skip(pos as int).len() == 0);
        }
        StatePath::from(
            state_root,
            block_path,
            block_hash,
            previous_block_hash,
            header_root,
            header_path,
            header_leaf,
            transactions_path,
            transaction_id,
            transaction_path,
            transaction_leaf,
            transition_path,
            transition_leaf,
        )
    }
}

} // verus!

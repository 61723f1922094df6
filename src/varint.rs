//! The order-preserving variable-length encoding of `u64` that prefixes each
//! frame and follows the envelope's magic bytes.
//!
//! The first byte's upper four bits give the number `l` of bytes that follow
//! it (0 to 8); its lower four bits and those `l` bytes hold the value, most
//! significant first. The encoding itself is done by `ordered_varint`.
use ordered_varint::Variable;
use vstd::arithmetic::div_mod::{
    lemma_fundamental_div_mod, lemma_fundamental_div_mod_converse, lemma_mod_breakdown,
};
use vstd::prelude::*;

verus! {

/// The longest encoding of a `u64`: one length byte and eight value bytes.
pub const MAX_VARINT_LEN: usize = 9;

/// 256 to the power `n`.
pub open spec fn pow256(n: nat) -> nat
    decreases n,
{
    if n == 0 {
        1
    } else {
        256 * pow256((n - 1) as nat)
    }
}

/// `n` bytes that hold `x` modulo `256^n`, most significant first.
pub open spec fn be_bytes(x: nat, n: nat) -> Seq<u8>
    decreases n,
{
    if n == 0 {
        Seq::empty()
    } else {
        be_bytes(x / 256, (n - 1) as nat).push((x % 256) as u8)
    }
}

/// The number that `s` denotes, most significant byte first.
pub open spec fn be_value(s: Seq<u8>) -> nat
    decreases s.len(),
{
    if s.len() == 0 {
        0
    } else {
        be_value(s.drop_last()) * 256 + s.last() as nat
    }
}

/// The least `l`, from `from` on and at most 8, with `v < 16 * 256^l`.
pub open spec fn extra_from(v: nat, from: nat) -> nat
    decreases 8 - from,
{
    if from >= 8 || v < 16 * pow256(from) {
        from
    } else {
        extra_from(v, from + 1)
    }
}

/// The number of bytes that follow the first one in the encoding of `v`.
pub open spec fn varint_extra(v: u64) -> nat {
    extra_from(v as nat, 0)
}

/// The encoding of `v`: the length nibble with the value's top four bits,
/// then the value's lower bytes, most significant first.
pub open spec fn varint_bytes(v: u64) -> Seq<u8> {
    let l = varint_extra(v);
    seq![(16 * l + v as nat / pow256(l)) as u8] + be_bytes(v as nat % pow256(l), l)
}

/// The first byte of `s` announces more than eight bytes after it.
pub open spec fn varint_malformed(s: Seq<u8>) -> bool {
    s.len() > 0 && s[0] / 16 > 8
}

/// The number of bytes that the encoding at the front of `s` takes,
/// as its first byte announces it.
pub open spec fn varint_width(s: Seq<u8>) -> nat
    recommends
        s.len() > 0,
{
    (s[0] / 16 + 1) as nat
}

/// `s` starts with a whole encoding.
pub open spec fn varint_complete(s: Seq<u8>) -> bool {
    s.len() > 0 && !varint_malformed(s) && s.len() >= varint_width(s)
}

/// The value that the whole encoding at the front of `s` holds. With eight
/// bytes after the first, the first byte's lower bits are or-ed into the
/// most significant byte.
pub open spec fn varint_value(s: Seq<u8>) -> nat
    recommends
        varint_complete(s),
{
    let l = (s[0] / 16) as nat;
    if l < 8 {
        (s[0] % 16) as nat * pow256(l) + be_value(s.subrange(1, l as int + 1))
    } else {
        be_value(s.subrange(1, 9).update(0, s[1] | (s[0] % 16)))
    }
}

/// Relies on `ordered_varint::Variable::decode_variable` for `u64`, reading
/// from a byte slice: it reads one byte, fails if its upper four bits exceed
/// 8, reads that many more bytes (failing at the end of the slice), and
/// assembles the value as `varint_value` states. On success the slice has
/// been advanced past exactly the bytes read.
#[verifier::external_body]
pub(crate) fn read_varint(bytes: &[u8]) -> (r: Option<(u64, &[u8])>)
    ensures
        r is Some <==> varint_complete(bytes@),
        r matches Some((v, rest)) ==> v as nat == varint_value(bytes@) && rest@ == bytes@.skip(
            varint_width(bytes@) as int,
        ),
{
    let mut rest = bytes;
    match u64::decode_variable(&mut rest) {
        Ok(v) => Some((v, rest)),
        Err(_) => None,
    }
}

/// Relies on `ordered_varint::Variable::encode_variable` for `u64`, writing
/// to a `Vec<u8>`: it appends the encoding of `varint_bytes` and returns its
/// length. Writing to a vector does not fail.
#[verifier::external_body]
pub(crate) fn write_varint(value: u64, out: &mut Vec<u8>) -> (r: Option<usize>)
    ensures
        final(out)@ == old(out)@ + varint_bytes(value),
        r == Some(varint_bytes(value).len() as usize),
{
    value.encode_variable(out).ok()
}

pub proof fn lemma_pow256_positive(n: nat)
    ensures
        pow256(n) > 0,
    decreases n,
{
    if n > 0 {
        lemma_pow256_positive((n - 1) as nat);
    }
}

pub proof fn lemma_be_bytes_len(x: nat, n: nat)
    ensures
        be_bytes(x, n).len() == n,
    decreases n,
{
    if n > 0 {
        lemma_be_bytes_len(x / 256, (n - 1) as nat);
    }
}

pub proof fn lemma_be_value_of_bytes(x: nat, n: nat)
    ensures
        be_value(be_bytes(x, n)) == x % pow256(n),
    decreases n,
{
    if n == 0 {
        assert(x % 1 == 0);
    } else {
        let p = pow256((n - 1) as nat);
        lemma_pow256_positive((n - 1) as nat);
        lemma_be_value_of_bytes(x / 256, (n - 1) as nat);
        let s = be_bytes(x, n);
        assert(s.drop_last() =~= be_bytes(x / 256, (n - 1) as nat));
        lemma_mod_breakdown(x as int, 256, p as int);
    }
}

proof fn lemma_extra_from(v: nat, from: nat)
    requires
        from <= 8,
    ensures
        from <= extra_from(v, from) <= 8,
        extra_from(v, from) < 8 ==> v < 16 * pow256(extra_from(v, from)),
    decreases 8 - from,
{
    if from < 8 && v >= 16 * pow256(from) {
        lemma_extra_from(v, from + 1);
    }
}

/// The encoding of `v` takes between one and nine bytes.
pub proof fn lemma_varint_len(v: u64)
    ensures
        1 <= varint_bytes(v).len() <= MAX_VARINT_LEN,
        varint_bytes(v).len() == varint_extra(v) + 1,
{
    lemma_extra_from(v as nat, 0);
    lemma_be_bytes_len(v as nat % pow256(varint_extra(v)), varint_extra(v));
}

/// Reading the encoding of `v`, whatever follows it, gives back `v` and
/// takes exactly the encoding's bytes.
pub proof fn lemma_varint_round_trip(v: u64, rest: Seq<u8>)
    ensures
        varint_complete(varint_bytes(v) + rest),
        varint_width(varint_bytes(v) + rest) == varint_bytes(v).len(),
        varint_value(varint_bytes(v) + rest) == v,
{
    let l = varint_extra(v);
    let p = pow256(l);
    let e = varint_bytes(v);
    let s = e + rest;
    lemma_extra_from(v as nat, 0);
    lemma_varint_len(v);
    lemma_pow256_positive(l);
    lemma_be_value_of_bytes(v as nat % p, l);
    lemma_fundamental_div_mod(v as int, p as int);
    let q = v as nat / p;
    if l < 8 {
        assert(q < 16) by (nonlinear_arith)
            requires
                v < 16 * p,
                p > 0,
                q == v as nat / p,
        ;
    } else {
        reveal_with_fuel(pow256, 9);
        assert(pow256(8) == 0x1_0000_0000_0000_0000);
        assert(l == 8);
        assert(v < p);
        vstd::arithmetic::div_mod::lemma_basic_div(v as int, p as int);
        vstd::arithmetic::div_mod::lemma_small_mod(v as nat, p);
        assert(q == 0);
    }
    let first: u8 = (16 * l + q) as u8;
    assert(s[0] == first);
    lemma_fundamental_div_mod_converse(first as int, 16, l as int, q as int);
    assert(first / 16 == l);
    assert(first % 16 == q);
    assert(s.subrange(1, l as int + 1) =~= be_bytes(v as nat % p, l));
    if l < 8 {
        assert((v as nat % p) % p == v as nat % p) by {
            vstd::arithmetic::div_mod::lemma_mod_twice(v as int, p as int);
        }
    } else {
        let b = s[1];
        assert(b | 0u8 == b) by (bit_vector);
        assert(s.subrange(1, 9).update(0, s[1] | (s[0] % 16)) =~= s.subrange(1, 9));
        assert(v as nat % p == v as nat);
        assert((v as nat) % p == v as nat);
    }
}

/// A proper prefix of an encoding is neither whole nor malformed: a reader
/// that holds it waits for more bytes.
pub proof fn lemma_varint_prefix_incomplete(v: u64, k: nat)
    requires
        k < varint_bytes(v).len(),
    ensures
        !varint_complete(varint_bytes(v).take(k as int)),
        !varint_malformed(varint_bytes(v).take(k as int)),
{
    if k > 0 {
        lemma_varint_round_trip(v, Seq::empty());
        assert(varint_bytes(v) + Seq::<u8>::empty() =~= varint_bytes(v));
    }
}

} // verus!

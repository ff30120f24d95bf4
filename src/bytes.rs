//! The mathematical model of fixed-width unsigned integers on the wire.
//!
//! A byte sequence is read as a number with the first byte least
//! significant (little endian) or most significant (big endian).
use vstd::arithmetic::div_mod::lemma_mod_breakdown;
use vstd::prelude::*;

verus! {

/// `256` raised to the power `n`: the number of values that `n` bytes hold.
pub open spec fn pow256(n: nat) -> nat
    decreases n,
{
    if n == 0 {
        1
    } else {
        256 * pow256((n - 1) as nat)
    }
}

/// The number that `s` denotes when its first byte is the least significant.
pub open spec fn le_value(s: Seq<u8>) -> nat
    decreases s.len(),
{
    if s.len() == 0 {
        0
    } else {
        s[0] as nat + 256 * le_value(s.drop_first())
    }
}

/// The `n` low bytes of `v`, least significant first.
pub open spec fn le_bytes(v: nat, n: nat) -> Seq<u8>
    decreases n,
{
    if n == 0 {
        Seq::empty()
    } else {
        seq![(v % 256) as u8] + le_bytes(v / 256, (n - 1) as nat)
    }
}

/// The number that `s` denotes in the given byte order.
pub open spec fn uint_from_bytes(s: Seq<u8>, big_endian: bool) -> nat {
    if big_endian {
        le_value(s.reverse())
    } else {
        le_value(s)
    }
}

/// The `n` bytes that encode `v` modulo `256^n` in the given byte order.
pub open spec fn uint_to_bytes(v: nat, n: nat, big_endian: bool) -> Seq<u8> {
    if big_endian {
        le_bytes(v, n).reverse()
    } else {
        le_bytes(v, n)
    }
}

pub proof fn lemma_pow256_values()
    ensures
        pow256(1) == 0x100,
        pow256(2) == 0x1_0000,
        pow256(4) == 0x1_0000_0000,
        pow256(8) == 0x1_0000_0000_0000_0000,
        pow256(16) == 0x1_0000_0000_0000_0000_0000_0000_0000_0000,
{
    reveal_with_fuel(pow256, 17);
}

pub proof fn lemma_le_bytes_len(v: nat, n: nat)
    ensures
        le_bytes(v, n).len() == n,
    decreases n,
{
    if n > 0 {
        lemma_le_bytes_len(v / 256, (n - 1) as nat);
    }
}

pub proof fn lemma_le_value_bound(s: Seq<u8>)
    ensures
        le_value(s) < pow256(s.len()),
    decreases s.len(),
{
    if s.len() > 0 {
        lemma_le_value_bound(s.drop_first());
    }
}

/// Reading back the `n` low bytes of `v` gives `v` modulo `256^n`.
pub proof fn lemma_le_round_trip(v: nat, n: nat)
    ensures
        le_value(le_bytes(v, n)) == v % pow256(n),
    decreases n,
{
    lemma_le_bytes_len(v, n);
    if n == 0 {
        assert(v % 1 == 0) by (nonlinear_arith);
    } else {
        let m = (n - 1) as nat;
        lemma_le_round_trip(v / 256, m);
        let s = le_bytes(v, n);
        assert(s.drop_first() =~= le_bytes(v / 256, m));
        lemma_pow256_positive(m);
        lemma_mod_breakdown(v as int, 256, pow256(m) as int);
    }
}

pub proof fn lemma_pow256_positive(n: nat)
    ensures
        pow256(n) > 0,
    decreases n,
{
    if n > 0 {
        lemma_pow256_positive((n - 1) as nat);
    }
}

/// Encoding `v` in `n` bytes and decoding gives `v` modulo `256^n`, in
/// either byte order.
pub proof fn lemma_uint_round_trip(v: nat, n: nat, big_endian: bool)
    ensures
        uint_to_bytes(v, n, big_endian).len() == n,
        uint_from_bytes(uint_to_bytes(v, n, big_endian), big_endian) == v % pow256(n),
{
    lemma_le_bytes_len(v, n);
    lemma_le_round_trip(v, n);
    if big_endian {
        let s = le_bytes(v, n);
        assert(s.reverse().reverse() =~= s);
    }
}

} // verus!

//! The 256-bit candidate counter, stored least significant byte first.

use vstd::prelude::*;
use vstd::arithmetic::div_mod::{
    lemma_add_mod_noop, lemma_mod_breakdown, lemma_mod_mod, lemma_mod_multiples_vanish,
    lemma_small_mod,
};

verus! {

/// Width of a candidate in bytes.
pub const CANDIDATE_LEN: usize = 32;

/// `256` to the power `n`: how many values a byte string of length `n` holds.
pub open spec fn byte_space(n: nat) -> nat
    decreases n,
{
    if n == 0 {
        1
    } else {
        256 * byte_space((n - 1) as nat)
    }
}

/// The number a byte string denotes, least significant byte first.
pub open spec fn le_value(b: Seq<u8>) -> nat
    decreases b.len(),
{
    if b.len() == 0 {
        0
    } else {
        b[0] as nat + 256 * le_value(b.drop_first())
    }
}

/// The `len` low-order bytes of `v`, least significant first.
pub open spec fn le_bytes(v: nat, len: nat) -> Seq<u8>
    decreases len,
{
    if len == 0 {
        Seq::empty()
    } else {
        seq![(v % 256) as u8] + le_bytes(v / 256, (len - 1) as nat)
    }
}

/// `b` advanced by `n`, keeping its width: the sum wraps around modulo
/// `byte_space(b.len())`.
pub open spec fn advanced(b: Seq<u8>, n: nat) -> Seq<u8> {
    le_bytes(le_value(b) + n, b.len())
}

pub proof fn lemma_byte_space_pos(n: nat)
    ensures
        byte_space(n) > 0,
    decreases n,
{
    if n > 0 {
        lemma_byte_space_pos((n - 1) as nat);
    }
}

pub proof fn lemma_le_value_bound(b: Seq<u8>)
    ensures
        le_value(b) < byte_space(b.len()),
    decreases b.len(),
{
    if b.len() > 0 {
        lemma_le_value_bound(b.drop_first());
        let r = le_value(b.drop_first());
        let s = byte_space((b.len() - 1) as nat);
        assert(b[0] as nat + 256 * r < 256 * s) by (nonlinear_arith)
            requires
                r < s,
                b[0] < 256,
        ;
    }
}

pub proof fn lemma_le_bytes_len(v: nat, len: nat)
    ensures
        le_bytes(v, len).len() == len,
    decreases len,
{
    if len > 0 {
        lemma_le_bytes_len(v / 256, (len - 1) as nat);
    }
}

pub proof fn lemma_le_value_of_bytes(v: nat, len: nat)
    ensures
        le_value(le_bytes(v, len)) == v % byte_space(len),
    decreases len,
{
    lemma_byte_space_pos(len);
    if len == 0 {
        lemma_small_mod(0, 1);
        assert(v % 1 == 0);
    } else {
        let rest = le_bytes(v / 256, (len - 1) as nat);
        let s = le_bytes(v, len);
        assert(s.drop_first() =~= rest);
        lemma_le_value_of_bytes(v / 256, (len - 1) as nat);
        lemma_byte_space_pos((len - 1) as nat);
        lemma_mod_breakdown(v as int, 256, byte_space((len - 1) as nat) as int);
    }
}

/// Two byte strings of one length that denote the same number are equal.
pub proof fn lemma_le_value_injective(x: Seq<u8>, y: Seq<u8>)
    requires
        x.len() == y.len(),
        le_value(x) == le_value(y),
    ensures
        x == y,
    decreases x.len(),
{
    if x.len() > 0 {
        let rx = le_value(x.drop_first());
        let ry = le_value(y.drop_first());
        lemma_mod_multiples_vanish(rx as int, x[0] as int, 256);
        lemma_mod_multiples_vanish(ry as int, y[0] as int, 256);
        lemma_small_mod(x[0] as nat, 256);
        lemma_small_mod(y[0] as nat, 256);
        assert(x[0] == y[0]);
        lemma_le_value_injective(x.drop_first(), y.drop_first());
        assert(x =~= seq![x[0]] + x.drop_first());
        assert(y =~= seq![y[0]] + y.drop_first());
    }
}

pub proof fn lemma_le_value_concat(a: Seq<u8>, b: Seq<u8>)
    ensures
        le_value(a + b) == le_value(a) + byte_space(a.len()) * le_value(b),
    decreases a.len(),
{
    if a.len() > 0 {
        assert((a + b).drop_first() =~= a.drop_first() + b);
        assert((a + b)[0] == a[0]);
        lemma_le_value_concat(a.drop_first(), b);
        let s = byte_space((a.len() - 1) as nat);
        let ra = le_value(a.drop_first());
        let rb = le_value(b);
        assert(le_value(a + b) == a[0] + 256 * le_value(a.drop_first() + b));
        assert(le_value(a) == a[0] + 256 * ra);
        assert(byte_space(a.len()) == 256 * s);
        assert(256 * (ra + s * rb) == 256 * ra + (256 * s) * rb) by (nonlinear_arith);
    } else {
        assert(a + b =~= b);
        assert(le_value(a) == 0);
        assert(byte_space(0) == 1);
    }
}

pub proof fn lemma_le_value_single(x: u8)
    ensures
        le_value(seq![x]) == x,
{
    assert(seq![x].drop_first() =~= Seq::<u8>::empty());
    assert(le_value(Seq::<u8>::empty()) == 0);
}

/// The result of `advanced` denotes the sum modulo the width's range.
pub proof fn lemma_advanced_value(b: Seq<u8>, n: nat)
    ensures
        advanced(b, n).len() == b.len(),
        le_value(advanced(b, n)) == (le_value(b) + n) % byte_space(b.len()),
{
    lemma_le_bytes_len(le_value(b) + n, b.len());
    lemma_le_value_of_bytes(le_value(b) + n, b.len());
}

/// Advancing by zero changes nothing.
pub proof fn lemma_advanced_by_zero(b: Seq<u8>)
    ensures
        advanced(b, 0) == b,
{
    lemma_advanced_value(b, 0);
    lemma_le_value_bound(b);
    lemma_byte_space_pos(b.len());
    lemma_small_mod(le_value(b), byte_space(b.len()));
    lemma_le_value_injective(advanced(b, 0), b);
}

/// Advancing by `n1` and then by `n2` is advancing by `n1 + n2`.
pub proof fn lemma_advance_associative(b: Seq<u8>, n1: nat, n2: nat)
    ensures
        advanced(advanced(b, n1), n2) == advanced(b, n1 + n2),
{
    let m = byte_space(b.len());
    lemma_byte_space_pos(b.len());
    let c1 = advanced(b, n1);
    lemma_advanced_value(b, n1);
    lemma_advanced_value(c1, n2);
    lemma_advanced_value(b, n1 + n2);
    let x = le_value(b);
    lemma_small_mod(n2, m + n2);
    lemma_add_mod_noop((x + n1) as int, n2 as int, m as int);
    lemma_mod_mod((x + n1) as int, m as int, 1);
    lemma_add_mod_noop(((x + n1) % m) as int, n2 as int, m as int);
    assert(((x + n1) % m + n2) % m == (x + n1 + n2) % m);
    lemma_le_value_injective(advanced(c1, n2), advanced(b, n1 + n2));
}

/// Adds `n` to the little-endian number held in `data`, carrying from byte to
/// byte; a carry out of the last byte is dropped, so the counter wraps around.
pub fn add_big_int(data: &mut [u8; 32], n: u32)
    ensures
        final(data)@ == advanced(old(data)@, n as nat),
{
    let ghost start = data@;
    let mut carry: u64 = n as u64;
    let mut i: usize = 0;
    proof {
        assert(data@.subrange(0, 0) =~= Seq::<u8>::empty());
        assert(start.subrange(0, 0) =~= Seq::<u8>::empty());
        assert(data@.subrange(0, 32) =~= start.subrange(0, 32));
        assert(le_value(Seq::<u8>::empty()) == 0);
        assert(byte_space(0) == 1);
    }
    while i < CANDIDATE_LEN && carry != 0
        invariant
            i <= 32,
            data@.len() == 32,
            start.len() == 32,
            carry <= n,
            data@.subrange(i as int, 32) == start.subrange(i as int, 32),
            le_value(data@.subrange(0, i as int)) + carry * byte_space(i as nat) == le_value(
                start.subrange(0, i as int),
            ) + n,
        decreases 32 - i,
    {
        let ghost before = data@;
        let byte = data[i];
        let sum: u64 = byte as u64 + carry;
        data[i] = (sum % 256) as u8;
        proof {
            let ghost p = before.subrange(0, i as int);
            let ghost q = start.subrange(0, i as int);
            assert(data@.subrange(0, i + 1) =~= p + seq![(sum % 256) as u8]);
            assert(start[i as int] == byte) by {
                assert(before.subrange(i as int, 32)[0] == start.subrange(i as int, 32)[0]);
            }
            assert(start.subrange(0, i + 1) =~= q + seq![byte]);
            lemma_le_value_concat(p, seq![(sum % 256) as u8]);
            lemma_le_value_concat(q, seq![byte]);
            let ghost s = byte_space(i as nat);
            lemma_le_value_single((sum % 256) as u8);
            lemma_le_value_single(byte);
            assert(sum / 256 <= carry) by (nonlinear_arith)
                requires
                    sum == byte + carry,
                    byte < 256,
                    carry >= 1,
            ;
            assert(byte_space((i + 1) as nat) == 256 * s);
            let ghost lp = le_value(p);
            let ghost lq = le_value(q);
            assert(lp + s * (sum % 256) + (sum / 256) * (256 * s) == lq + s * byte + n)
                by (nonlinear_arith)
                requires
                    lp + carry * s == lq + n,
                    sum == byte + carry,
                    sum == 256 * (sum / 256) + sum % 256,
            ;
            assert(data@.subrange(i + 1, 32) =~= before.subrange(i + 1, 32));
            assert(start.subrange(i + 1, 32) =~= start.subrange(i as int, 32).drop_first());
            assert(before.subrange(i + 1, 32) =~= before.subrange(i as int, 32).drop_first());
        }
        carry = sum / 256;
        i += 1;
    }
    proof {
        let x = le_value(start);
        let m = byte_space(32);
        lemma_byte_space_pos(32);
        lemma_advanced_value(start, n as nat);
        lemma_le_value_bound(data@);
        if carry == 0 {
            let ghost p = data@.subrange(0, i as int);
            let ghost r = data@.subrange(i as int, 32);
            assert(data@ =~= p + r);
            assert(start =~= start.subrange(0, i as int) + r);
            lemma_le_value_concat(p, r);
            lemma_le_value_concat(start.subrange(0, i as int), r);
            assert(le_value(data@) == x + n);
            lemma_small_mod((x + n) as nat, m);
        } else {
            assert(data@.subrange(0, 32) =~= data@);
            assert(start.subrange(0, 32) =~= start);
            lemma_mod_multiples_vanish(carry as int, le_value(data@) as int, m as int);
            lemma_small_mod(le_value(data@), m);
            assert(((x + n) as nat) % m == le_value(data@)) by {
                assert(le_value(data@) + carry * m == m * carry + le_value(data@)) by (nonlinear_arith);
            }
        }
        lemma_le_value_injective(data@, advanced(start, n as nat));
    }
}

} // verus!

//! The difficulty predicate: "the leading `d` bits of a 32-byte hash are
//! zero", held as a list of byte checks that are all ANDed together.

use vstd::prelude::*;

verus! {

/// Largest difficulty a 32-byte hash admits, in bits.
pub const MAX_DIFFICULTY_BITS: u32 = 256;

/// One conjunct of the predicate: byte `index` of the hash, shifted right by
/// `shift` bits, is zero. A shift of zero tests the whole byte.
#[derive(Clone, Copy, Debug, PartialEq, Eq, Structural)]
pub struct ByteCheck {
    pub index: usize,
    pub shift: u32,
}

/// Bit `j` of byte `b`, counting from its most significant bit.
pub open spec fn msb_bit(b: u8, j: int) -> bool {
    (b >> ((7 - j) as u8)) & 1u8 == 1u8
}

/// Bit `k` of `h`, counting from the most significant bit of byte 0.
pub open spec fn hash_bit(h: Seq<u8>, k: int) -> bool {
    msb_bit(h[k / 8], k % 8)
}

/// The first `d` bits of `h`, most significant byte first, are all zero.
pub open spec fn leading_bits_zero(h: Seq<u8>, d: int) -> bool {
    forall|k: int| 0 <= k < d ==> !#[trigger] hash_bit(h, k)
}

/// What a single check says of `h`.
pub open spec fn check_holds(c: ByteCheck, h: Seq<u8>) -> bool {
    c.index < h.len() && c.shift < 8 && h[c.index as int] >> (c.shift as u8) == 0
}

/// Every check of `cs` holds of `h`; an empty list holds of every hash.
pub open spec fn all_checks_hold(cs: Seq<ByteCheck>, h: Seq<u8>) -> bool {
    forall|i: int| 0 <= i < cs.len() ==> #[trigger] check_holds(cs[i], h)
}

/// The checks for difficulty `d`: one whole-byte check for each of the first
/// `d / 8` bytes, then, when `d` is not a multiple of 8, one check of the top
/// `d % 8` bits of the next byte.
pub open spec fn checks_for(d: nat) -> Seq<ByteCheck> {
    Seq::new(d / 8, |i: int| ByteCheck { index: i as usize, shift: 0 }) + if d % 8 != 0 {
        seq![ByteCheck { index: (d / 8) as usize, shift: (8 - d % 8) as u32 }]
    } else {
        Seq::empty()
    }
}

/// The top `r` bits of `b` are zero exactly when `b >> (8 - r)` is zero.
pub proof fn lemma_top_bits(b: u8, r: int)
    requires
        1 <= r <= 8,
    ensures
        (b >> ((8 - r) as u8) == 0) <==> (forall|j: int| 0 <= j < r ==> !#[trigger] msb_bit(b, j)),
{
    let b0 = (b >> 7u8) & 1u8 == 1u8;
    let b1 = (b >> 6u8) & 1u8 == 1u8;
    let b2 = (b >> 5u8) & 1u8 == 1u8;
    let b3 = (b >> 4u8) & 1u8 == 1u8;
    let b4 = (b >> 3u8) & 1u8 == 1u8;
    let b5 = (b >> 2u8) & 1u8 == 1u8;
    let b6 = (b >> 1u8) & 1u8 == 1u8;
    let b7 = (b >> 0u8) & 1u8 == 1u8;
    assert(msb_bit(b, 0) == b0 && msb_bit(b, 1) == b1 && msb_bit(b, 2) == b2 && msb_bit(b, 3)
        == b3);
    assert(msb_bit(b, 4) == b4 && msb_bit(b, 5) == b5 && msb_bit(b, 6) == b6 && msb_bit(b, 7)
        == b7);
    if r == 1 {
        assert((b >> 7u8 == 0) <==> !((b >> 7u8) & 1u8 == 1u8)) by (bit_vector);
    } else if r == 2 {
        assert((b >> 6u8 == 0) <==> !((b >> 7u8) & 1u8 == 1u8) && !((b >> 6u8) & 1u8 == 1u8))
            by (bit_vector);
    } else if r == 3 {
        assert((b >> 5u8 == 0) <==> !((b >> 7u8) & 1u8 == 1u8) && !((b >> 6u8) & 1u8 == 1u8)
            && !((b >> 5u8) & 1u8 == 1u8)) by (bit_vector);
    } else if r == 4 {
        assert((b >> 4u8 == 0) <==> !((b >> 7u8) & 1u8 == 1u8) && !((b >> 6u8) & 1u8 == 1u8)
            && !((b >> 5u8) & 1u8 == 1u8) && !((b >> 4u8) & 1u8 == 1u8)) by (bit_vector);
    } else if r == 5 {
        assert((b >> 3u8 == 0) <==> !((b >> 7u8) & 1u8 == 1u8) && !((b >> 6u8) & 1u8 == 1u8)
            && !((b >> 5u8) & 1u8 == 1u8) && !((b >> 4u8) & 1u8 == 1u8) && !((b >> 3u8) & 1u8
            == 1u8)) by (bit_vector);
    } else if r == 6 {
        assert((b >> 2u8 == 0) <==> !((b >> 7u8) & 1u8 == 1u8) && !((b >> 6u8) & 1u8 == 1u8)
            && !((b >> 5u8) & 1u8 == 1u8) && !((b >> 4u8) & 1u8 == 1u8) && !((b >> 3u8) & 1u8
            == 1u8) && !((b >> 2u8) & 1u8 == 1u8)) by (bit_vector);
    } else if r == 7 {
        assert((b >> 1u8 == 0) <==> !((b >> 7u8) & 1u8 == 1u8) && !((b >> 6u8) & 1u8 == 1u8)
            && !((b >> 5u8) & 1u8 == 1u8) && !((b >> 4u8) & 1u8 == 1u8) && !((b >> 3u8) & 1u8
            == 1u8) && !((b >> 2u8) & 1u8 == 1u8) && !((b >> 1u8) & 1u8 == 1u8)) by (bit_vector);
    } else {
        assert((b >> 0u8 == 0) <==> !((b >> 7u8) & 1u8 == 1u8) && !((b >> 6u8) & 1u8 == 1u8)
            && !((b >> 5u8) & 1u8 == 1u8) && !((b >> 4u8) & 1u8 == 1u8) && !((b >> 3u8) & 1u8
            == 1u8) && !((b >> 2u8) & 1u8 == 1u8) && !((b >> 1u8) & 1u8 == 1u8) && !((b >> 0u8)
            & 1u8 == 1u8)) by (bit_vector);
    }
    if b >> ((8 - r) as u8) == 0 {
        assert forall|j: int| 0 <= j < r implies !#[trigger] msb_bit(b, j) by {
            assert(j == 0 || j == 1 || j == 2 || j == 3 || j == 4 || j == 5 || j == 6 || j == 7);
        }
    } else {
        assert(exists|j: int| 0 <= j < r && #[trigger] msb_bit(b, j)) by {
            if b0 {
                assert(msb_bit(b, 0));
            } else if b1 {
                assert(msb_bit(b, 1));
            } else if b2 {
                assert(msb_bit(b, 2));
            } else if b3 {
                assert(msb_bit(b, 3));
            } else if b4 {
                assert(msb_bit(b, 4));
            } else if b5 {
                assert(msb_bit(b, 5));
            } else if b6 {
                assert(msb_bit(b, 6));
            } else {
                assert(msb_bit(b, 7));
            }
        }
    }
}

/// The checks for difficulty `d` hold of a 32-byte hash exactly when its
/// leading `d` bits are zero.
pub proof fn lemma_checks_for_meaning(d: nat, h: Seq<u8>)
    requires
        d <= 256,
        h.len() == 32,
    ensures
        all_checks_hold(checks_for(d), h) <==> leading_bits_zero(h, d as int),
{
    let cs = checks_for(d);
    let full = (d / 8) as int;
    let r = (d % 8) as int;
    assert(cs.len() == full + if r != 0 { 1int } else { 0int });
    assert forall|i: int| 0 <= i < full implies #[trigger] cs[i] == (ByteCheck {
        index: i as usize,
        shift: 0,
    }) by {}
    if r != 0 {
        assert(cs[full] == ByteCheck { index: full as usize, shift: (8 - r) as u32 });
    }
    if all_checks_hold(cs, h) {
        assert forall|k: int| 0 <= k < d implies !#[trigger] hash_bit(h, k) by {
            let i = k / 8;
            let j = k % 8;
            if i < full {
                assert(check_holds(cs[i], h));
                lemma_top_bits(h[i], 8);
                assert(!msb_bit(h[i], j));
            } else {
                assert(i == full && j < r);
                assert(check_holds(cs[full], h));
                lemma_top_bits(h[full], r);
                assert(!msb_bit(h[full], j));
            }
        }
    }
    if leading_bits_zero(h, d as int) {
        assert forall|i: int| 0 <= i < cs.len() implies #[trigger] check_holds(cs[i], h) by {
            if i < full {
                assert forall|j: int| 0 <= j < 8 implies !#[trigger] msb_bit(h[i], j) by {
                    let k = 8 * i + j;
                    assert(k / 8 == i && k % 8 == j);
                    assert(!hash_bit(h, k));
                }
                lemma_top_bits(h[i], 8);
            } else {
                assert(i == full && r != 0);
                assert forall|j: int| 0 <= j < r implies !#[trigger] msb_bit(h[full], j) by {
                    let k = 8 * full + j;
                    assert(k / 8 == full && k % 8 == j);
                    assert(!hash_bit(h, k));
                }
                lemma_top_bits(h[full], r);
            }
        }
    }
}

/// The predicate on 32-byte hashes at a few difficulties: 0 accepts every
/// hash; 8 asks for a zero first byte; 12 for a zero first byte and zero top
/// four bits of the second; 256 for a hash that is zero throughout.
pub proof fn lemma_difficulty_landmarks(h: Seq<u8>)
    requires
        h.len() == 32,
    ensures
        all_checks_hold(checks_for(0), h),
        all_checks_hold(checks_for(8), h) <==> h[0] == 0,
        all_checks_hold(checks_for(12), h) <==> h[0] == 0 && h[1] >> 4u8 == 0,
        all_checks_hold(checks_for(256), h) <==> (forall|i: int| 0 <= i < 32 ==> h[i] == 0),
{
    assert(checks_for(0) =~= Seq::<ByteCheck>::empty());
    assert(checks_for(8) =~= seq![ByteCheck { index: 0, shift: 0 }]);
    assert(checks_for(12) =~= seq![ByteCheck { index: 0, shift: 0 }, ByteCheck { index: 1, shift: 4 }]);
    let b0 = h[0];
    assert(b0 >> 0u8 == b0) by (bit_vector);
    if all_checks_hold(checks_for(8), h) {
        assert(check_holds(checks_for(8)[0], h));
    }
    if all_checks_hold(checks_for(12), h) {
        assert(check_holds(checks_for(12)[0], h));
        assert(check_holds(checks_for(12)[1], h));
    }
    let cs = checks_for(256);
    assert(cs.len() == 32);
    assert forall|i: int| 0 <= i < 32 implies #[trigger] cs[i] == (ByteCheck {
        index: i as usize,
        shift: 0,
    }) by {}
    assert forall|i: int| 0 <= i < 32 implies (#[trigger] check_holds(cs[i], h) <==> h[i] == 0) by {
        let b = h[i];
        assert(b >> 0u8 == b) by (bit_vector);
    }
    if all_checks_hold(cs, h) {
        assert forall|i: int| 0 <= i < 32 implies h[i] == 0 by {
            assert(check_holds(cs[i], h));
        }
    }
}

/// The checks that make up the predicate for `difficulty_bits`. Applied to
/// a 32-byte hash they hold exactly when its leading `difficulty_bits` bits
/// are zero; for a difficulty of zero the list is empty and always holds.
pub fn difficulty_checks(difficulty_bits: u32) -> (r: Vec<ByteCheck>)
    requires
        difficulty_bits <= MAX_DIFFICULTY_BITS,
    ensures
        r@ == checks_for(difficulty_bits as nat),
        forall|h: Seq<u8>|
            h.len() == 32 ==> (all_checks_hold(r@, h) <==> leading_bits_zero(
                h,
                difficulty_bits as int,
            )),
{
    let mut checks: Vec<ByteCheck> = Vec::new();
    let full_bytes: u32 = difficulty_bits / 8;
    let mut i: u32 = 0;
    while i < full_bytes
        invariant
            i <= full_bytes,
            full_bytes == difficulty_bits / 8,
            difficulty_bits <= 256,
            checks@ =~= Seq::new(i as nat, |k: int| ByteCheck { index: k as usize, shift: 0 }),
        decreases full_bytes - i,
    {
        checks.push(ByteCheck { index: i as usize, shift: 0 });
        i += 1;
    }
    let remaining_bits: u32 = difficulty_bits % 8;
    if remaining_bits > 0 {
        checks.push(ByteCheck { index: full_bytes as usize, shift: 8 - remaining_bits });
    }
    assert(checks@ =~= checks_for(difficulty_bits as nat));
    proof {
        assert forall|h: Seq<u8>| h.len() == 32 implies (all_checks_hold(checks@, h)
            <==> leading_bits_zero(h, difficulty_bits as int)) by {
            lemma_checks_for_meaning(difficulty_bits as nat, h);
        }
    }
    checks
}

} // verus!

//! Bit-level views of words and the parity they carry on the wire.
use vstd::prelude::*;

verus! {

/// The lowest `n` bits of `v`, least significant first.
pub open spec fn bits_of(v: u32, n: nat) -> Seq<bool> {
    Seq::new(n, |i: int| (v >> (i as u32)) & 1 == 1)
}

/// How many of the bits in `s` are set.
pub open spec fn ones(s: Seq<bool>) -> nat
    decreases s.len(),
{
    if s.len() == 0 {
        0
    } else {
        ones(s.drop_last()) + if s.last() { 1nat } else { 0nat }
    }
}

/// Population count of a 32-bit word.
pub open spec fn popcount(v: u32) -> nat {
    ones(bits_of(v, 32))
}

/// The parity bit sent with `v`: set when `v` has an odd number of ones.
pub open spec fn parity(v: u32) -> bool {
    popcount(v) % 2 == 1
}

/// Relies on `u32::count_ones`: the number of ones in the binary form.
#[verifier::external_body]
pub(crate) fn count_ones(v: u32) -> (r: u32)
    ensures
        r as nat == popcount(v),
{
    v.count_ones()
}

/// One bit of an `or` with a shifted single bit.
pub proof fn lemma_or_bit(data: u32, x: u32, i: u32, j: u32)
    requires
        x <= 1,
        i < 32,
        j < 32,
    ensures
        (((data | (x << i)) >> j) & 1 == 1) == if j == i {
            ((data >> j) & 1 == 1) || x == 1
        } else {
            (data >> j) & 1 == 1
        },
{
    if j == i {
        assert((((data | (x << i)) >> j) & 1 == 1) == (((data >> j) & 1 == 1) || x == 1))
            by (bit_vector)
            requires
                x <= 1,
                i < 32,
                j == i,
        ;
    } else {
        assert((((data | (x << i)) >> j) & 1 == 1) == ((data >> j) & 1 == 1)) by (bit_vector)
            requires
                x <= 1,
                i < 32,
                j < 32,
                j != i,
        ;
    }
}

/// Setting one position of a sequence changes the count by the difference.
pub proof fn lemma_ones_update(s: Seq<bool>, k: int, b: bool)
    requires
        0 <= k < s.len(),
    ensures
        ones(s.update(k, b)) + (if s[k] { 1int } else { 0int }) == ones(s) + (if b {
            1int
        } else {
            0int
        }),
    decreases s.len(),
{
    let u = s.update(k, b);
    if k == s.len() - 1 {
        assert(u.drop_last() =~= s.drop_last());
    } else {
        lemma_ones_update(s.drop_last(), k, b);
        assert(u.drop_last() =~= s.drop_last().update(k, b));
    }
}

/// Two words with the same 32 bits are equal.
pub proof fn lemma_bits_inject(a: u32, b: u32)
    requires
        bits_of(a, 32) == bits_of(b, 32),
    ensures
        a == b,
{
    assert forall|j: u32| j < 32 implies ((a >> j) & 1 == 1) == ((b >> j) & 1 == 1) by {
        assert(bits_of(a, 32)[j as int] == bits_of(b, 32)[j as int]);
        assert(bits_of(a, 32)[j as int] == ((a >> j) & 1 == 1));
    }
    assert(a == b) by (bit_vector)
        requires
            (a >> 0u32) & 1 == 1 <==> (b >> 0u32) & 1 == 1,
            (a >> 1u32) & 1 == 1 <==> (b >> 1u32) & 1 == 1,
            (a >> 2u32) & 1 == 1 <==> (b >> 2u32) & 1 == 1,
            (a >> 3u32) & 1 == 1 <==> (b >> 3u32) & 1 == 1,
            (a >> 4u32) & 1 == 1 <==> (b >> 4u32) & 1 == 1,
            (a >> 5u32) & 1 == 1 <==> (b >> 5u32) & 1 == 1,
            (a >> 6u32) & 1 == 1 <==> (b >> 6u32) & 1 == 1,
            (a >> 7u32) & 1 == 1 <==> (b >> 7u32) & 1 == 1,
            (a >> 8u32) & 1 == 1 <==> (b >> 8u32) & 1 == 1,
            (a >> 9u32) & 1 == 1 <==> (b >> 9u32) & 1 == 1,
            (a >> 10u32) & 1 == 1 <==> (b >> 10u32) & 1 == 1,
            (a >> 11u32) & 1 == 1 <==> (b >> 11u32) & 1 == 1,
            (a >> 12u32) & 1 == 1 <==> (b >> 12u32) & 1 == 1,
            (a >> 13u32) & 1 == 1 <==> (b >> 13u32) & 1 == 1,
            (a >> 14u32) & 1 == 1 <==> (b >> 14u32) & 1 == 1,
            (a >> 15u32) & 1 == 1 <==> (b >> 15u32) & 1 == 1,
            (a >> 16u32) & 1 == 1 <==> (b >> 16u32) & 1 == 1,
            (a >> 17u32) & 1 == 1 <==> (b >> 17u32) & 1 == 1,
            (a >> 18u32) & 1 == 1 <==> (b >> 18u32) & 1 == 1,
            (a >> 19u32) & 1 == 1 <==> (b >> 19u32) & 1 == 1,
            (a >> 20u32) & 1 == 1 <==> (b >> 20u32) & 1 == 1,
            (a >> 21u32) & 1 == 1 <==> (b >> 21u32) & 1 == 1,
            (a >> 22u32) & 1 == 1 <==> (b >> 22u32) & 1 == 1,
            (a >> 23u32) & 1 == 1 <==> (b >> 23u32) & 1 == 1,
            (a >> 24u32) & 1 == 1 <==> (b >> 24u32) & 1 == 1,
            (a >> 25u32) & 1 == 1 <==> (b >> 25u32) & 1 == 1,
            (a >> 26u32) & 1 == 1 <==> (b >> 26u32) & 1 == 1,
            (a >> 27u32) & 1 == 1 <==> (b >> 27u32) & 1 == 1,
            (a >> 28u32) & 1 == 1 <==> (b >> 28u32) & 1 == 1,
            (a >> 29u32) & 1 == 1 <==> (b >> 29u32) & 1 == 1,
            (a >> 30u32) & 1 == 1 <==> (b >> 30u32) & 1 == 1,
            (a >> 31u32) & 1 == 1 <==> (b >> 31u32) & 1 == 1,
    ;
}

} // verus!

//! Arithmetic of half-words.

use vstd::prelude::*;

verus! {

/// What single bits and fields of a half-word are, by arithmetic.
pub proof fn lemma_word(x: u16)
    ensures
        0u16 & x == 0,
        x | 0u16 == x,
        0u16 | x == x,
        x & !0u16 == x,
        x & 0x0001 != 0 <==> x % 2 == 1,
        x & 0x0003 == x % 4,
        x & 0x0007 == x % 8,
        x & 0x0fff == x % 4096,
        !x & 0x03ff == 0x03ff & !x,
        x < 16 ==> (0x0400u16 | x) == 0x0400 + x,
        x <= 256 ==> x & 0x01ff == x,
        (x & !0x0c00u16) | 0u16 == x - x / 1024 % 4 * 1024,
        (x & !0x0c00u16) | 0x0400u16 == x - x / 1024 % 4 * 1024 + 0x0400,
        (x | 0x2000u16) & 0x2000 != 0,
        (x | 0x0200u16) & 0x0200 != 0,
        (x & !0x0200u16) & 0x0200 == 0,
        (x | 0u16) & !1u16 == x & !1u16,
        (x | 1u16) & !0u16 == x | 1u16,
{
    assert({
        &&& 0u16 & x == 0 && x | 0u16 == x && 0u16 | x == x && x & !0u16 == x
        &&& (x & 0x0001u16 != 0 <==> x % 2 == 1)
        &&& x & 0x0003u16 == x % 4 && x & 0x0007u16 == x % 8
        &&& x & 0x0fffu16 == x % 4096
        &&& !x & 0x03ffu16 == 0x03ffu16 & !x
        &&& (x < 16 ==> (0x0400u16 | x) == 0x0400 + x)
        &&& (x <= 256 ==> x & 0x01ffu16 == x)
        &&& (x & !0x0c00u16) | 0u16 == x - x / 1024 % 4 * 1024
        &&& (x & !0x0c00u16) | 0x0400u16 == x - x / 1024 % 4 * 1024 + 0x0400
        &&& (x | 0x2000u16) & 0x2000u16 != 0
        &&& (x | 0x0200u16) & 0x0200u16 != 0
        &&& (x & !0x0200u16) & 0x0200u16 == 0
        &&& (x | 0u16) & !1u16 == x & !1u16
        &&& (x | 1u16) & !0u16 == x | 1u16
    }) by (bit_vector);
}

/// What joining masks does.
pub proof fn lemma_join(a: u16, b: u16, c: u16)
    ensures
        (a | b) | c == a | (b | c),
        (a | b) | b == a | b,
        a | b == 0 <==> a == 0 && b == 0,
        (a | b) & c != 0 <==> a & c != 0 || b & c != 0,
{
    assert({
        &&& (a | b) | c == a | (b | c) && (a | b) | b == a | b
        &&& (a | b == 0 <==> a == 0 && b == 0)
        &&& ((a | b) & c != 0 <==> a & c != 0 || b & c != 0)
    }) by (bit_vector);
}

} // verus!

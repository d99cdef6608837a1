//! Lowercase hexadecimal rendering of digest bytes.

use vstd::prelude::*;

verus! {

/// Is `b` the ASCII code of a lowercase hexadecimal digit
/// (`'0'`-`'9'` or `'a'`-`'f'`)?
pub open spec fn is_lower_hex_digit(b: u8) -> bool {
    (0x30 <= b && b <= 0x39) || (0x61 <= b && b <= 0x66)
}

/// The ASCII code of the lowercase hexadecimal digit for a value below 16.
pub open spec fn hex_digit(v: u8) -> u8
    recommends
        v < 16,
{
    if v < 10 {
        (0x30 + v) as u8
    } else {
        (0x57 + v) as u8
    }
}

/// The two lowercase hexadecimal digits of one byte, high nibble first.
pub open spec fn hex_pair(b: u8) -> Seq<u8> {
    seq![hex_digit(b / 16), hex_digit(b % 16)]
}

/// The lowercase hexadecimal rendering of a byte sequence, in byte order.
pub open spec fn hex_encode(s: Seq<u8>) -> Seq<u8>
    decreases s.len(),
{
    if s.len() == 0 {
        Seq::empty()
    } else {
        hex_encode(s.drop_last()) + hex_pair(s.last())
    }
}

/// A hexadecimal rendering is twice as long as its input and consists of
/// lowercase hexadecimal digits only.
pub proof fn lemma_hex_encode_shape(s: Seq<u8>)
    ensures
        hex_encode(s).len() == 2 * s.len(),
        forall|i: int| 0 <= i < hex_encode(s).len() ==> is_lower_hex_digit(#[trigger] hex_encode(s)[i]),
    decreases s.len(),
{
    if s.len() == 0 {
    } else {
        lemma_hex_encode_shape(s.drop_last());
        let b = s.last();
        assert(is_lower_hex_digit(hex_digit(b / 16)));
        assert(is_lower_hex_digit(hex_digit(b % 16)));
    }
}

/// Renders the first `n` bytes of `bytes` as lowercase hexadecimal digits.
pub fn hex_encode_prefix(bytes: &Vec<u8>, n: usize) -> (r: Vec<u8>)
    requires
        n <= bytes@.len(),
    ensures
        r@ == hex_encode(bytes@.take(n as int)),
{
    let mut r: Vec<u8> = Vec::new();
    let mut i: usize = 0;
    proof {
        assert(bytes@.take(0) =~= Seq::<u8>::empty());
    }
    while i < n
        invariant
            i <= n <= bytes@.len(),
            r@ == hex_encode(bytes@.take(i as int)),
        decreases n - i,
    {
        let b = bytes[i];
        let hi = b / 16;
        let lo = b % 16;
        r.push(if hi < 10 { 0x30u8 + hi } else { 0x57u8 + hi });
        r.push(if lo < 10 { 0x30u8 + lo } else { 0x57u8 + lo });
        proof {
            let t = bytes@.take(i + 1);
            assert(t.drop_last() =~= bytes@.take(i as int));
            assert(t.last() == b);
            assert(r@ =~= hex_encode(t));
        }
        i = i + 1;
    }
    r
}

} // verus!

//! Lower-case hexadecimal text of a byte string.

use vstd::prelude::*;
use crate::text::push_char;

verus! {

/// The character that stands for a value below sixteen.
pub open spec fn hex_digit(nibble: u8) -> char {
    if nibble < 10 {
        (0x30 + nibble) as u8 as char
    } else {
        (0x57 + nibble) as u8 as char
    }
}

/// The hexadecimal text of `bytes`: two digits for each byte, the high half first.
pub open spec fn hex_of(bytes: Seq<u8>) -> Seq<char> {
    Seq::new(
        2 * bytes.len(),
        |i: int|
            if i % 2 == 0 {
                hex_digit(bytes[i / 2] / 16)
            } else {
                hex_digit(bytes[i / 2] % 16)
            },
    )
}

fn digit(nibble: u8) -> (c: char)
    requires
        nibble < 16,
    ensures
        c == hex_digit(nibble),
{
    if nibble < 10 {
        (0x30 + nibble) as char
    } else {
        (0x57 + nibble) as char
    }
}

/// Writes `bytes` as lower-case hexadecimal text.
pub fn hex_encode(bytes: &[u8]) -> (text: String)
    ensures
        text@ == hex_of(bytes@),
{
    let mut text = String::new();
    let mut i: usize = 0;
    while i < bytes.len()
        invariant
            i <= bytes.len(),
            text@ == hex_of(bytes@.take(i as int)),
        decreases bytes.len() - i,
    {
        let byte: u8 = bytes[i];
        push_char(&mut text, digit(byte / 16));
        push_char(&mut text, digit(byte % 16));
        i = i + 1;
        assert(text@ =~= hex_of(bytes@.take(i as int)));
    }
    assert(bytes@.take(i as int) =~= bytes@);
    text
}

/// Hexadecimal text has two characters for each byte.
pub proof fn lemma_hex_len(bytes: Seq<u8>)
    ensures
        hex_of(bytes).len() == 2 * bytes.len(),
{
}

/// No two values below sixteen share a digit.
proof fn lemma_digit_injective(a: u8, b: u8)
    requires
        a < 16,
        b < 16,
        hex_digit(a) == hex_digit(b),
    ensures
        a == b,
{
    let x: u8 = if a < 10 { (0x30 + a) as u8 } else { (0x57 + a) as u8 };
    let y: u8 = if b < 10 { (0x30 + b) as u8 } else { (0x57 + b) as u8 };
    assert(x as char == y as char);
    assert(x as char as u8 == x);
    assert(y as char as u8 == y);
}

/// Different byte strings have different hexadecimal text.
pub proof fn lemma_hex_injective(a: Seq<u8>, b: Seq<u8>)
    requires
        hex_of(a) == hex_of(b),
    ensures
        a == b,
{
    assert(hex_of(a).len() == 2 * a.len());
    assert(hex_of(b).len() == 2 * b.len());
    assert forall|k: int| 0 <= k < a.len() implies a[k] == b[k] by {
        let high = 2 * k;
        let low = 2 * k + 1;
        assert(high / 2 == k && high % 2 == 0 && low / 2 == k && low % 2 == 1);
        assert(hex_of(a)[high] == hex_digit(a[k] / 16));
        assert(hex_of(b)[high] == hex_digit(b[k] / 16));
        assert(hex_of(a)[low] == hex_digit(a[k] % 16));
        assert(hex_of(b)[low] == hex_digit(b[k] % 16));
        lemma_digit_injective(a[k] / 16, b[k] / 16);
        lemma_digit_injective(a[k] % 16, b[k] % 16);
    }
    assert(a =~= b);
}

} // verus!

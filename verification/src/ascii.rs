//! ASCII characters inside UTF-8.
//!
//! A string slice is searched byte by byte. These lemmas carry what is found
//! among the bytes over to the characters: in UTF-8 a byte below `0x80`
//! always is a whole character, the one with that number.

use vstd::prelude::*;
use vstd::utf8::*;

verus! {

/// Whether `b` is the UTF-8 encoding of the ASCII character `c`.
pub open spec fn is_ascii_pair(c: char, b: u8) -> bool {
    b < 0x80 && c as u32 == b as u32
}

/// An ASCII character is encoded as the one byte with its number.
pub proof fn lemma_encode_ascii(c: char, b: u8)
    requires
        is_ascii_pair(c, b),
    ensures
        encode_scalar(c as u32) == seq![b],
        encode_utf8(seq![c]) == seq![b],
{
    let u = c as u32;
    assert(leading_byte_width_1(u) == b) by (bit_vector)
        requires
            u == b as u32,
            b < 0x80,
    ;
    reveal_with_fuel(encode_utf8, 2);
    assert(seq![c].drop_first() =~= Seq::<char>::empty());
    assert(encode_utf8(seq![c]) =~= seq![b]);
}

/// Encoding goes through concatenation.
pub proof fn lemma_encode_concat(x: Seq<char>, y: Seq<char>)
    ensures
        encode_utf8(x + y) == encode_utf8(x) + encode_utf8(y),
    decreases x.len(),
{
    if x.len() == 0 {
        assert(x + y =~= y);
        assert(encode_utf8(x) + encode_utf8(y) =~= encode_utf8(y));
    } else {
        lemma_encode_concat(x.drop_first(), y);
        assert((x + y).drop_first() =~= x.drop_first() + y);
        assert((x + y)[0] == x[0]);
        assert(encode_utf8(x + y) =~= encode_utf8(x) + encode_utf8(y));
    }
}

/// Two sequences of characters with the same encoding are the same.
pub proof fn lemma_encode_injective(x: Seq<char>, y: Seq<char>)
    requires
        encode_utf8(x) == encode_utf8(y),
    ensures
        x == y,
{
    encode_utf8_decode_utf8(x);
    encode_utf8_decode_utf8(y);
}

/// Where the encoding of `s` starts with a byte below `0x80`, `s` starts
/// with the character of that number, and the rest of the bytes encode the
/// rest of `s`.
pub proof fn lemma_first_byte_ascii(s: Seq<char>)
    requires
        encode_utf8(s).len() > 0,
        encode_utf8(s)[0] < 0x80,
    ensures
        s.len() > 0,
        is_ascii_pair(s[0], encode_utf8(s)[0]),
        encode_utf8(s.drop_first()) == encode_utf8(s).skip(1),
{
    let bytes = encode_utf8(s);
    let b = bytes[0];
    encode_utf8_first_scalar(s);
    let u = s[0] as u32;
    assert(is_leading_byte_width_1(b));
    assert(decode_first_scalar(bytes) == codepoint_width_1(b));
    assert(codepoint_width_1(b) == b as u32) by (bit_vector)
        requires
            b < 0x80,
    ;
    lemma_encode_ascii(s[0], b);
    assert(encode_utf8(s.drop_first()) =~= bytes.skip(1));
}

/// A character occurs in `s` where its byte occurs in the encoding of `s`:
/// no byte of a longer encoding is below `0x80`.
pub proof fn lemma_ascii_occurs(s: Seq<char>, c: char, b: u8)
    requires
        is_ascii_pair(c, b),
    ensures
        s.contains(c) <==> encode_utf8(s).contains(b),
    decreases s.len(),
{
    let bytes = encode_utf8(s);
    if s.len() > 0 {
        let t = s.drop_first();
        let first = encode_scalar(s[0] as u32);
        lemma_ascii_occurs(t, c, b);
        assert(bytes == first + encode_utf8(t));
        if s.contains(c) {
            let k = choose|k: int| 0 <= k < s.len() && s[k] == c;
            if k == 0 {
                lemma_encode_ascii(c, b);
                assert(bytes[0] == b);
            } else {
                assert(t[k - 1] == c);
                let j = choose|j: int| 0 <= j < encode_utf8(t).len() && encode_utf8(t)[j] == b;
                assert(bytes[first.len() + j] == b);
            }
        }
        if bytes.contains(b) {
            let j = choose|j: int| 0 <= j < bytes.len() && bytes[j] == b;
            if j < first.len() {
                lemma_scalar_bytes(s[0], j);
                assert(first[j] == b);
                assert(j == 0);
                lemma_first_byte_ascii(s);
                char_u32_cast(s[0], b as u32);
                char_u32_cast(c, b as u32);
            } else {
                assert(encode_utf8(t)[j - first.len()] == b);
                assert(encode_utf8(t).contains(b));
                let k = choose|k: int| 0 <= k < t.len() && t[k] == c;
                assert(s[k + 1] == c);
            }
        }
    }
}

/// Of the bytes that encode one character, only a first and only byte is
/// below `0x80`.
pub proof fn lemma_scalar_bytes(c: char, j: int)
    requires
        0 <= j < encode_scalar(c as u32).len(),
        encode_scalar(c as u32)[j] < 0x80,
    ensures
        j == 0,
        encode_scalar(c as u32).len() == 1,
{
    let u = c as u32;
    char_is_scalar(c);
    assert(leading_byte_width_2(u) >= 0x80 && leading_byte_width_3(u) >= 0x80
        && leading_byte_width_4(u) >= 0x80 && last_continuation_byte(u) >= 0x80
        && second_last_continuation_byte(u) >= 0x80 && third_last_continuation_byte(u) >= 0x80)
        by (bit_vector);
}

} // verus!

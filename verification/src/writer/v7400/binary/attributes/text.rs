//! UTF-8 encoding of characters.

use vstd::prelude::*;
use vstd::utf8::{
    encode_scalar, encode_utf8, last_continuation_byte, leading_byte_width_1,
    leading_byte_width_2, leading_byte_width_3, leading_byte_width_4,
    second_last_continuation_byte, third_last_continuation_byte,
};

verus! {

/// Encoding one more character appends its encoding.
pub proof fn lemma_encode_utf8_push(s: Seq<char>, c: char)
    ensures
        encode_utf8(s.push(c)) == encode_utf8(s) + encode_scalar(c as u32),
    decreases s.len(),
{
    if s.len() == 0 {
        assert(s.push(c).drop_first() =~= Seq::<char>::empty());
        assert(encode_utf8(s.push(c)) =~= encode_scalar(c as u32) + encode_utf8(Seq::<char>::empty()));
        assert(encode_utf8(s) + encode_scalar(c as u32) =~= encode_scalar(c as u32));
    } else {
        assert(s.push(c).drop_first() =~= s.drop_first().push(c));
        lemma_encode_utf8_push(s.drop_first(), c);
        assert(encode_utf8(s.push(c)) =~= encode_scalar(s[0] as u32) + encode_utf8(
            s.drop_first().push(c),
        ));
        assert(encode_utf8(s.push(c)) =~= encode_utf8(s) + encode_scalar(c as u32));
    }
}

/// Encodes a character in UTF-8.
pub(crate) fn encode_char(c: char) -> (v: Vec<u8>)
    ensures
        v@ == encode_scalar(c as u32),
        1 <= v@.len() <= 4,
{
    let scalar = c as u32;
    if scalar <= 0x7F {
        let v = vec![(scalar & 0x7F) as u8];
        assert(v@ =~= seq![leading_byte_width_1(scalar)]);
        v
    } else if scalar <= 0x7FF {
        let v = vec![0xC0 | ((scalar >> 6) & 0x1F) as u8, 0x80 | (scalar & 0x3F) as u8];
        assert(v@ =~= seq![leading_byte_width_2(scalar), last_continuation_byte(scalar)]);
        v
    } else if scalar <= 0xFFFF {
        let v = vec![
            0xE0 | ((scalar >> 12) & 0x0F) as u8,
            0x80 | ((scalar >> 6) & 0x3F) as u8,
            0x80 | (scalar & 0x3F) as u8,
        ];
        assert(v@ =~= seq![
            leading_byte_width_3(scalar),
            second_last_continuation_byte(scalar),
            last_continuation_byte(scalar),
        ]);
        v
    } else {
        let v = vec![
            0xF0 | ((scalar >> 18) & 0x7) as u8,
            0x80 | ((scalar >> 12) & 0x3F) as u8,
            0x80 | ((scalar >> 6) & 0x3F) as u8,
            0x80 | (scalar & 0x3F) as u8,
        ];
        assert(v@ =~= seq![
            leading_byte_width_4(scalar),
            third_last_continuation_byte(scalar),
            second_last_continuation_byte(scalar),
            last_continuation_byte(scalar),
        ]);
        v
    }
}

/// Encodes characters in UTF-8.
pub(crate) fn encode_chars(chars: &[char]) -> (v: Vec<u8>)
    ensures
        v@ == encode_utf8(chars@),
        v@.len() <= 4 * chars@.len(),
{
    let mut v: Vec<u8> = Vec::new();
    let mut i: usize = 0;
    while i < chars.len()
        invariant
            i <= chars@.len(),
            v@ == encode_utf8(chars@.take(i as int)),
            v@.len() <= 4 * i,
        decreases chars@.len() - i,
    {
        let mut e = encode_char(chars[i]);
        v.append(&mut e);
        proof {
            assert(chars@.take(i + 1) =~= chars@.take(i as int).push(chars@[i as int]));
            lemma_encode_utf8_push(chars@.take(i as int), chars@[i as int]);
        }
        i = i + 1;
    }
    assert(chars@.take(i as int) =~= chars@);
    v
}

} // verus!

use vstd::prelude::*;
use vstd::utf8::{
    encode_scalar, encode_utf8, has_width_1_encoding, has_width_2_encoding, has_width_3_encoding,
        is_scalar,
    leading_byte_width_1, leading_byte_width_2, leading_byte_width_3, leading_byte_width_4,
};

verus! {

/// Whether `c` may appear in a token id: an ASCII digit or a lower-case ASCII
/// letter.
pub open spec fn is_token_id_char(c: char) -> bool {
    ('0' <= c <= '9') || ('a' <= c <= 'z')
}

/// Whether every character of `text` may appear in a token id.
pub open spec fn valid_token_id_text(text: Seq<char>) -> bool {
    forall|i: int| 0 <= i < text.len() ==> is_token_id_char(#[trigger] text[i])
}

/// Whether `b` is the byte of a character that may appear in a token id.
pub open spec fn is_token_id_byte(b: u8) -> bool {
    (0x30 <= b <= 0x39) || (0x61 <= b <= 0x7a)
}

/// Whether every byte of `bytes` is the byte of a character that may appear
/// in a token id.
pub open spec fn all_token_id_bytes(bytes: Seq<u8>) -> bool {
    forall|i: int| 0 <= i < bytes.len() ==> is_token_id_byte(#[trigger] bytes[i])
}

proof fn lemma_leading_bytes(c: u32)
    by (bit_vector)
    requires
        is_scalar(c),
    ensures
        has_width_1_encoding(c) ==> leading_byte_width_1(c) == c,
        has_width_2_encoding(c) ==> leading_byte_width_2(c) >= 0xC0,
        has_width_3_encoding(c) ==> leading_byte_width_3(c) >= 0xE0,
        !has_width_1_encoding(c) && !has_width_2_encoding(c) && !has_width_3_encoding(c)
            ==> leading_byte_width_4(c)
            >= 0xF0,
{
}

proof fn lemma_first_char(c: char)
    ensures
        all_token_id_bytes(encode_scalar(c as u32)) <==> is_token_id_char(c),
{
    let s = c as u32;
    vstd::utf8::char_is_scalar(c);
    lemma_leading_bytes(s);
    let bytes = encode_scalar(s);
    assert(bytes.len() > 0);
    if has_width_1_encoding(s) {
        assert(bytes[0] == s);
        assert(is_token_id_byte(bytes[0]) <==> is_token_id_char(c));
    } else {
        assert(bytes[0] >= 0xC0);
        assert(!is_token_id_byte(bytes[0]));
        assert(!is_token_id_char(c));
    }
}

/// A text is made of digits and lower-case letters exactly when its UTF-8
/// encoding is made of their bytes.
pub proof fn lemma_token_id_bytes(text: Seq<char>)
    ensures
        all_token_id_bytes(encode_utf8(text)) <==> valid_token_id_text(text),
    decreases text.len(),
{
    if text.len() > 0 {
        let head = encode_scalar(text[0] as u32);
        let rest = text.drop_first();
        let tail = encode_utf8(rest);
        lemma_first_char(text[0]);
        lemma_token_id_bytes(rest);
        assert(encode_utf8(text) == head + tail);
        if all_token_id_bytes(head + tail) {
            assert forall|i: int| 0 <= i < head.len() implies is_token_id_byte(#[trigger] head[i]) by {
                assert((head + tail)[i] == head[i]);
            }
            assert forall|i: int| 0 <= i < tail.len() implies is_token_id_byte(#[trigger] tail[i]) by {
                assert((head + tail)[head.len() + i] == tail[i]);
            }
            assert forall|i: int| 0 <= i < text.len() implies is_token_id_char(#[trigger] text[i]) by {
                if i > 0 {
                    assert(rest[i - 1] == text[i]);
                }
            }
        }
        if valid_token_id_text(text) {
            assert(is_token_id_char(text[0]));
            assert forall|i: int| 0 <= i < rest.len() implies is_token_id_char(#[trigger] rest[i]) by {
                assert(rest[i] == text[i + 1]);
            }
            assert forall|i: int| 0 <= i < (head + tail).len() implies is_token_id_byte(
                #[trigger] (head + tail)[i],
            ) by {
                if i < head.len() {
                    assert((head + tail)[i] == head[i]);
                } else {
                    assert((head + tail)[i] == tail[i - head.len()]);
                }
            }
        }
    }
}

/// A token id is valid when it is made of ASCII digits and lower-case ASCII
/// letters only. The empty id is valid.
pub fn is_valid_token_id(token_id: &String) -> (valid: bool)
    ensures
        valid == valid_token_id_text(token_id@),
        valid == all_token_id_bytes(encode_utf8(token_id@)),
{
    let bytes = token_id.as_str().as_bytes();
    proof {
        lemma_token_id_bytes(token_id@);
    }
    let mut i: usize = 0;
    while i < bytes.len()
        invariant
            i <= bytes.len(),
            bytes@ == encode_utf8(token_id@),
            all_token_id_bytes(encode_utf8(token_id@)) <==> valid_token_id_text(token_id@),
            forall|j: int| 0 <= j < i ==> is_token_id_byte(#[trigger] bytes@[j]),
        decreases bytes.len() - i,
    {
        let c: u8 = bytes[i];
        if !((c >= 0x30 && c <= 0x39) || (c >= 0x61 && c <= 0x7a)) {
            return false;
        }
        i += 1;
    }
    true
}

} // verus!

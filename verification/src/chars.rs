//! Text and its bytes.
//!
//! Texts travel as UTF-8. What is said of a line of input is said of its
//! characters; what is computed is computed on its bytes. The lemmas here
//! carry the one over to the other: a character below 128 is one byte, the
//! same number, and every byte of any other character is 128 or more.

use vstd::prelude::*;
use vstd::slice::slice_to_vec;
use vstd::utf8::{
    decode_utf8, encode_scalar, encode_utf8, last_continuation_byte,
    leading_byte_width_1, leading_byte_width_2, leading_byte_width_3, leading_byte_width_4,
    second_last_continuation_byte, third_last_continuation_byte, valid_utf8,
};

verus! {

/// The byte of a space.
pub const SPACE: u8 = 0x20;

/// The position of the first space in `text`.
pub open spec fn first_space(text: Seq<char>) -> Option<int>
    decreases text.len(),
{
    if text.len() == 0 {
        None
    } else if text[0] == ' ' {
        Some(0)
    } else {
        match first_space(text.drop_first()) {
            Some(at) => Some(at + 1),
            None => None,
        }
    }
}

/// Whether a text is one word: not empty, and without a space in it.
pub open spec fn is_word(text: Seq<char>) -> bool {
    &&& text.len() > 0
    &&& forall|k: int| 0 <= k < text.len() ==> text[k] != ' '
}

/// A text without a space has no first space.
pub proof fn lemma_no_space(text: Seq<char>)
    requires
        forall|k: int| 0 <= k < text.len() ==> text[k] != ' ',
    ensures
        first_space(text) is None,
    decreases text.len(),
{
    if text.len() > 0 {
        let rest = text.drop_first();
        assert forall|k: int| 0 <= k < rest.len() implies rest[k] != ' ' by {
            assert(rest[k] == text[k + 1]);
        }
        lemma_no_space(rest);
    }
}

/// The first space is a position of the text, and a space stands there.
pub proof fn lemma_first_space_in_range(text: Seq<char>)
    ensures
        first_space(text) matches Some(at) ==> 0 <= at < text.len() && text[at] == ' ',
    decreases text.len(),
{
    if text.len() > 0 && text[0] != ' ' {
        lemma_first_space_in_range(text.drop_first());
    }
}

/// `at` is where the first space byte stands in `bytes`, or the length of
/// `bytes` where they hold none.
pub open spec fn is_first_space_byte(bytes: Seq<u8>, at: int) -> bool {
    &&& 0 <= at <= bytes.len()
    &&& forall|k: int| 0 <= k < at ==> bytes[k] != SPACE
    &&& at < bytes.len() ==> bytes[at] == SPACE
}

/// The bytes of the leading and continuation positions of a character of
/// two or more bytes have their high bit set.
proof fn lemma_wide_bytes_are_high(scalar: u32)
    by (bit_vector)
    ensures
        leading_byte_width_2(scalar) >= 0x80,
        leading_byte_width_3(scalar) >= 0x80,
        leading_byte_width_4(scalar) >= 0x80,
        last_continuation_byte(scalar) >= 0x80,
        second_last_continuation_byte(scalar) >= 0x80,
        third_last_continuation_byte(scalar) >= 0x80,
{
}

/// The byte of a character of one byte is the character's number.
proof fn lemma_narrow_byte(scalar: u32)
    by (bit_vector)
    requires
        scalar <= 0x7f,
    ensures
        leading_byte_width_1(scalar) as u32 == scalar,
{
}

/// The bytes of one character: one byte, the character's number, below
/// 128; else up to four bytes that are all 128 or more.
pub proof fn lemma_char_bytes(c: char)
    ensures
        1 <= encode_scalar(c as u32).len() <= 4,
        (c as u32) < 0x80 ==> encode_scalar(c as u32).len() == 1 && encode_scalar(c as u32)[0]
            == c as u32,
        (c as u32) >= 0x80 ==> forall|k: int|
            0 <= k < encode_scalar(c as u32).len() ==> #[trigger] encode_scalar(c as u32)[k]
                >= 0x80,
{
    let scalar = c as u32;
    lemma_wide_bytes_are_high(scalar);
    if scalar < 0x80 {
        lemma_narrow_byte(scalar);
    }
}

/// The bytes of two texts in a row are their bytes in a row.
pub proof fn lemma_bytes_concat(head: Seq<char>, tail: Seq<char>)
    ensures
        encode_utf8(head + tail) == encode_utf8(head) + encode_utf8(tail),
    decreases head.len(),
{
    if head.len() == 0 {
        assert(head + tail =~= tail);
    } else {
        assert((head + tail).drop_first() =~= head.drop_first() + tail);
        lemma_bytes_concat(head.drop_first(), tail);
    }
}

/// A text's bytes are those of its first `at` characters and those of the
/// rest.
pub proof fn lemma_bytes_split(text: Seq<char>, at: int)
    requires
        0 <= at <= text.len(),
    ensures
        encode_utf8(text) == encode_utf8(text.take(at)) + encode_utf8(text.skip(at)),
{
    assert(text =~= text.take(at) + text.skip(at));
    lemma_bytes_concat(text.take(at), text.skip(at));
}

/// Two texts with the same bytes are the same text.
pub proof fn lemma_same_bytes_same_text(left: Seq<char>, right: Seq<char>)
    requires
        encode_utf8(left) == encode_utf8(right),
    ensures
        left == right,
{
    vstd::utf8::encode_utf8_decode_utf8(left);
    vstd::utf8::encode_utf8_decode_utf8(right);
}

/// Where the first `count` bytes of a text are below 128, they are its
/// first `count` characters, one byte each, and the bytes behind them are
/// those of the characters behind them.
pub proof fn lemma_narrow_front(text: Seq<char>, count: int)
    requires
        0 <= count <= encode_utf8(text).len(),
        forall|k: int| 0 <= k < count ==> encode_utf8(text)[k] < 0x80,
    ensures
        count <= text.len(),
        forall|k: int| 0 <= k < count ==> (#[trigger] text[k]) as u32 == encode_utf8(text)[k],
        encode_utf8(text).skip(count) == encode_utf8(text.skip(count)),
    decreases count,
{
    let bytes = encode_utf8(text);
    if count == 0 {
        assert(text.skip(0) =~= text);
    } else {
        let first = encode_scalar(text[0] as u32);
        let rest = text.drop_first();
        lemma_char_bytes(text[0]);
        assert(bytes[0] == first[0]);
        assert(bytes.skip(1) =~= encode_utf8(rest));
        assert forall|k: int| 0 <= k < count - 1 implies encode_utf8(rest)[k] < 0x80 by {
            assert(encode_utf8(rest)[k] == bytes[k + 1]);
        }
        lemma_narrow_front(rest, count - 1);
        assert forall|k: int| 0 <= k < count implies (#[trigger] text[k]) as u32 == bytes[k] by {
            if k > 0 {
                assert(text[k] == rest[k - 1]);
            }
        }
        assert(text.skip(count) =~= rest.skip(count - 1));
    }
}

/// The first space of a text is where the first space byte of its bytes is:
/// the bytes before that byte are those of the characters before the space.
pub proof fn lemma_first_space_agrees(text: Seq<char>, at: int)
    requires
        is_first_space_byte(encode_utf8(text), at),
    ensures
        match first_space(text) {
            Some(space) => 0 <= space < text.len() && text[space] == ' ' && encode_utf8(
                text.take(space),
            ).len() == at && at < encode_utf8(text).len(),
            None => at == encode_utf8(text).len(),
        },
    decreases text.len(),
{
    let bytes = encode_utf8(text);
    if text.len() > 0 {
        let first = encode_scalar(text[0] as u32);
        let rest = text.drop_first();
        lemma_char_bytes(text[0]);
        assert(bytes.skip(first.len() as int) =~= encode_utf8(rest));
        if text[0] == ' ' {
            assert(bytes[0] == first[0]);
        } else {
            assert(text[0] as u32 != 0x20) by {
                vstd::utf8::char_u32_cast(text[0], text[0] as u32);
            }
            assert forall|k: int| 0 <= k < first.len() implies bytes[k] != SPACE by {
                assert(bytes[k] == first[k]);
            }
            let shifted = at - first.len();
            assert forall|k: int| 0 <= k < shifted implies encode_utf8(rest)[k] != SPACE by {
                assert(encode_utf8(rest)[k] == bytes[k + first.len()]);
            }
            lemma_first_space_agrees(rest, shifted);
            if let Some(space) = first_space(rest) {
                assert(text.take(space + 1).drop_first() =~= rest.take(space));
            }
        }
    }
}

/// A text with a space at `at` is, in bytes, what stands before the space,
/// the space's byte, and what stands behind it.
pub proof fn lemma_bytes_around_space(text: Seq<char>, at: int)
    requires
        0 <= at < text.len(),
        text[at] == ' ',
    ensures
        encode_utf8(text) == encode_utf8(text.take(at)) + seq![SPACE] + encode_utf8(
            text.skip(at + 1),
        ),
{
    let behind = text.skip(at);
    lemma_bytes_split(text, at);
    lemma_char_bytes(behind[0]);
    assert(behind.drop_first() =~= text.skip(at + 1));
    assert(encode_utf8(text) =~= encode_utf8(text.take(at)) + seq![SPACE] + encode_utf8(
        text.skip(at + 1),
    ));
}

/// Calls `String::from_utf8` of std. Trusted, as std documents it: the call
/// fails exactly on bytes that are not UTF-8, and the string that comes out
/// is made of the bytes that went in.
#[verifier::external_body]
fn string_from_utf8(bytes: Vec<u8>) -> (text: Option<String>)
    ensures
        match text {
            Some(s) => encode_utf8(s@) == bytes@,
            None => !valid_utf8(bytes@),
        },
{
    String::from_utf8(bytes).ok()
}

/// The text that `bytes` encode, if they are UTF-8.
pub fn text_from_bytes(bytes: &[u8]) -> (text: Option<String>)
    ensures
        match text {
            Some(s) => valid_utf8(bytes@) && s@ == decode_utf8(bytes@),
            None => !valid_utf8(bytes@),
        },
{
    let text = string_from_utf8(slice_to_vec(bytes));
    proof {
        if let Some(s) = &text {
            vstd::utf8::encode_utf8_valid_utf8(s@);
            vstd::utf8::encode_utf8_decode_utf8(s@);
        }
    }
    text
}

} // verus!

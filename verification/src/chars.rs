//! Character classes and the width of a character in UTF-8.

use vstd::prelude::*;
use vstd::utf8::*;

verus! {

/// Whether `char::is_alphabetic` holds of the character: the Unicode
/// property `Alphabetic`.
pub uninterp spec fn char_is_alphabetic(c: char) -> bool;

/// Whether `char::is_alphanumeric` holds of the character: the Unicode
/// property `Alphabetic` or one of the numeric general categories.
pub uninterp spec fn char_is_alphanumeric(c: char) -> bool;

/// `char::is_alphabetic`, a function of the character alone.
pub assume_specification[ char::is_alphabetic ](c: char) -> (r: bool)
    ensures
        r == char_is_alphabetic(c),
;

/// `char::is_alphanumeric`, a function of the character alone.
pub assume_specification[ char::is_alphanumeric ](c: char) -> (r: bool)
    ensures
        r == char_is_alphanumeric(c),
;

/// An ASCII decimal digit.
pub open spec fn is_digit(c: char) -> bool {
    '0' <= c && c <= '9'
}

/// A character that may continue an identifier.
pub open spec fn is_identifier_char(c: char) -> bool {
    char_is_alphanumeric(c) || c == '_'
}

pub fn is_ascii_digit(c: char) -> (r: bool)
    ensures
        r == is_digit(c),
{
    '0' <= c && c <= '9'
}

pub fn is_identifier(c: char) -> (r: bool)
    ensures
        r == is_identifier_char(c),
{
    c.is_alphanumeric() || c == '_'
}

/// The number of bytes that the character takes in UTF-8.
pub open spec fn utf8_width(c: char) -> nat {
    encode_scalar(c as u32).len()
}

/// The number of bytes that the characters take in UTF-8.
pub open spec fn utf8_len(s: Seq<char>) -> nat {
    encode_utf8(s).len()
}

pub fn len_utf8(c: char) -> (r: usize)
    ensures
        r == utf8_width(c),
        1 <= r <= 4,
{
    let v: u32 = c as u32;
    if v < 0x80 {
        1
    } else if v < 0x800 {
        2
    } else if v < 0x10000 {
        3
    } else {
        4
    }
}

/// The encoding of a concatenation is the concatenation of the encodings.
pub proof fn lemma_encode_concat(a: Seq<char>, b: Seq<char>)
    ensures
        encode_utf8(a + b) == encode_utf8(a) + encode_utf8(b),
    decreases a.len(),
{
    if a.len() == 0 {
        assert(a + b == b);
        assert(encode_utf8(a) + encode_utf8(b) == encode_utf8(b));
    } else {
        assert((a + b).drop_first() == a.drop_first() + b);
        lemma_encode_concat(a.drop_first(), b);
        assert(encode_utf8(a + b) == encode_scalar(a[0] as u32) + encode_utf8(a.drop_first() + b));
        assert(encode_scalar(a[0] as u32) + (encode_utf8(a.drop_first()) + encode_utf8(b))
            == (encode_scalar(a[0] as u32) + encode_utf8(a.drop_first())) + encode_utf8(b));
    }
}

/// One more character adds its width to the length of the encoding.
pub proof fn lemma_utf8_len_step(s: Seq<char>, i: int)
    requires
        0 <= i < s.len(),
    ensures
        utf8_len(s.take(i + 1)) == utf8_len(s.take(i)) + utf8_width(s[i]),
        utf8_len(s.take(i + 1)) <= utf8_len(s),
{
    let c = seq![s[i]];
    assert(s.take(i + 1) == s.take(i) + c);
    lemma_encode_concat(s.take(i), c);
    assert(c.drop_first() == Seq::<char>::empty());
    assert(encode_utf8(c) == encode_scalar(s[i] as u32) + encode_utf8(Seq::<char>::empty()));
    assert(encode_utf8(Seq::<char>::empty()).len() == 0);
    assert(s == s.take(i + 1) + s.skip(i + 1));
    lemma_encode_concat(s.take(i + 1), s.skip(i + 1));
}

/// The bytes of a part of a text are the part of its bytes that lies
/// between the byte offsets of its ends.
pub proof fn lemma_encode_subrange(s: Seq<char>, from: int, to: int)
    requires
        0 <= from <= to <= s.len(),
    ensures
        utf8_len(s.take(from)) <= utf8_len(s.take(to)) <= utf8_len(s),
        encode_utf8(s).subrange(utf8_len(s.take(from)) as int, utf8_len(s.take(to)) as int)
            == encode_utf8(s.subrange(from, to)),
{
    let a = s.take(from);
    let b = s.subrange(from, to);
    let c = s.skip(to);
    assert(s.take(to) == a + b);
    assert(s == (a + b) + c);
    lemma_encode_concat(a, b);
    lemma_encode_concat(a + b, c);
    assert(encode_utf8(s).subrange(encode_utf8(a).len() as int, encode_utf8(a + b).len() as int)
        =~= encode_utf8(b));
}

/// The byte offset of a character of a text falls between characters.
pub proof fn lemma_boundary(s: Seq<char>, i: int)
    requires
        0 <= i <= s.len(),
    ensures
        is_char_boundary(encode_utf8(s), utf8_len(s.take(i)) as int),
    decreases i,
{
    encode_utf8_valid_utf8(s);
    if i == 0 {
        assert(s.take(0) == Seq::<char>::empty());
    } else {
        let bytes = encode_utf8(s);
        encode_utf8_first_scalar(s);
        assert(pop_first_scalar(bytes) =~= encode_utf8(s.drop_first()));
        lemma_boundary(s.drop_first(), i - 1);
        assert(s.take(i) == seq![s[0]] + s.drop_first().take(i - 1));
        lemma_encode_concat(seq![s[0]], s.drop_first().take(i - 1));
        assert(seq![s[0]].drop_first() == Seq::<char>::empty());
        assert(encode_utf8(seq![s[0]]) == encode_scalar(s[0] as u32) + encode_utf8(
            Seq::<char>::empty(),
        ));
        lemma_encode_subrange(s, 0, i);
    }
}

/// Texts with the same bytes are the same text.
pub proof fn lemma_encode_injective(a: Seq<char>, b: Seq<char>)
    requires
        encode_utf8(a) == encode_utf8(b),
    ensures
        a == b,
{
    encode_utf8_decode_utf8(a);
    encode_utf8_decode_utf8(b);
}

} // verus!
